use ssmtui::app::{App, Startup};
use ssmtui::models::{Parameter, ParameterMeta};
use ssmtui::layout::{centered_rect, centering_percents};
use ssmtui::view::{list_window, split_lines, value_window};

fn param(name: &str, value: Option<&str>) -> Parameter {
    Parameter {
        name: name.to_string(),
        value: value.map(|v| v.to_string()),
        meta: ParameterMeta::default(),
    }
}

fn app_of(params: Vec<Parameter>) -> App {
    let n = params.len();
    let loaded: Startup = Ok((params, n, 1, Err("none".to_string())));
    App::new("r".to_string(), loaded)
}

#[test]
fn list_window_scrolls_with_the_selection() {
    assert_eq!(list_window(0, 5, 3), (0, 3));
    assert_eq!(list_window(2, 5, 20), (0, 5));
    assert_eq!(list_window(7, 5, 20), (3, 8));
    assert_eq!(list_window(19, 5, 20), (15, 20));
    assert_eq!(list_window(2, 0, 10), (2, 2));
}

#[test]
fn law_selected_row_is_visible() {
    for total in 1..12usize {
        for height in 1..6usize {
            for selected in 0..total {
                let (start, end) = list_window(selected, height, total);
                assert!(start <= selected && selected < end);
                assert!(end <= total);
            }
        }
    }
}

#[test]
fn split_lines_keeps_empty_lines() {
    assert_eq!(split_lines("a\nb\n"), vec!["a", "b", ""]);
    assert_eq!(split_lines(""), vec![""]);
    assert_eq!(split_lines("\n\n"), vec!["", "", ""]);
    assert_eq!(split_lines("é"), vec!["é"]);
}

#[test]
fn law_line_count_is_newlines_plus_one() {
    for text in ["", "a", "a\n", "\n\nx\ny", "é\né"] {
        assert_eq!(split_lines(text).len(), text.matches('\n').count() + 1);
        assert_eq!(split_lines(text).join("\n"), text);
    }
}

#[test]
fn value_window_keeps_cursor_line_visible() {
    assert_eq!(value_window(10, 20, 5), (6, 11));
    assert_eq!(value_window(0, 1, 5), (0, 1));
    assert_eq!(value_window(2, 3, 7), (0, 3));
    for lines in 1..10usize {
        for cursor in 0..lines {
            let (start, end) = value_window(cursor, lines, 3);
            assert!(start <= cursor && cursor < end);
        }
    }
}

#[test]
fn header_describes_the_selection() {
    let mut p = param("/a", Some("v"));
    p.meta.param_type = Some("SecureString".to_string());
    p.meta.version = Some(3);
    p.meta.last_modified_epoch = Some(-5);
    let app = app_of(vec![p]);
    let h = app.header_fields();
    assert_eq!(h.name, "/a");
    assert_eq!(h.param_type, "SecureString");
    assert_eq!(h.version, "3");
    assert_eq!(h.tier, "-");
    assert_eq!(h.data_type, "-");
    assert_eq!(h.last_modified, "-5");
    assert_eq!(h.key_id, "-");
    assert_eq!(h.description, "No description");
    assert_eq!(h.last_modified_user, "-");
}

#[test]
fn header_without_selection_shows_dashes() {
    let app = app_of(vec![]);
    let h = app.header_fields();
    assert_eq!(h.name, "-");
    assert_eq!(h.version, "-");
    assert_eq!(h.description, "No description");
}

#[test]
fn filter_line_shows_mode_query_and_total() {
    let mut app = app_of(vec![param("/db", None), param("/web", None)]);
    assert_eq!(app.filter_line(), "FILTER: /    Total: 2");
    app.start_search();
    app.query = "db".to_string();
    app.apply_filter();
    assert_eq!(app.filter_line(), "SEARCH: /db    Total: 1");
}

#[test]
fn value_panel_texts() {
    let mut app = app_of(vec![param("/a", Some("val")), param("/b", None)]);
    assert_eq!(app.value_panel_text(), "val");
    app.next();
    assert_eq!(app.value_panel_text(), "Value not loaded yet...");
    app.pending_value_requests.push("/b".to_string());
    assert_eq!(app.value_panel_text(), "Loading value from SSM in background...");
    let empty = app_of(vec![]);
    assert_eq!(empty.value_panel_text(), "No selection");
}

#[test]
fn name_field_shows_example_when_blank() {
    let mut app = app_of(vec![]);
    assert!(app.create_name_is_blank());
    assert_eq!(app.name_field_text(), "/prod/service/component/KEY");
    app.create_name = "  ".to_string();
    assert!(app.create_name_is_blank());
    app.create_name = " /x".to_string();
    assert!(!app.create_name_is_blank());
    assert_eq!(app.name_field_text(), " /x");
}

#[test]
fn centering_percents_split_the_rest_evenly() {
    assert_eq!(centering_percents(60), vec![20, 60, 20]);
    assert_eq!(centering_percents(77), vec![11, 77, 11]);
    assert_eq!(centering_percents(100), vec![0, 100, 0]);
    assert_eq!(centering_percents(0), vec![50, 0, 50]);
}

#[test]
fn centered_rect_sits_in_the_middle() {
    assert_eq!(centered_rect(60, 24, (0, 0, 100, 50)), (20, 19, 60, 12));
    assert_eq!(centered_rect(50, 50, (10, 5, 200, 100)), (60, 30, 100, 50));
}

#[test]
fn list_rows_show_window_and_highlight() {
    let mut app = app_of((0..6).map(|i| param(&format!("/p{i}"), None)).collect());
    app.selected = 4;
    let rows = app.list_rows(3);
    assert_eq!(
        rows,
        vec![(" /p2 ".to_string(), false), (" /p3 ".to_string(), false), (" /p4 ".to_string(), true)]
    );
    let empty = app_of(vec![]);
    assert_eq!(empty.list_rows(3), vec![(" No parameters matched ".to_string(), false)]);
}

#[test]
fn header_lines_for_profile_region_and_status() {
    let mut app = app_of(vec![]);
    app.aws_region = "eu-west-1".to_string();
    assert_eq!(app.location_line(None), "Profile: default   Region: eu-west-1");
    assert_eq!(app.location_line(Some("  ".to_string())), "Profile: default   Region: eu-west-1");
    assert_eq!(app.location_line(Some("dev".to_string())), "Profile: dev   Region: eu-west-1");
    app.status = "ok".to_string();
    assert_eq!(app.status_line(), "Status: ok");
}

#[test]
fn popup_cursor_follows_the_focused_field() {
    let mut app = app_of(vec![]);
    app.start_create();
    app.create_name = "héllo".to_string();
    assert_eq!(app.popup_cursor((10, 20, 30, 5), 0, (4, 8, 50, 2)), (16, 8));
    assert_eq!(app.popup_cursor((10, 20, 30, 5), 0, (4, 8, 10, 2)), (13, 8));
    app.switch_create_field();
    app.create_value = "ab\ncde".to_string();
    app.create_value_cursor = 5;
    assert_eq!(app.popup_cursor((10, 20, 30, 5), 0, (4, 8, 50, 2)), (12, 21));
    assert_eq!(app.popup_cursor((10, 20, 30, 5), 1, (4, 8, 50, 2)), (12, 20));
    assert_eq!(app.popup_cursor((10, 20, 2, 5), 0, (4, 8, 50, 2)), (11, 21));
}

#[test]
fn centered_rect_lies_inside_the_area() {
    for (px, py) in [(60u16, 24u16), (78, 62), (100, 100), (0, 0)] {
        let area = (3u16, 4u16, 91u16, 37u16);
        let (x, y, w, h) = centered_rect(px, py, area);
        assert!(x >= area.0 && x + w <= area.0 + area.2);
        assert!(y >= area.1 && y + h <= area.1 + area.3);
    }
}

#[test]
fn centered_rect_keeps_its_share_of_the_area() {
    let areas = [(0u16, 0u16, 100u16, 50u16), (3, 4, 91, 37), (0, 0, 300, 120), (7, 2, 1, 1), (0, 0, 0, 0)];
    for area in areas {
        for (px, py) in [(60u16, 24u16), (78, 62), (77, 33), (100, 100), (0, 0), (1, 99)] {
            let (x, y, w, h) = centered_rect(px, py, area);
            for (off, ext, p, e) in [
                (x as i64 - area.0 as i64, w as i64, px as i64, area.2 as i64),
                (y as i64 - area.1 as i64, h as i64, py as i64, area.3 as i64),
            ] {
                let side = (100 - p) / 2;
                assert!(p * e <= 100 * ext + 200);
                assert!(100 * ext <= p * e + e + 200);
                assert!(side * e <= 100 * off + 200);
                assert!(100 * off <= side * e + e + 200);
            }
        }
    }
}

#[test]
fn windows_never_overflow() {
    assert_eq!(list_window(usize::MAX, 5, 10), (5, 10));
    assert_eq!(list_window(3, usize::MAX, usize::MAX), (0, usize::MAX));
    assert_eq!(value_window(usize::MAX, 3, usize::MAX), (1, 3));
    assert_eq!(value_window(0, usize::MAX, usize::MAX), (0, usize::MAX));
}
