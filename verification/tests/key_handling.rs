use std::sync::mpsc;

use ssmtui::app::{App, Startup};
use ssmtui::keys::{
    EditOutcome, EditStep, KeyAction, KeyCode, KeyInput, after_editor, after_store, drop_last_char,
    loading_key_quits,
};
use ssmtui::models::{
    CreateField, FullRefreshResult, Parameter, ParameterMeta, RequestSender, ValueEditorMode,
    ValueFetchResult, ValueWorkerPool,
};

fn param(name: &str, value: Option<&str>) -> Parameter {
    Parameter {
        name: name.to_string(),
        value: value.map(|v| v.to_string()),
        meta: ParameterMeta::default(),
    }
}

fn app_of(params: Vec<Parameter>) -> App {
    let n = params.len();
    let loaded: Startup = Ok((params, n, 1, Err("no workers".to_string())));
    App::new("eu-west-1".to_string(), loaded)
}

fn press(code: KeyCode) -> KeyInput {
    KeyInput { code, ctrl: false, press: true }
}

fn ctrl(c: char) -> KeyInput {
    KeyInput { code: KeyCode::Char(c), ctrl: true, press: true }
}

fn typed(app: &mut App, text: &str) {
    for c in text.chars() {
        assert!(matches!(app.handle_key(press(KeyCode::Char(c))), KeyAction::Nothing));
    }
}

fn shown(app: &App) -> Vec<String> {
    app.filtered_indices
        .iter()
        .map(|i| app.all_parameters[*i].name.clone())
        .collect()
}

#[test]
fn released_keys_are_ignored() {
    let mut app = app_of(vec![param("/a", None), param("/b", None)]);
    let key = KeyInput { code: KeyCode::Char('j'), ctrl: false, press: false };
    assert!(matches!(app.handle_key(key), KeyAction::Nothing));
    assert_eq!(app.selected, 0);
}

#[test]
fn ctrl_c_quits_from_the_main_screen() {
    let mut app = app_of(vec![]);
    assert!(matches!(app.handle_key(ctrl('c')), KeyAction::Quit));
    assert!(matches!(app.handle_key(press(KeyCode::Char('c'))), KeyAction::Nothing));
}

#[test]
fn q_and_esc_quit_from_the_main_screen() {
    let mut app = app_of(vec![param("/a", None)]);
    assert!(matches!(app.handle_key(press(KeyCode::Char('q'))), KeyAction::Quit));
    assert!(matches!(app.handle_key(press(KeyCode::Esc)), KeyAction::Quit));
    assert!(matches!(app.handle_key(ctrl('q')), KeyAction::Nothing));
    app.handle_key(press(KeyCode::Char('/')));
    typed(&mut app, "q");
    assert_eq!(app.query, "q");
    assert!(matches!(app.handle_key(press(KeyCode::Esc)), KeyAction::Nothing));
    assert!(!app.search_mode);
    assert!(matches!(app.handle_key(press(KeyCode::Esc)), KeyAction::Quit));
}

#[test]
fn j_k_and_arrows_move_the_selection() {
    let mut app = app_of(vec![param("/a", None), param("/b", None), param("/c", None)]);
    app.handle_key(press(KeyCode::Char('j')));
    assert_eq!(app.selected, 1);
    app.handle_key(press(KeyCode::Down));
    assert_eq!(app.selected, 2);
    app.handle_key(press(KeyCode::Down));
    assert_eq!(app.selected, 0);
    app.handle_key(press(KeyCode::Char('k')));
    assert_eq!(app.selected, 2);
    app.handle_key(press(KeyCode::Up));
    assert_eq!(app.selected, 1);
}

#[test]
fn search_mode_edits_the_query_and_filters() {
    let mut app = app_of(vec![param("/app/db", None), param("/app/web", None), param("/db2", None)]);
    app.handle_key(press(KeyCode::Char('/')));
    assert!(app.search_mode);
    typed(&mut app, "db");
    assert_eq!(app.query, "db");
    assert_eq!(shown(&app), vec!["/app/db", "/db2"]);
    typed(&mut app, "2");
    assert_eq!(shown(&app), vec!["/db2"]);
    app.handle_key(press(KeyCode::Backspace));
    assert_eq!(app.query, "db");
    assert_eq!(shown(&app), vec!["/app/db", "/db2"]);
    app.handle_key(press(KeyCode::Down));
    assert_eq!(app.selected, 1);
    app.handle_key(press(KeyCode::Enter));
    assert!(!app.search_mode);
    assert_eq!(app.query, "db");
}

#[test]
fn search_letters_j_k_move_instead_of_typing() {
    let mut app = app_of(vec![param("/a", None), param("/b", None)]);
    app.handle_key(press(KeyCode::Char('/')));
    app.handle_key(press(KeyCode::Char('j')));
    assert_eq!(app.query, "");
    assert_eq!(app.selected, 1);
    app.handle_key(press(KeyCode::Esc));
    assert!(!app.search_mode);
}

#[test]
fn backspace_on_empty_query_keeps_it_empty() {
    let mut app = app_of(vec![param("/a", None)]);
    app.handle_key(press(KeyCode::Char('/')));
    app.handle_key(press(KeyCode::Backspace));
    assert_eq!(app.query, "");
    assert_eq!(app.filtered_indices, vec![0]);
}

#[test]
fn create_popup_full_flow_with_ctrl_s() {
    let mut app = app_of(vec![]);
    app.handle_key(press(KeyCode::Char('a')));
    assert!(app.create_mode);
    typed(&mut app, "/svc/kéy");
    assert_eq!(app.create_name, "/svc/kéy");
    assert_eq!(app.create_name_cursor, "/svc/kéy".len());
    app.handle_key(press(KeyCode::Left));
    app.handle_key(press(KeyCode::Left));
    app.handle_key(press(KeyCode::Backspace));
    assert_eq!(app.create_name, "/svc/éy");
    assert_eq!(app.create_name_cursor, 5);
    app.handle_key(press(KeyCode::End));
    app.handle_key(press(KeyCode::Enter));
    assert!(app.create_field == CreateField::Value);
    assert!(app.create_value_mode == ValueEditorMode::Insert);
    typed(&mut app, "v1");
    app.handle_key(press(KeyCode::Enter));
    typed(&mut app, "v2");
    assert_eq!(app.create_value, "v1\nv2");
    match app.handle_key(ctrl('s')) {
        KeyAction::Create(req) => {
            assert_eq!(req.name, app.create_name);
            assert_eq!(req.value, "v1\nv2");
        }
        _ => panic!("expected a create request"),
    }
}

#[test]
fn create_name_field_keys() {
    let mut app = app_of(vec![]);
    app.handle_key(press(KeyCode::Char('a')));
    typed(&mut app, "abc");
    app.handle_key(press(KeyCode::Home));
    assert_eq!(app.create_name_cursor, 0);
    app.handle_key(press(KeyCode::Delete));
    assert_eq!(app.create_name, "bc");
    app.handle_key(press(KeyCode::Right));
    assert_eq!(app.create_name_cursor, 1);
    app.handle_key(ctrl('x'));
    assert_eq!(app.create_name, "bc");
    app.handle_key(press(KeyCode::Tab));
    assert!(app.create_field == CreateField::Value);
    app.handle_key(press(KeyCode::Tab));
    assert!(app.create_field == CreateField::Name);
    app.handle_key(press(KeyCode::Down));
    assert!(app.create_field == CreateField::Value);
    app.handle_key(press(KeyCode::Tab));
    app.handle_key(press(KeyCode::Up));
    assert!(app.create_field == CreateField::Value);
    app.handle_key(press(KeyCode::Tab));
    assert!(app.create_field == CreateField::Name);
    app.handle_key(press(KeyCode::Esc));
    assert!(!app.create_mode);
    assert_eq!(app.status, "Create parameter cancelled");
}

#[test]
fn create_value_normal_mode_is_vim_like() {
    let mut app = app_of(vec![]);
    app.handle_key(press(KeyCode::Char('a')));
    typed(&mut app, "n");
    app.handle_key(press(KeyCode::Tab));
    typed(&mut app, "abc\nde");
    app.handle_key(press(KeyCode::Esc));
    assert!(app.create_value_mode == ValueEditorMode::Normal);
    assert!(app.create_mode);
    app.handle_key(press(KeyCode::Char('k')));
    assert_eq!(app.create_value_cursor, 2);
    app.handle_key(press(KeyCode::Char('0')));
    assert_eq!(app.create_value_cursor, 0);
    app.handle_key(press(KeyCode::Char('x')));
    assert_eq!(app.create_value, "bc\nde");
    app.handle_key(press(KeyCode::Char('$')));
    assert_eq!(app.create_value_cursor, 2);
    app.handle_key(press(KeyCode::Char('j')));
    assert_eq!(app.create_value_cursor, 5);
    app.handle_key(press(KeyCode::Char('h')));
    assert_eq!(app.create_value_cursor, 4);
    app.handle_key(press(KeyCode::Char('l')));
    assert_eq!(app.create_value_cursor, 5);
    app.handle_key(press(KeyCode::Char('a')));
    assert!(app.create_value_mode == ValueEditorMode::Insert);
    typed(&mut app, "f");
    assert_eq!(app.create_value, "bc\ndef");
    app.handle_key(press(KeyCode::Esc));
    app.handle_key(press(KeyCode::Char('i')));
    assert!(app.create_value_mode == ValueEditorMode::Insert);
    app.handle_key(press(KeyCode::Esc));
    match app.handle_key(press(KeyCode::Enter)) {
        KeyAction::Create(req) => {
            assert_eq!(req.name, "n");
            assert_eq!(req.value, "bc\ndef");
        }
        _ => panic!("expected a create request"),
    }
    app.handle_key(press(KeyCode::Esc));
    assert!(!app.create_mode);
}

#[test]
fn create_with_blank_name_is_refused() {
    let mut app = app_of(vec![]);
    app.handle_key(press(KeyCode::Char('a')));
    typed(&mut app, "  ");
    assert!(matches!(app.handle_key(ctrl('S')), KeyAction::Nothing));
    assert_eq!(app.status, "Create failed: parameter name cannot be empty");
    assert!(app.create_mode);
}

#[test]
fn refresh_key_starts_only_one_refresh() {
    let mut app = app_of(vec![]);
    assert!(matches!(app.handle_key(press(KeyCode::Char('R'))), KeyAction::StartRefresh));
    let (_tx, rx) = mpsc::channel::<Result<FullRefreshResult, String>>();
    app.full_refresh_rx = Some(rx);
    assert!(matches!(app.handle_key(press(KeyCode::Char('R'))), KeyAction::Nothing));
    assert_eq!(app.status, "Full refresh is already running");
}

#[test]
fn yank_copies_a_loaded_value() {
    let mut app = app_of(vec![param("/a", Some("secret"))]);
    match app.handle_key(press(KeyCode::Char('y'))) {
        KeyAction::Copy { name, value } => {
            assert_eq!(name, "/a");
            assert_eq!(value, "secret");
        }
        _ => panic!("expected a copy"),
    }
}

#[test]
fn yank_of_unloaded_value_requests_it() {
    let (request_tx, request_rx) = mpsc::channel::<String>();
    let (_response_tx, response_rx) = mpsc::channel::<ValueFetchResult>();
    let loaded: Startup = Ok((vec![param("/a", None)], 1, 1, Ok(ValueWorkerPool { request_tx: RequestSender::new(request_tx), response_rx })));
    let mut app = App::new("r".to_string(), loaded);
    assert!(matches!(app.handle_key(press(KeyCode::Char('y'))), KeyAction::Nothing));
    assert_eq!(app.status, "Value for /a not loaded yet. Loading in background");
    assert_eq!(request_rx.try_recv().unwrap(), "/a");
    assert!(app.is_value_pending("/a"));
}

#[test]
fn yank_and_edit_without_selection() {
    let mut app = app_of(vec![]);
    assert!(matches!(app.handle_key(press(KeyCode::Char('y'))), KeyAction::Nothing));
    assert_eq!(app.status, "No selection to copy");
    assert!(matches!(app.handle_key(press(KeyCode::Char('e'))), KeyAction::Nothing));
    assert_eq!(app.status, "No selection to edit");
}

#[test]
fn edit_key_asks_to_edit_the_selection() {
    let mut p = param("/a", Some("v"));
    p.meta.param_type = Some("SecureString".to_string());
    let mut app = app_of(vec![p]);
    match app.handle_key(press(KeyCode::Char('e'))) {
        KeyAction::Edit { name, meta } => {
            assert_eq!(name, "/a");
            assert_eq!(meta.param_type.as_deref(), Some("SecureString"));
        }
        _ => panic!("expected an edit"),
    }
}

#[test]
fn finish_copy_reports_outcome() {
    let mut app = app_of(vec![]);
    app.finish_copy("/a", Ok(()));
    assert_eq!(app.status, "Copied value of /a to clipboard");
    app.finish_copy("/a", Err("no tool".to_string()));
    assert_eq!(app.status, "Clipboard error: no tool");
}

#[test]
fn finish_edit_reports_each_outcome() {
    let mut app = app_of(vec![param("/a", Some("old"))]);
    app.finish_edit("/a", EditOutcome::FetchFailed("f".to_string()));
    assert_eq!(app.status, "Fetch before edit failed: f");
    app.finish_edit("/a", EditOutcome::EditorFailed("e".to_string()));
    assert_eq!(app.status, "Editor error: e");
    app.finish_edit("/a", EditOutcome::Unchanged);
    assert_eq!(app.status, "No changes for /a");
    app.finish_edit("/a", EditOutcome::StoreFailed("s".to_string()));
    assert_eq!(app.status, "SSM update error: s");
    assert_eq!(app.all_parameters[0].value.as_deref(), Some("old"));
    app.finish_edit("/a", EditOutcome::Stored("new".to_string()));
    assert_eq!(app.status, "Updated /a in SSM and local state");
    assert_eq!(app.all_parameters[0].value.as_deref(), Some("new"));
}

#[test]
fn drop_last_char_removes_one_character() {
    assert_eq!(drop_last_char("abc"), "ab");
    assert_eq!(drop_last_char("aé"), "a");
    assert_eq!(drop_last_char(""), "");
}

#[test]
fn only_ctrl_c_leaves_the_loading_screen() {
    assert!(loading_key_quits(ctrl('c')));
    assert!(!loading_key_quits(press(KeyCode::Char('c'))));
    assert!(!loading_key_quits(ctrl('x')));
    assert!(!loading_key_quits(KeyInput { code: KeyCode::Char('c'), ctrl: true, press: false }));
    assert!(!loading_key_quits(press(KeyCode::Esc)));
}

fn check_consistent(app: &App) {
    let needle = app.query.to_ascii_lowercase();
    let expected: Vec<usize> = app
        .all_parameters
        .iter()
        .enumerate()
        .filter(|(_, p)| needle.is_empty() || p.name.to_ascii_lowercase().contains(&needle))
        .map(|(i, _)| i)
        .collect();
    assert_eq!(app.filtered_indices, expected);
    assert!(app.selected < app.filtered_indices.len() || app.selected == 0);
    let mut pending = app.pending_value_requests.clone();
    pending.sort();
    pending.dedup();
    assert_eq!(pending.len(), app.pending_value_requests.len());
}

#[test]
fn law_keys_keep_the_state_consistent() {
    let (request_tx, _request_rx) = mpsc::channel::<String>();
    let (_response_tx, response_rx) = mpsc::channel::<ValueFetchResult>();
    let params = vec![param("/app/DB", None), param("/app/web", Some("w")), param("/db", None)];
    let loaded: Startup = Ok((params, 3, 1, Ok(ValueWorkerPool { request_tx: RequestSender::new(request_tx), response_rx })));
    let mut app = App::new("r".to_string(), loaded);
    check_consistent(&app);
    let keys = [
        press(KeyCode::Char('k')),
        press(KeyCode::Char('y')),
        press(KeyCode::Char('y')),
        press(KeyCode::Char('/')),
        press(KeyCode::Char('d')),
        press(KeyCode::Char('B')),
        press(KeyCode::Up),
        press(KeyCode::Backspace),
        press(KeyCode::Char('x')),
        press(KeyCode::Down),
        press(KeyCode::Enter),
        press(KeyCode::Char('j')),
        press(KeyCode::Char('a')),
        press(KeyCode::Char('q')),
        press(KeyCode::Esc),
        press(KeyCode::Char('R')),
        press(KeyCode::Char('e')),
    ];
    for key in keys {
        app.handle_key(key);
        check_consistent(&app);
    }
    app.finish_edit("/db", EditOutcome::Stored("v".to_string()));
    check_consistent(&app);
    app.apply_value_update(&ValueFetchResult { name: "/app/DB".to_string(), value: Ok("x".to_string()) });
    check_consistent(&app);
}

#[test]
fn edit_steps_store_only_changes() {
    let mut app = app_of(vec![param("/a", None)]);
    assert_eq!(app.begin_edit("/a", Ok("cur".to_string())), Some("cur".to_string()));
    assert_eq!(app.all_parameters[0].value.as_deref(), Some("cur"));
    assert_eq!(app.begin_edit("/a", Err("denied".to_string())), None);
    assert_eq!(app.status, "Fetch before edit failed: denied");
    assert!(matches!(after_editor(Ok(Some("new".to_string()))), EditStep::Store(t) if t == "new"));
    assert!(matches!(after_editor(Ok(None)), EditStep::Finish(EditOutcome::Unchanged)));
    assert!(matches!(
        after_editor(Err("vi died".to_string())),
        EditStep::Finish(EditOutcome::EditorFailed(e)) if e == "vi died"
    ));
    assert!(matches!(after_store("new".to_string(), Ok(())), EditOutcome::Stored(t) if t == "new"));
    assert!(matches!(
        after_store("new".to_string(), Err("throttled".to_string())),
        EditOutcome::StoreFailed(e) if e == "throttled"
    ));
}
