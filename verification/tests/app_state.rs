use std::sync::mpsc;

use ssmtui::app::{App, CreateRequest, Startup, configured_region, startup_region};
use ssmtui::models::{
    CreateField, FullRefreshResult, Parameter, ParameterMeta, Polled, ValueEditorMode,
    RequestSender, ValueFetchResult, ValueWorkerPool,
};

fn param(name: &str, value: Option<&str>) -> Parameter {
    Parameter {
        name: name.to_string(),
        value: value.map(|v| v.to_string()),
        meta: ParameterMeta::default(),
    }
}

fn app_without_workers(params: Vec<Parameter>) -> App {
    let n = params.len();
    let loaded: Startup = Ok((params, n, 1, Err("no workers".to_string())));
    App::new("eu-west-1".to_string(), loaded)
}

struct Workers {
    requests: mpsc::Receiver<String>,
    responses: mpsc::Sender<ValueFetchResult>,
}

fn app_with_workers(params: Vec<Parameter>) -> (App, Workers) {
    let (request_tx, request_rx) = mpsc::channel::<String>();
    let (response_tx, response_rx) = mpsc::channel::<ValueFetchResult>();
    let pool = ValueWorkerPool { request_tx: RequestSender::new(request_tx), response_rx };
    let n = params.len();
    let loaded: Startup = Ok((params, n, 1, Ok(pool)));
    let app = App::new("eu-west-1".to_string(), loaded);
    (app, Workers { requests: request_rx, responses: response_tx })
}

fn sent(workers: &Workers) -> Vec<String> {
    workers.requests.try_iter().collect()
}

fn names(app: &App) -> Vec<String> {
    app.filtered_indices
        .iter()
        .map(|i| app.all_parameters[*i].name.clone())
        .collect()
}

#[test]
fn new_with_workers_reports_counts_and_region() {
    let (app, _w) = app_with_workers(vec![param("/a", None), param("/b", None)]);
    assert_eq!(
        app.status,
        "Loaded 2 parameter names from region eu-west-1. Lazy value loading with 1 workers"
    );
    assert_eq!(app.filtered_indices, vec![0, 1]);
    assert_eq!(app.selected, 0);
    assert!(app.value_pool.is_some());
    assert!(!app.search_mode);
    assert!(!app.create_mode);
    assert!(app.create_field == CreateField::Name);
    assert!(app.create_value_mode == ValueEditorMode::Insert);
    assert_eq!(app.aws_region, "eu-west-1");
}

#[test]
fn new_without_workers_keeps_names() {
    let app = app_without_workers(vec![param("/a", None), param("/b", None)]);
    assert_eq!(
        app.status,
        "Loaded 2 names but lazy value workers failed: no workers. Values unavailable"
    );
    assert_eq!(app.all_parameters.len(), 2);
    assert!(app.value_pool.is_none());
}

#[test]
fn new_after_failed_load_is_empty() {
    let loaded: Startup = Err("boom".to_string());
    let app = App::new("default-chain".to_string(), loaded);
    assert_eq!(app.status, "SSM load failed (boom).");
    assert!(app.all_parameters.is_empty());
    assert!(app.filtered_indices.is_empty());
    assert!(app.selected_parameter().is_none());
}

#[test]
fn next_and_previous_wrap_around() {
    let mut app = app_without_workers(vec![param("/a", None), param("/b", None), param("/c", None)]);
    app.next();
    assert_eq!(app.selected, 1);
    app.next();
    app.next();
    assert_eq!(app.selected, 0);
    app.previous();
    assert_eq!(app.selected, 2);
    app.previous();
    assert_eq!(app.selected, 1);
}

#[test]
fn next_and_previous_on_empty_list_do_nothing() {
    let mut app = app_without_workers(vec![]);
    app.next();
    app.previous();
    assert_eq!(app.selected, 0);
}

#[test]
fn law_next_then_previous_returns() {
    let mut app = app_without_workers(vec![param("/a", None), param("/b", None), param("/c", None)]);
    for start in 0..3 {
        app.selected = start;
        app.next();
        app.previous();
        assert_eq!(app.selected, start);
    }
}

#[test]
fn filter_is_case_insensitive_substring() {
    let mut app = app_without_workers(vec![
        param("/app/DB/host", None),
        param("/app/web/port", None),
        param("/other/db", None),
    ]);
    app.start_search();
    assert!(app.search_mode);
    app.query = "db".to_string();
    app.apply_filter();
    assert_eq!(names(&app), vec!["/app/DB/host", "/other/db"]);
    app.query = "WEB".to_string();
    app.apply_filter();
    assert_eq!(names(&app), vec!["/app/web/port"]);
    app.query = "zzz".to_string();
    app.apply_filter();
    assert!(app.filtered_indices.is_empty());
}

#[test]
fn law_empty_query_shows_everything() {
    let mut app = app_without_workers(vec![param("/x", None), param("/y", None)]);
    app.query = "x".to_string();
    app.apply_filter();
    assert_eq!(app.filtered_indices, vec![0]);
    app.start_search();
    assert_eq!(app.query, "");
    assert_eq!(app.filtered_indices, vec![0, 1]);
}

#[test]
fn filter_resets_selection_that_falls_off() {
    let mut app = app_without_workers(vec![param("/a", None), param("/b", None), param("/ab", None)]);
    app.selected = 2;
    app.query = "b".to_string();
    app.apply_filter();
    assert_eq!(app.filtered_indices, vec![1, 2]);
    assert_eq!(app.selected, 0);
    app.selected = 1;
    app.query = "a".to_string();
    app.apply_filter();
    assert_eq!(app.selected, 1);
}

#[test]
fn end_search_keeps_the_query() {
    let mut app = app_without_workers(vec![param("/a", None)]);
    app.start_search();
    app.query = "a".to_string();
    app.end_search();
    assert!(!app.search_mode);
    assert_eq!(app.query, "a");
}

#[test]
fn selected_parameter_follows_the_filter() {
    let mut app = app_without_workers(vec![param("/a", None), param("/b", Some("2"))]);
    app.query = "b".to_string();
    app.apply_filter();
    let p = app.selected_parameter().unwrap();
    assert_eq!(p.name, "/b");
    assert_eq!(p.value.as_deref(), Some("2"));
}

#[test]
fn configured_region_owned_trims_and_drops_placeholder() {
    let mut app = app_without_workers(vec![]);
    app.aws_region = "  us-east-1 ".to_string();
    assert_eq!(app.configured_region_owned(), Some("us-east-1".to_string()));
    app.aws_region = "default-chain".to_string();
    assert_eq!(app.configured_region_owned(), None);
    app.aws_region = "   ".to_string();
    assert_eq!(app.configured_region_owned(), None);
}

#[test]
fn configured_region_prefers_aws_region() {
    assert_eq!(configured_region(Some("x".to_string()), Some("y".to_string())), "x");
    assert_eq!(configured_region(None, Some("y".to_string())), "y");
    assert_eq!(configured_region(Some("  ".to_string()), Some("y".to_string())), "default-chain");
    assert_eq!(configured_region(None, None), "default-chain");
    assert_eq!(configured_region(Some(" eu ".to_string()), None), " eu ");
}

#[test]
fn startup_region_skips_placeholder() {
    assert_eq!(startup_region("default-chain"), None);
    assert_eq!(startup_region("eu-west-1"), Some("eu-west-1".to_string()));
}

#[test]
fn set_value_updates_first_parameter_of_that_name() {
    let mut app = app_without_workers(vec![param("/a", None), param("/a", None), param("/b", None)]);
    app.set_value_for_name("/a", "v".to_string());
    assert_eq!(app.all_parameters[0].value.as_deref(), Some("v"));
    assert_eq!(app.all_parameters[1].value, None);
    app.set_value_for_name("/missing", "w".to_string());
    assert_eq!(app.all_parameters[2].value, None);
}

#[test]
fn create_popup_open_switch_cancel() {
    let mut app = app_without_workers(vec![]);
    app.search_mode = true;
    app.create_name = "old".to_string();
    app.create_name_cursor = 3;
    app.start_create();
    assert!(app.create_mode);
    assert!(!app.search_mode);
    assert_eq!(app.create_name, "");
    assert_eq!(app.create_name_cursor, 0);
    assert_eq!(app.status, "Create parameter popup opened");
    app.create_value_mode = ValueEditorMode::Normal;
    app.switch_create_field();
    assert!(app.create_field == CreateField::Value);
    assert!(app.create_value_mode == ValueEditorMode::Insert);
    app.switch_create_field();
    assert!(app.create_field == CreateField::Name);
    app.cancel_create();
    assert!(!app.create_mode);
    assert_eq!(app.status, "Create parameter cancelled");
}

#[test]
fn law_switching_field_twice_returns_to_the_field() {
    let mut app = app_without_workers(vec![]);
    app.start_create();
    app.switch_create_field();
    app.switch_create_field();
    assert!(app.create_field == CreateField::Name);
}

#[test]
fn submit_create_rejects_blank_name() {
    let mut app = app_without_workers(vec![]);
    app.start_create();
    app.create_name = "   ".to_string();
    assert!(app.submit_create().is_none());
    assert_eq!(app.status, "Create failed: parameter name cannot be empty");
    assert!(app.create_mode);
}

#[test]
fn submit_create_trims_the_name() {
    let mut app = app_without_workers(vec![]);
    app.start_create();
    app.create_name = "  /svc/key ".to_string();
    app.create_value = "v1\nv2".to_string();
    let req = app.submit_create().unwrap();
    assert_eq!(req.name, "/svc/key");
    assert_eq!(req.value, "v1\nv2");
}

#[test]
fn finish_create_adds_and_selects_the_new_parameter() {
    let mut app = app_without_workers(vec![param("/a", None), param("/c", None)]);
    app.start_create();
    app.query = "c".to_string();
    app.apply_filter();
    let request = CreateRequest { name: "/b".to_string(), value: "bee".to_string() };
    app.finish_create(request, Ok(1), 1_700_000_000);
    assert!(!app.create_mode);
    assert_eq!(app.status, "Created parameter /b in SSM and local state");
    assert_eq!(app.query, "");
    assert_eq!(app.filtered_indices, vec![0, 1, 2]);
    let p = app.selected_parameter().unwrap();
    assert_eq!(p.name, "/b");
    assert_eq!(p.value.as_deref(), Some("bee"));
    assert_eq!(p.meta.param_type.as_deref(), Some("String"));
    assert_eq!(p.meta.version, Some(1));
    assert_eq!(p.meta.tier.as_deref(), Some("Standard"));
    assert_eq!(p.meta.data_type.as_deref(), Some("text"));
    assert_eq!(p.meta.last_modified_epoch, Some(1_700_000_000));
    assert_eq!(p.meta.key_id, None);
}

#[test]
fn finish_create_updates_an_existing_parameter() {
    let mut existing = param("/a", Some("old"));
    existing.meta.key_id = Some("key".to_string());
    existing.meta.description = Some("desc".to_string());
    let mut app = app_without_workers(vec![param("/z", None), existing]);
    app.start_create();
    let request = CreateRequest { name: "/a".to_string(), value: "new".to_string() };
    app.finish_create(request, Ok(7), 5);
    assert_eq!(app.all_parameters.len(), 2);
    assert_eq!(app.selected, 1);
    let p = &app.all_parameters[1];
    assert_eq!(p.value.as_deref(), Some("new"));
    assert_eq!(p.meta.version, Some(7));
    assert_eq!(p.meta.last_modified_epoch, Some(5));
    assert_eq!(p.meta.key_id.as_deref(), Some("key"));
    assert_eq!(p.meta.description.as_deref(), Some("desc"));
}

#[test]
fn finish_create_reports_store_failure() {
    let mut app = app_without_workers(vec![]);
    app.start_create();
    let request = CreateRequest { name: "/a".to_string(), value: "v".to_string() };
    app.finish_create(request, Err("denied".to_string()), 0);
    assert_eq!(app.status, "Create failed in SSM: denied");
    assert!(app.create_mode);
    assert!(app.all_parameters.is_empty());
}

#[test]
fn request_value_sends_once_and_marks_pending() {
    let (mut app, workers) = app_with_workers(vec![param("/a", None), param("/b", Some("x"))]);
    app.request_value_for_name("/a");
    assert!(app.is_value_pending("/a"));
    assert_eq!(sent(&workers), vec!["/a".to_string()]);
    app.request_value_for_name("/a");
    assert!(sent(&workers).is_empty());
    assert_eq!(app.pending_value_requests, vec!["/a".to_string()]);
}

#[test]
fn request_value_skips_loaded_values() {
    let (mut app, workers) = app_with_workers(vec![param("/b", Some("x"))]);
    app.request_value_for_name("/b");
    assert!(!app.is_value_pending("/b"));
    assert!(sent(&workers).is_empty());
}

#[test]
fn request_value_without_workers_does_nothing() {
    let mut app = app_without_workers(vec![param("/a", None)]);
    app.request_value_for_name("/a");
    assert!(!app.is_value_pending("/a"));
}

#[test]
fn request_value_to_vanished_workers_is_not_pending() {
    let (mut app, workers) = app_with_workers(vec![param("/a", None)]);
    drop(workers);
    app.request_value_for_name("/a");
    assert!(!app.is_value_pending("/a"));
}

#[test]
fn value_update_sets_value_and_clears_pending() {
    let (mut app, _workers) = app_with_workers(vec![param("/a", None), param("/b", None)]);
    app.request_value_for_name("/a");
    app.request_value_for_name("/b");
    app.apply_value_update(&ValueFetchResult { name: "/a".to_string(), value: Ok("1".to_string()) });
    assert_eq!(app.all_parameters[0].value.as_deref(), Some("1"));
    assert!(!app.is_value_pending("/a"));
    assert!(app.is_value_pending("/b"));
}

#[test]
fn value_update_error_is_shown_as_value() {
    let mut app = app_without_workers(vec![param("/a", None)]);
    app.apply_value_update(&ValueFetchResult { name: "/a".to_string(), value: Err("nope".to_string()) });
    assert_eq!(app.all_parameters[0].value.as_deref(), Some("<error: nope>"));
}

#[test]
fn pump_applies_every_delivered_value() {
    let (mut app, workers) = app_with_workers(vec![param("/a", None), param("/b", None)]);
    app.request_value_for_name("/a");
    app.request_value_for_name("/b");
    workers
        .responses
        .send(ValueFetchResult { name: "/b".to_string(), value: Ok("bee".to_string()) })
        .unwrap();
    workers
        .responses
        .send(ValueFetchResult { name: "/a".to_string(), value: Err("x".to_string()) })
        .unwrap();
    app.pump_value_updates();
    assert_eq!(app.all_parameters[0].value.as_deref(), Some("<error: x>"));
    assert_eq!(app.all_parameters[1].value.as_deref(), Some("bee"));
    assert!(app.pending_value_requests.is_empty());
    app.pump_value_updates();
    assert_eq!(app.all_parameters[1].value.as_deref(), Some("bee"));
}

#[test]
fn pump_without_workers_changes_nothing() {
    let mut app = app_without_workers(vec![param("/a", None)]);
    app.pump_value_updates();
    assert_eq!(app.all_parameters[0].value, None);
}

#[test]
fn prefetch_requests_four_around_the_selection() {
    let params: Vec<Parameter> = (0..12).map(|i| param(&format!("/p{i:02}"), None)).collect();
    let (mut app, workers) = app_with_workers(params);
    app.prefetch_near_selected();
    assert_eq!(sent(&workers), vec!["/p00", "/p01", "/p02", "/p03", "/p04"]);
    app.selected = 6;
    app.prefetch_near_selected();
    assert_eq!(sent(&workers), vec!["/p05", "/p06", "/p07", "/p08", "/p09", "/p10"]);
    app.selected = 11;
    app.prefetch_near_selected();
    assert_eq!(sent(&workers), vec!["/p11"]);
}

#[test]
fn prefetch_skips_loaded_values() {
    let params = vec![param("/a", Some("1")), param("/b", None), param("/c", Some("3"))];
    let (mut app, workers) = app_with_workers(params);
    app.prefetch_near_selected();
    assert_eq!(sent(&workers), vec!["/b"]);
}

#[test]
fn start_full_refresh_only_once() {
    let mut app = app_without_workers(vec![]);
    assert!(app.start_full_refresh());
    assert_eq!(app.status, "Refreshing all parameters and values in background...");
    let (_tx, rx) = mpsc::channel::<Result<FullRefreshResult, String>>();
    app.full_refresh_rx = Some(rx);
    assert!(!app.start_full_refresh());
    assert_eq!(app.status, "Full refresh is already running");
}

#[test]
fn full_refresh_replaces_list_and_keeps_selected_name() {
    let (mut app, _workers) = app_with_workers(vec![param("/a", None), param("/b", None)]);
    app.selected = 1;
    app.request_value_for_name("/a");
    let done = FullRefreshResult {
        parameters: vec![param("/0", Some("z")), param("/a", Some("1")), param("/b", Some("2"))],
        count: 3,
        thread_count: 1,
    };
    let workers = app.apply_full_refresh(Ok(done));
    assert_eq!(workers, Some(1));
    assert_eq!(app.all_parameters.len(), 3);
    assert!(app.pending_value_requests.is_empty());
    assert!(app.value_pool.is_none());
    assert_eq!(app.selected, 2);
    assert_eq!(app.selected_parameter().unwrap().name, "/b");
    assert_eq!(app.status, "Refreshed 3 parameters with values using 1 workers");
}

#[test]
fn failed_full_refresh_keeps_the_list() {
    let mut app = app_without_workers(vec![param("/a", None)]);
    assert_eq!(app.apply_full_refresh(Err("timeout".to_string())), None);
    assert_eq!(app.status, "Refresh failed: timeout");
    assert_eq!(app.all_parameters.len(), 1);
}

#[test]
fn pump_full_refresh_waits_applies_and_detects_disconnect() {
    let mut app = app_without_workers(vec![param("/a", None)]);
    assert_eq!(app.pump_full_refresh_updates(), None);

    let (tx, rx) = mpsc::channel::<Result<FullRefreshResult, String>>();
    app.full_refresh_rx = Some(rx);
    assert_eq!(app.pump_full_refresh_updates(), None);
    assert!(app.full_refresh_rx.is_some());

    let done = FullRefreshResult { parameters: vec![param("/n", None)], count: 1, thread_count: 1 };
    tx.send(Ok(done)).unwrap();
    assert_eq!(app.pump_full_refresh_updates(), Some(1));
    assert!(app.full_refresh_rx.is_none());
    assert_eq!(app.all_parameters[0].name, "/n");

    let (tx2, rx2) = mpsc::channel::<Result<FullRefreshResult, String>>();
    app.full_refresh_rx = Some(rx2);
    drop(tx2);
    assert_eq!(app.pump_full_refresh_updates(), None);
    assert!(app.full_refresh_rx.is_none());
    assert_eq!(app.status, "Refresh failed: refresh worker disconnected");
    drop(tx);
}

#[test]
fn law_requesting_twice_sends_once() {
    let (mut app, workers) = app_with_workers(vec![param("/a", None)]);
    app.request_value_for_name("/a");
    app.request_value_for_name("/a");
    assert_eq!(sent(&workers), vec!["/a".to_string()]);
    assert_eq!(app.pending_value_requests, vec!["/a".to_string()]);
}

#[test]
fn polled_refresh_outcomes() {
    let mut app = app_without_workers(vec![param("/a", None)]);
    let (_tx, rx) = mpsc::channel::<Result<FullRefreshResult, String>>();
    app.full_refresh_rx = Some(rx);
    assert_eq!(app.apply_polled_refresh(Polled::Empty), None);
    assert!(app.full_refresh_rx.is_some());
    assert_eq!(app.apply_polled_refresh(Polled::Disconnected), None);
    assert!(app.full_refresh_rx.is_none());
    assert_eq!(app.status, "Refresh failed: refresh worker disconnected");
    let done = FullRefreshResult { parameters: vec![param("/z", None)], count: 1, thread_count: 1 };
    assert_eq!(app.apply_polled_refresh(Polled::Ready(Ok(done))), Some(1));
    assert_eq!(app.all_parameters[0].name, "/z");
}

#[test]
fn value_updates_apply_in_order() {
    let mut app = app_without_workers(vec![param("/a", None), param("/b", None)]);
    app.apply_value_updates(vec![
        ValueFetchResult { name: "/a".to_string(), value: Ok("1".to_string()) },
        ValueFetchResult { name: "/a".to_string(), value: Ok("2".to_string()) },
        ValueFetchResult { name: "/b".to_string(), value: Err("e".to_string()) },
    ]);
    assert_eq!(app.all_parameters[0].value.as_deref(), Some("2"));
    assert_eq!(app.all_parameters[1].value.as_deref(), Some("<error: e>"));
}

#[test]
fn law_request_pending_follows_the_send() {
    let (mut app, workers) = app_with_workers(vec![param("/a", None), param("/b", None)]);
    drop(workers);
    app.request_value_for_name("/a");
    assert!(!app.is_value_pending("/a"));
    app.request_value_for_name("/a");
    assert!(!app.is_value_pending("/a"));
    assert!(app.pending_value_requests.is_empty());
}

#[test]
fn empty_list_tolerates_any_selection() {
    let (mut app, _workers) = app_with_workers(vec![]);
    app.selected = usize::MAX;
    app.next();
    app.prefetch_near_selected();
    assert_eq!(app.selected, usize::MAX);
}
