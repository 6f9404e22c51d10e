//! The application state: the parameter list with its filter and selection,
//! the create popup, and the bookkeeping of background value loading.
//!
//! Every operation is specified as a function on `AppView`, the mathematical
//! picture of the state; the module `laws` relates them.
use std::sync::mpsc::Receiver;
use vstd::prelude::*;
use crate::models;
use crate::models::{
    CreateField, FullRefreshResult, MetaView, Parameter, ParameterMeta, ParameterView,
    ValueEditorMode, ValueWorkerPool,
};
use crate::strings;
use crate::strings::{chars_of, concat, concat3, contains_chars, lower_chars, same_text, trim};

verus! {

pub struct App {
    pub selected: usize,
    pub all_parameters: Vec<Parameter>,
    pub filtered_indices: Vec<usize>,
    pub search_mode: bool,
    pub query: String,
    pub status: String,
    pub aws_region: String,
    pub create_mode: bool,
    pub create_name: String,
    pub create_value: String,
    pub create_field: CreateField,
    pub create_name_cursor: usize,
    pub create_value_cursor: usize,
    pub create_value_mode: ValueEditorMode,
    pub value_pool: Option<ValueWorkerPool>,
    /// Names whose values were requested and have not arrived; no name occurs twice.
    pub pending_value_requests: Vec<String>,
    pub full_refresh_rx: Option<Receiver<Result<FullRefreshResult, String>>>,
}

/// The state of an `App` as mathematical values.
#[verifier::ext_equal]
pub struct AppView {
    pub selected: usize,
    pub params: Seq<ParameterView>,
    pub filtered: Seq<usize>,
    pub search_mode: bool,
    pub query: Seq<char>,
    pub status: Seq<char>,
    pub region: Seq<char>,
    pub create_mode: bool,
    pub create_name: Seq<char>,
    pub create_value: Seq<char>,
    pub create_field: CreateField,
    pub name_cursor: usize,
    pub value_cursor: usize,
    pub value_mode: ValueEditorMode,
    /// The names handed to the value workers so far, when there are workers.
    pub pool: Option<Seq<Seq<char>>>,
    pub pending: Seq<Seq<char>>,
    pub refresh_rx: Option<Receiver<Result<FullRefreshResult, String>>>,
}

/// The characters of each string of a list.
pub open spec fn texts(v: Seq<String>) -> Seq<Seq<char>> {
    v.map_values(|s: String| s@)
}

impl View for App {
    type V = AppView;

    open spec fn view(&self) -> AppView {
        AppView {
            selected: self.selected,
            params: models::params_view(self.all_parameters@),
            filtered: self.filtered_indices@,
            search_mode: self.search_mode,
            query: self.query@,
            status: self.status@,
            region: self.aws_region@,
            create_mode: self.create_mode,
            create_name: self.create_name@,
            create_value: self.create_value@,
            create_field: self.create_field,
            name_cursor: self.create_name_cursor,
            value_cursor: self.create_value_cursor,
            value_mode: self.create_value_mode,
            pool: models::pool_view(self.value_pool),
            pending: texts(self.pending_value_requests@),
            refresh_rx: self.full_refresh_rx,
        }
    }
}

// ---------------------------------------------------------------------------
// Selection and filtering
// ---------------------------------------------------------------------------
/// Selection moves down, wrapping from the last entry to the first.
pub open spec fn next_view(v: AppView) -> AppView {
    if v.filtered.len() == 0 {
        v
    } else {
        AppView { selected: ((v.selected + 1) % (v.filtered.len() as int)) as usize, ..v }
    }
}

/// Selection moves up, wrapping from the first entry to the last.
pub open spec fn previous_view(v: AppView) -> AppView {
    if v.filtered.len() == 0 {
        v
    } else if v.selected == 0 {
        AppView { selected: (v.filtered.len() - 1) as usize, ..v }
    } else {
        AppView { selected: (v.selected - 1) as usize, ..v }
    }
}

/// Whether a parameter name is shown for a lower-cased search needle: an empty
/// needle shows everything, otherwise the lower-cased name must contain it.
pub open spec fn name_matches(name: Seq<char>, needle: Seq<char>) -> bool {
    needle.len() == 0 || strings::contains(strings::ascii_lower(name), needle)
}

/// Indices, in increasing order, of the first `k` parameters whose names match `needle`.
pub open spec fn filter_of(params: Seq<ParameterView>, needle: Seq<char>, k: int) -> Seq<usize>
    decreases k,
{
    if k <= 0 {
        Seq::empty()
    } else if name_matches(params[k - 1].name, needle) {
        filter_of(params, needle, k - 1).push((k - 1) as usize)
    } else {
        filter_of(params, needle, k - 1)
    }
}

/// The indices that the current query shows.
pub open spec fn filtered_for(params: Seq<ParameterView>, query: Seq<char>) -> Seq<usize> {
    filter_of(params, strings::ascii_lower(query), params.len() as int)
}

/// Recomputes the shown indices; a selection past their end goes back to the first entry.
pub open spec fn apply_filter_view(v: AppView) -> AppView {
    let f = filtered_for(v.params, v.query);
    AppView {
        filtered: f,
        selected: if v.selected >= f.len() {
            0
        } else {
            v.selected
        },
        ..v
    }
}

pub open spec fn start_search_view(v: AppView) -> AppView {
    apply_filter_view(AppView { search_mode: true, query: Seq::empty(), ..v })
}

pub open spec fn end_search_view(v: AppView) -> AppView {
    AppView { search_mode: false, ..v }
}

/// Index into `params` of the selected entry, when the selection points at one.
pub open spec fn selected_index(v: AppView) -> Option<int> {
    if v.selected < v.filtered.len() && v.filtered[v.selected as int] < v.params.len() {
        Some(v.filtered[v.selected as int] as int)
    } else {
        None
    }
}

/// Every shown index points at a parameter.
pub open spec fn indices_valid(v: AppView) -> bool {
    forall|i: int| 0 <= i < v.filtered.len() ==> #[trigger] v.filtered[i] < v.params.len()
}

/// The region to pass to the store: the trimmed configured region, unless it
/// is empty or the placeholder for the default provider chain.
pub open spec fn region_override(region: Seq<char>) -> Option<Seq<char>> {
    let t = strings::trimmed(region);
    if t.len() == 0 || t == "default-chain"@ {
        None
    } else {
        Some(t)
    }
}

/// Index of the first parameter at or after `i` named `name`.
pub open spec fn find_named(params: Seq<ParameterView>, name: Seq<char>, i: int) -> Option<int>
    decreases params.len() - i,
{
    if i < 0 || i >= params.len() {
        None
    } else if params[i].name == name {
        Some(i)
    } else {
        find_named(params, name, i + 1)
    }
}

/// Index of the first parameter named `name`.
pub open spec fn first_named(params: Seq<ParameterView>, name: Seq<char>) -> Option<int> {
    find_named(params, name, 0)
}

/// The first parameter named `name` gets the value `value`.
pub open spec fn set_value_view(v: AppView, name: Seq<char>, value: Seq<char>) -> AppView {
    match first_named(v.params, name) {
        Some(i) => AppView {
            params: v.params.update(i, ParameterView { value: Some(value), ..v.params[i] }),
            ..v
        },
        None => v,
    }
}

// ---------------------------------------------------------------------------
// The create popup
// ---------------------------------------------------------------------------
pub open spec fn start_create_view(v: AppView) -> AppView {
    AppView {
        create_mode: true,
        search_mode: false,
        create_name: Seq::empty(),
        create_value: Seq::empty(),
        create_field: CreateField::Name,
        name_cursor: 0,
        value_cursor: 0,
        value_mode: ValueEditorMode::Insert,
        status: "Create parameter popup opened"@,
        ..v
    }
}

pub open spec fn cancel_create_view(v: AppView) -> AppView {
    AppView { create_mode: false, status: "Create parameter cancelled"@, ..v }
}

/// Focus moves to the other field; the value field always starts in insert mode.
pub open spec fn switch_create_field_view(v: AppView) -> AppView {
    match v.create_field {
        CreateField::Name => AppView {
            create_field: CreateField::Value,
            value_mode: ValueEditorMode::Insert,
            ..v
        },
        CreateField::Value => AppView { create_field: CreateField::Name, ..v },
    }
}

/// A request to create a parameter in the store.
pub struct CreateRequest {
    pub name: String,
    pub value: String,
}

/// Submitting the popup: an empty (trimmed) name is refused with a status
/// message; otherwise the trimmed name and the value are to be created.
pub open spec fn submit_create_view(v: AppView) -> (AppView, Option<(Seq<char>, Seq<char>)>) {
    let name = strings::trimmed(v.create_name);
    if name.len() == 0 {
        (AppView { status: "Create failed: parameter name cannot be empty"@, ..v }, None)
    } else {
        (v, Some((name, v.create_value)))
    }
}

/// Position, at or after `p`, of the first shown entry named `name`.
pub open spec fn position_named(
    params: Seq<ParameterView>,
    filtered: Seq<usize>,
    name: Seq<char>,
    p: int,
) -> Option<int>
    decreases filtered.len() - p,
{
    if p < 0 || p >= filtered.len() {
        None
    } else if params[filtered[p] as int].name == name {
        Some(p)
    } else {
        position_named(params, filtered, name, p + 1)
    }
}

/// Selects the first shown entry named `name`, if there is one.
pub open spec fn select_named_view(w: AppView, name: Seq<char>) -> AppView {
    match position_named(w.params, w.filtered, name, 0) {
        Some(p) => AppView { selected: p as usize, ..w },
        None => w,
    }
}

/// Metadata that a created parameter carries: a `String` of tier `Standard`
/// holding text, at the version the store reported, modified at `now`.
pub open spec fn created_meta(m: MetaView, version: i64, now: i64) -> MetaView {
    MetaView {
        param_type: Some("String"@),
        version: Some(version),
        tier: Some("Standard"@),
        data_type: Some("text"@),
        last_modified_epoch: Some(now),
        ..m
    }
}

/// The parameter list after `name` was created with `value`: an existing
/// parameter of that name is updated, otherwise a new one is appended.
pub open spec fn params_after_create(
    params: Seq<ParameterView>,
    name: Seq<char>,
    value: Seq<char>,
    version: i64,
    now: i64,
) -> Seq<ParameterView> {
    match first_named(params, name) {
        Some(i) => params.update(
            i,
            ParameterView {
                value: Some(value),
                meta: created_meta(params[i].meta, version, now),
                ..params[i]
            },
        ),
        None => params.push(
            ParameterView {
                name,
                value: Some(value),
                meta: created_meta(models::empty_meta(), version, now),
            },
        ),
    }
}

/// The state after the store answered a create request.
pub open spec fn finish_create_view(
    v: AppView,
    name: Seq<char>,
    value: Seq<char>,
    outcome: Result<i64, Seq<char>>,
    now: i64,
) -> AppView {
    match outcome {
        Err(e) => AppView { status: "Create failed in SSM: "@ + e, ..v },
        Ok(version) => {
            let params = params_after_create(v.params, name, value, version, now);
            let w = apply_filter_view(AppView { params, query: Seq::empty(), ..v });
            AppView {
                create_mode: false,
                status: "Created parameter "@ + name + " in SSM and local state"@,
                ..select_named_view(w, name)
            }
        },
    }
}

/// Whether the first parameter named `name` has its value loaded.
pub open spec fn has_loaded_value(params: Seq<ParameterView>, name: Seq<char>) -> bool {
    match first_named(params, name) {
        Some(i) => params[i].value is Some,
        None => false,
    }
}

/// Requesting a value: nothing happens when it is already pending, already
/// loaded, or there are no workers; otherwise the name is handed to the
/// workers' request channel (and so joins the names the pool was handed) and,
/// if the send went through (`sent`), is recorded as pending.
pub open spec fn request_value_view(v: AppView, name: Seq<char>, sent: bool) -> AppView {
    if v.pending.contains(name) || has_loaded_value(v.params, name) {
        v
    } else {
        match v.pool {
            None => v,
            Some(handed) => AppView {
                pool: Some(handed.push(name)),
                pending: if sent {
                    v.pending.push(name)
                } else {
                    v.pending
                },
                ..v
            },
        }
    }
}

/// Requests for `names` one after another, with the send outcomes `sent`.
pub open spec fn requests_view(v: AppView, names: Seq<Seq<char>>, sent: Seq<bool>) -> AppView
    decreases names.len(),
{
    if names.len() == 0 || sent.len() != names.len() {
        v
    } else {
        request_value_view(
            requests_view(v, names.drop_last(), sent.drop_last()),
            names.last(),
            sent.last(),
        )
    }
}

/// `s` with every occurrence of `x` removed.
pub open spec fn without(s: Seq<Seq<char>>, x: Seq<char>) -> Seq<Seq<char>>
    decreases s.len(),
{
    if s.len() == 0 {
        s
    } else if s.last() == x {
        without(s.drop_last(), x)
    } else {
        without(s.drop_last(), x).push(s.last())
    }
}

/// The text stored for a fetched value: the value itself, or the error wrapped
/// as `<error: ...>`.
pub open spec fn fetched_text(r: Result<String, String>) -> Seq<char> {
    match r {
        Ok(s) => s@,
        Err(e) => "<error: "@ + e@ + ">"@,
    }
}

/// A fetched value arrives: its name is no longer pending, and the first
/// parameter of that name gets the value (or the error text).
pub open spec fn value_update_view(v: AppView, u: models::ValueFetchResult) -> AppView {
    set_value_view(AppView { pending: without(v.pending, u.name@), ..v }, u.name@, fetched_text(u.value))
}

/// Several fetched values arriving in order.
pub open spec fn value_updates_view(v: AppView, ups: Seq<models::ValueFetchResult>) -> AppView
    decreases ups.len(),
{
    if ups.len() == 0 {
        v
    } else {
        value_update_view(value_updates_view(v, ups.drop_last()), ups.last())
    }
}

/// Names of the shown entries at positions `lo..hi` whose values are not loaded.
pub open spec fn window_names(v: AppView, lo: int, hi: int) -> Seq<Seq<char>>
    decreases hi - lo,
{
    if hi <= lo {
        Seq::empty()
    } else {
        let r = window_names(v, lo, hi - 1);
        let p = v.params[v.filtered[hi - 1] as int];
        if p.value is None {
            r.push(p.name)
        } else {
            r
        }
    }
}

/// First shown position that prefetching looks at: four above the selection.
pub open spec fn prefetch_start(v: AppView) -> int {
    if v.selected >= 4 {
        v.selected - 4
    } else {
        0
    }
}

/// One past the last shown position that prefetching looks at: four below the
/// selection, within the list.
pub open spec fn prefetch_end(v: AppView) -> int {
    if v.selected + 4 < v.filtered.len() - 1 {
        v.selected + 5
    } else {
        v.filtered.len() as int
    }
}

/// Names that prefetching requests, in order.
pub open spec fn prefetch_names(v: AppView) -> Seq<Seq<char>> {
    if v.filtered.len() == 0 {
        Seq::empty()
    } else {
        window_names(v, prefetch_start(v), prefetch_end(v))
    }
}

/// Starting a full refresh: refused while one runs; otherwise the caller is
/// to start it (`true`).
pub open spec fn start_full_refresh_view(v: AppView) -> (AppView, bool) {
    if v.refresh_rx is Some {
        (AppView { status: "Full refresh is already running"@, ..v }, false)
    } else {
        (AppView { status: "Refreshing all parameters and values in background..."@, ..v }, true)
    }
}

/// The state once the receiver of a finished refresh is dropped.
pub open spec fn detached(v: AppView) -> AppView {
    AppView { refresh_rx: None, ..v }
}

/// The outcome of a full refresh applied to the state; `Some(n)` asks the
/// caller to start `n` value workers.
pub open spec fn refresh_view(v: AppView, result: Result<FullRefreshResult, String>) -> (
    AppView,
    Option<usize>,
) {
    match result {
        Ok(done) => {
            let w = apply_filter_view(
                AppView {
                    params: models::params_view(done.parameters@),
                    pending: Seq::empty(),
                    pool: None,
                    ..v
                },
            );
            let w2 = match selected_index(v) {
                Some(i) => select_named_view(w, v.params[i].name),
                None => w,
            };
            (
                AppView {
                    status: "Refreshed "@ + strings::decimal(done.count as nat)
                        + " parameters with values using "@ + strings::decimal(
                        done.thread_count as nat,
                    ) + " workers"@,
                    ..w2
                },
                Some(done.thread_count),
            )
        },
        Err(e) => (AppView { status: "Refresh failed: "@ + e@, ..v }, None),
    }
}

/// What one poll of the refresh channel does: nothing yet leaves the state
/// alone; a result is applied, and a vanished worker counts as a failed
/// refresh; either way the receiver is dropped.
pub open spec fn polled_refresh_view(
    v: AppView,
    polled: models::Polled<Result<FullRefreshResult, String>>,
) -> (AppView, Option<usize>) {
    match polled {
        models::Polled::Empty => (v, None),
        models::Polled::Ready(res) => refresh_view(detached(v), res),
        models::Polled::Disconnected => (
            AppView { status: "Refresh failed: "@ + "refresh worker disconnected"@, ..detached(v) },
            None,
        ),
    }
}

/// The configured region: `AWS_REGION`, else `AWS_DEFAULT_REGION`, else empty;
/// blank means the placeholder of the default provider chain.
pub open spec fn configured_region_spec(aws: Option<Seq<char>>, default: Option<Seq<char>>) -> Seq<
    char,
> {
    let raw = match aws {
        Some(r) => r,
        None => match default {
            Some(r) => r,
            None => Seq::empty(),
        },
    };
    if strings::trimmed(raw).len() == 0 {
        "default-chain"@
    } else {
        raw
    }
}

/// The region used at startup: none for the placeholder, else the configured one.
pub open spec fn startup_region_spec(configured: Seq<char>) -> Option<Seq<char>> {
    if configured == "default-chain"@ {
        None
    } else {
        Some(configured)
    }
}

/// What loading at startup delivered: the parameter names (with count and
/// worker count) and the attempt to start the value workers, or an error.
pub type Startup = Result<(Vec<Parameter>, usize, usize, Result<ValueWorkerPool, String>), String>;

/// The state right after startup.
pub open spec fn new_view(region: Seq<char>, loaded: Startup) -> AppView {
    let (params, status, pool) = match loaded {
        Ok((ps, count, workers, Ok(pool))) => (
            models::params_view(ps@),
            "Loaded "@ + strings::decimal(count as nat) + " parameter names from region "@ + region
                + ". Lazy value loading with "@ + strings::decimal(workers as nat) + " workers"@,
            Some(pool.request_tx@),
        ),
        Ok((ps, count, workers, Err(e))) => (
            models::params_view(ps@),
            "Loaded "@ + strings::decimal(count as nat) + " names but lazy value workers failed: "@
                + e@ + ". Values unavailable"@,
            None,
        ),
        Err(e) => (Seq::empty(), "SSM load failed ("@ + e@ + ")."@, None),
    };
    AppView {
        selected: 0,
        params,
        filtered: filtered_for(params, Seq::empty()),
        search_mode: false,
        query: Seq::empty(),
        status,
        region,
        create_mode: false,
        create_name: Seq::empty(),
        create_value: Seq::empty(),
        create_field: CreateField::Name,
        name_cursor: 0,
        value_cursor: 0,
        value_mode: ValueEditorMode::Insert,
        pool,
        pending: Seq::empty(),
        refresh_rx: None,
    }
}

impl App {
    /// Moves the selection down, wrapping around.
    pub fn next(&mut self)
        requires
            old(self)@.filtered.len() > 0 ==> old(self).selected < usize::MAX,
        ensures
            final(self)@ == next_view(old(self)@),
    {
        if self.filtered_indices.len() == 0 {
            return;
        }
        self.selected = (self.selected + 1) % self.filtered_indices.len();
    }

    /// Moves the selection up, wrapping around.
    pub fn previous(&mut self)
        ensures
            final(self)@ == previous_view(old(self)@),
    {
        if self.filtered_indices.len() == 0 {
            return;
        }
        if self.selected == 0 {
            self.selected = self.filtered_indices.len() - 1;
        } else {
            self.selected = self.selected - 1;
        }
    }

    /// Enters search mode with an empty query.
    pub fn start_search(&mut self)
        ensures
            final(self)@ == start_search_view(old(self)@),
    {
        self.search_mode = true;
        self.query = String::new();
        self.apply_filter();
    }

    /// Leaves search mode; the query and the filter stay.
    pub fn end_search(&mut self)
        ensures
            final(self)@ == end_search_view(old(self)@),
    {
        self.search_mode = false;
    }

    /// Recomputes which parameters the query shows.
    pub fn apply_filter(&mut self)
        ensures
            final(self)@ == apply_filter_view(old(self)@),
    {
        let needle = lower_chars(&chars_of(self.query.as_str()));
        let ghost params = models::params_view(self.all_parameters@);
        let mut out: Vec<usize> = Vec::new();
        let mut i: usize = 0;
        while i < self.all_parameters.len()
            invariant
                params == models::params_view(self.all_parameters@),
                needle@ == strings::ascii_lower(self.query@),
                i <= self.all_parameters@.len(),
                out@ == filter_of(params, needle@, i as int),
            decreases self.all_parameters@.len() - i,
        {
            let matched = if needle.len() == 0 {
                true
            } else {
                let name = lower_chars(&chars_of(self.all_parameters[i].name.as_str()));
                contains_chars(&name, &needle)
            };
            if matched {
                out.push(i);
            }
            i = i + 1;
        }
        self.filtered_indices = out;
        if self.selected >= self.filtered_indices.len() {
            self.selected = 0;
        }
    }

    /// The selected parameter, if the selection points at one.
    pub fn selected_parameter(&self) -> (r: Option<&Parameter>)
        ensures
            match selected_index(self@) {
                Some(i) => r is Some && r->0@ == self@.params[i],
                None => r is None,
            },
    {
        if self.selected < self.filtered_indices.len() {
            let idx = self.filtered_indices[self.selected];
            if idx < self.all_parameters.len() {
                return Some(&self.all_parameters[idx]);
            }
        }
        None
    }

    /// The region to pass to the store, if one is configured.
    pub fn configured_region_owned(&self) -> (r: Option<String>)
        ensures
            models::opt_text(r) == region_override(self@.region),
    {
        let trimmed = trim(self.aws_region.as_str());
        let placeholder = "default-chain";
        proof {
            reveal_strlit("default-chain");
        }
        if trimmed.as_str().is_empty() || same_text(trimmed.as_str(), placeholder) {
            None
        } else {
            Some(trimmed)
        }
    }

    /// Position in `all_parameters` of the first parameter named `name`.
    fn position_of_name(&self, name: &str) -> (r: Option<usize>)
        ensures
            match r {
                Some(i) => first_named(self@.params, name@) == Some(i as int) && i
                    < self.all_parameters@.len(),
                None => first_named(self@.params, name@) is None,
            },
    {
        let ghost params = self@.params;
        let mut i: usize = 0;
        while i < self.all_parameters.len()
            invariant
                params == self@.params,
                i <= params.len(),
                first_named(params, name@) == find_named(params, name@, i as int),
            decreases params.len() - i,
        {
            if same_text(self.all_parameters[i].name.as_str(), name) {
                return Some(i);
            }
            i = i + 1;
        }
        None
    }

    /// Gives the first parameter named `name` the value `value`.
    pub fn set_value_for_name(&mut self, name: &str, value: String)
        ensures
            final(self)@ == set_value_view(old(self)@, name@, value@),
    {
        match self.position_of_name(name) {
            Some(i) => {
                self.all_parameters[i].value = Some(value);
                proof {
                    let target = set_value_view(old(self)@, name@, value@).params;
                    assert forall|j: int| 0 <= j < target.len() implies #[trigger] self@.params[j]
                        == target[j] by {
                        if j == i {
                            assert(self@.params[j] =~= target[j]);
                        }
                    }
                    assert(self@.params =~= target);
                }
            },
            None => {},
        }
    }

    /// Opens the create popup with empty fields.
    pub fn start_create(&mut self)
        ensures
            final(self)@ == start_create_view(old(self)@),
    {
        self.create_mode = true;
        self.search_mode = false;
        self.create_name = String::new();
        self.create_value = String::new();
        self.create_field = CreateField::Name;
        self.create_name_cursor = 0;
        self.create_value_cursor = 0;
        self.create_value_mode = ValueEditorMode::Insert;
        self.status = String::from_str("Create parameter popup opened");
    }

    /// Closes the create popup.
    pub fn cancel_create(&mut self)
        ensures
            final(self)@ == cancel_create_view(old(self)@),
    {
        self.create_mode = false;
        self.status = String::from_str("Create parameter cancelled");
    }

    /// Moves the focus to the other field of the create popup.
    pub fn switch_create_field(&mut self)
        ensures
            final(self)@ == switch_create_field_view(old(self)@),
    {
        self.create_field = match self.create_field {
            CreateField::Name => CreateField::Value,
            CreateField::Value => CreateField::Name,
        };
        if self.create_field == CreateField::Value {
            self.create_value_mode = ValueEditorMode::Insert;
        }
    }

    /// Position of the first shown entry named `name`.
    fn shown_position_of_name(&self, name: &str) -> (r: Option<usize>)
        requires
            indices_valid(self@),
        ensures
            match position_named(self@.params, self@.filtered, name@, 0) {
                Some(p) => r == Some(p as usize),
                None => r is None,
            },
    {
        let ghost v = self@;
        let mut p: usize = 0;
        while p < self.filtered_indices.len()
            invariant
                self@ == v,
                indices_valid(v),
                p <= v.filtered.len(),
                position_named(v.params, v.filtered, name@, 0) == position_named(
                    v.params,
                    v.filtered,
                    name@,
                    p as int,
                ),
            decreases v.filtered.len() - p,
        {
            let idx = self.filtered_indices[p];
            if same_text(self.all_parameters[idx].name.as_str(), name) {
                assert(v.params[idx as int].name == name@);
                return Some(p);
            }
            p = p + 1;
        }
        None
    }

    /// Selects the first shown entry named `name`, if there is one.
    fn select_named(&mut self, name: &str)
        requires
            indices_valid(old(self)@),
        ensures
            final(self)@ == select_named_view(old(self)@, name@),
    {
        match self.shown_position_of_name(name) {
            Some(p) => {
                self.selected = p;
            },
            None => {},
        }
    }

    /// Validates the popup. An empty (trimmed) name sets an error status;
    /// otherwise the request to send to the store is returned.
    pub fn submit_create(&mut self) -> (req: Option<CreateRequest>)
        ensures
            final(self)@ == submit_create_view(old(self)@).0,
            match submit_create_view(old(self)@).1 {
                Some((n, val)) => req is Some && req->0.name@ == n && req->0.value@ == val,
                None => req is None,
            },
    {
        let name = trim(self.create_name.as_str());
        if name.as_str().is_empty() {
            self.status = String::from_str("Create failed: parameter name cannot be empty");
            return None;
        }
        let value = self.create_value.clone();
        Some(CreateRequest { name, value })
    }

    /// Applies the store's answer to a create request made at time `now_epoch`
    /// (seconds since the epoch): on success the parameter is created or updated
    /// locally, the query is cleared and the parameter selected.
    pub fn finish_create(&mut self, request: CreateRequest, outcome: Result<i64, String>, now_epoch: i64)
        ensures
            final(self)@ == finish_create_view(
                old(self)@,
                request.name@,
                request.value@,
                match outcome {
                    Ok(v) => Ok(v),
                    Err(e) => Err(e@),
                },
                now_epoch,
            ),
    {
        match outcome {
            Err(err) => {
                self.status = concat("Create failed in SSM: ", err.as_str());
            },
            Ok(version) => {
                let ghost v0 = self@;
                match self.position_of_name(request.name.as_str()) {
                    Some(i) => {
                        self.all_parameters[i].value = Some(request.value.clone());
                        self.all_parameters[i].meta.param_type = Some(String::from_str("String"));
                        self.all_parameters[i].meta.version = Some(version);
                        self.all_parameters[i].meta.tier = Some(String::from_str("Standard"));
                        self.all_parameters[i].meta.data_type = Some(String::from_str("text"));
                        self.all_parameters[i].meta.last_modified_epoch = Some(now_epoch);
                        proof {
                            let target = params_after_create(
                                v0.params,
                                request.name@,
                                request.value@,
                                version,
                                now_epoch,
                            );
                            assert forall|j: int| 0 <= j < target.len() implies #[trigger] self@.params[j]
                                == target[j] by {
                                if j == i {
                                    assert(self@.params[j] =~= target[j]);
                                }
                            }
                            assert(self@.params =~= target);
                        }
                    },
                    None => {
                        let meta = ParameterMeta {
                            param_type: Some(String::from_str("String")),
                            version: Some(version),
                            tier: Some(String::from_str("Standard")),
                            data_type: Some(String::from_str("text")),
                            key_id: None,
                            last_modified_epoch: Some(now_epoch),
                            description: None,
                            last_modified_user: None,
                        };
                        self.all_parameters.push(
                            Parameter {
                                name: request.name.clone(),
                                value: Some(request.value.clone()),
                                meta,
                            },
                        );
                        proof {
                            let target = params_after_create(
                                v0.params,
                                request.name@,
                                request.value@,
                                version,
                                now_epoch,
                            );
                            assert(self@.params =~= target);
                        }
                    },
                }
                self.query = String::new();
                self.apply_filter();
                proof {
                    assert(self.all_parameters.len() == self.all_parameters@.len());
                    lemma_apply_filter_valid(
                        AppView {
                            params: self@.params,
                            query: Seq::empty(),
                            ..v0
                        },
                    );
                }
                self.select_named(request.name.as_str());
                self.create_mode = false;
                self.status = concat3(
                    "Created parameter ",
                    request.name.as_str(),
                    " in SSM and local state",
                );
            },
        }
    }

    /// Whether a value for `name` has been requested and not yet arrived.
    pub fn is_value_pending(&self, name: &str) -> (r: bool)
        ensures
            r == self@.pending.contains(name@),
    {
        let mut i: usize = 0;
        while i < self.pending_value_requests.len()
            invariant
                i <= self.pending_value_requests@.len(),
                forall|j: int| 0 <= j < i ==> self@.pending[j] != name@,
            decreases self.pending_value_requests@.len() - i,
        {
            if same_text(self.pending_value_requests[i].as_str(), name) {
                assert(self@.pending[i as int] == name@);
                return true;
            }
            i = i + 1;
        }
        false
    }

    /// Asks the value workers for the value of `name`, unless it is already
    /// pending or loaded, or there are no workers.
    pub fn request_value_for_name(&mut self, name: &str)
        ensures
            crate::laws::no_duplicates(old(self)@.pending) ==> crate::laws::no_duplicates(
                final(self)@.pending,
            ),
            final(self)@.pool == if !old(self)@.pending.contains(name@) && !has_loaded_value(
                old(self)@.params,
                name@,
            ) && old(self)@.pool is Some {
                Some(old(self)@.pool->0.push(name@))
            } else {
                old(self)@.pool
            },
            exists|sent: bool| final(self)@ == request_value_view(old(self)@, name@, sent),
    {
        if self.is_value_pending(name) {
            assert(self@ == request_value_view(old(self)@, name@, true));
            return;
        }
        match self.position_of_name(name) {
            Some(i) => {
                if self.all_parameters[i].value.is_some() {
                    assert(self@ == request_value_view(old(self)@, name@, true));
                    return;
                }
            },
            None => {},
        }
        let sent = match &mut self.value_pool {
            Some(pool) => pool.request_tx.send(name.to_owned()),
            None => {
                assert(self@ == request_value_view(old(self)@, name@, true));
                return;
            },
        };
        if sent {
            self.pending_value_requests.push(name.to_owned());
            assert(texts(self.pending_value_requests@) =~= old(self)@.pending.push(name@));
        }
        assert(self@ == request_value_view(old(self)@, name@, sent));
        proof {
            if crate::laws::no_duplicates(old(self)@.pending) {
                crate::laws::law_request_keeps_pending_unique(old(self)@, name@, sent);
            }
        }
    }

    /// Applies one fetched value: the name stops being pending and the first
    /// parameter of that name gets the value, or the error as `<error: ...>`.
    pub fn apply_value_update(&mut self, update: &models::ValueFetchResult)
        ensures
            final(self)@ == value_update_view(old(self)@, *update),
            crate::laws::no_duplicates(old(self)@.pending) ==> crate::laws::no_duplicates(
                final(self)@.pending,
            ),
    {
        let ghost old_pending = self@.pending;
        let mut kept: Vec<String> = Vec::new();
        let mut i: usize = 0;
        while i < self.pending_value_requests.len()
            invariant
                old_pending == texts(self.pending_value_requests@),
                i <= self.pending_value_requests@.len(),
                texts(kept@) == without(old_pending.take(i as int), update.name@),
            decreases self.pending_value_requests@.len() - i,
        {
            proof {
                assert(old_pending.take(i + 1).drop_last() =~= old_pending.take(i as int));
            }
            if !same_text(self.pending_value_requests[i].as_str(), update.name.as_str()) {
                kept.push(self.pending_value_requests[i].clone());
                assert(texts(kept@) =~= without(old_pending.take(i as int), update.name@).push(
                    old_pending[i as int],
                ));
            }
            i = i + 1;
        }
        assert(old_pending.take(old_pending.len() as int) =~= old_pending);
        self.pending_value_requests = kept;
        let text = match &update.value {
            Ok(v) => v.clone(),
            Err(e) => concat3("<error: ", e.as_str(), ">"),
        };
        self.set_value_for_name(update.name.as_str(), text);
        proof {
            if crate::laws::no_duplicates(old(self)@.pending) {
                crate::laws::law_value_update(old(self)@, *update);
            }
        }
    }

    /// Applies fetched values one after another, in order.
    pub fn apply_value_updates(&mut self, updates: Vec<models::ValueFetchResult>)
        ensures
            final(self)@ == value_updates_view(old(self)@, updates@),
            crate::laws::no_duplicates(old(self)@.pending) ==> crate::laws::no_duplicates(
                final(self)@.pending,
            ),
    {
        let mut i: usize = 0;
        while i < updates.len()
            invariant
                i <= updates@.len(),
                crate::laws::no_duplicates(old(self)@.pending) ==> crate::laws::no_duplicates(
                    self@.pending,
                ),
                self@ == value_updates_view(old(self)@, updates@.take(i as int)),
            decreases updates@.len() - i,
        {
            self.apply_value_update(&updates[i]);
            proof {
                assert(updates@.take(i + 1).drop_last() =~= updates@.take(i as int));
            }
            i = i + 1;
        }
        assert(updates@.take(updates@.len() as int) =~= updates@);
    }

    /// Applies every value that the workers have delivered so far.
    pub fn pump_value_updates(&mut self)
        ensures
            crate::laws::no_duplicates(old(self)@.pending) ==> crate::laws::no_duplicates(
                final(self)@.pending,
            ),
            old(self).value_pool is None ==> final(self)@ == old(self)@,
            exists|ups: Seq<models::ValueFetchResult>| final(self)@ == value_updates_view(old(self)@, ups),
    {
        let updates = match &self.value_pool {
            Some(pool) => models::channel_drain(&pool.response_rx),
            None => {
                assert(self@ == value_updates_view(old(self)@, Seq::empty()));
                return;
            },
        };
        self.apply_value_updates(updates);
    }

    /// Names of the shown entries at positions `lo..hi` whose values are not loaded.
    fn window_missing_names(&self, lo: usize, hi: usize) -> (r: Vec<String>)
        requires
            lo <= hi <= self@.filtered.len(),
            indices_valid(self@),
        ensures
            texts(r@) == window_names(self@, lo as int, hi as int),
    {
        let mut r: Vec<String> = Vec::new();
        let mut p = lo;
        while p < hi
            invariant
                lo <= p <= hi <= self@.filtered.len(),
                indices_valid(self@),
                texts(r@) == window_names(self@, lo as int, p as int),
            decreases hi - p,
        {
            let idx = self.filtered_indices[p];
            if self.all_parameters[idx].value.is_none() {
                r.push(self.all_parameters[idx].name.clone());
                assert(texts(r@) =~= window_names(self@, lo as int, p as int).push(self@.params[idx as int].name));
            }
            p = p + 1;
        }
        r
    }

    /// Requests the values of the entries near the selection (four above to
    /// four below) that are not loaded yet.
    pub fn prefetch_near_selected(&mut self)
        requires
            indices_valid(old(self)@),
            old(self)@.filtered.len() > 0 ==> old(self).selected + 4 <= usize::MAX,
        ensures
            exists|sent: Seq<bool>|
                sent.len() == prefetch_names(old(self)@).len() && final(self)@ == requests_view(
                    old(self)@,
                    prefetch_names(old(self)@),
                    sent,
                ),
    {
        if self.filtered_indices.len() == 0 {
            assert(self@ == requests_view(old(self)@, prefetch_names(old(self)@), Seq::empty()));
            return;
        }
        let total = self.filtered_indices.len();
        let start = if self.selected >= 4 { self.selected - 4 } else { 0 };
        let last = if self.selected + 4 < total - 1 { self.selected + 4 } else { total - 1 };
        let hi = last + 1;
        let lo = if start < hi { start } else { hi };
        let names = self.window_missing_names(lo, hi);
        proof {
            if start >= hi {
                assert(window_names(old(self)@, prefetch_start(old(self)@), prefetch_end(old(self)@))
                    =~= Seq::empty());
            }
        }
        let ghost all = texts(names@);
        let ghost mut sent: Seq<bool> = Seq::empty();
        let mut i: usize = 0;
        while i < names.len()
            invariant
                all == texts(names@),
                all == prefetch_names(old(self)@),
                i <= names@.len(),
                sent.len() == i,
                self@ == requests_view(old(self)@, all.take(i as int), sent),
            decreases names@.len() - i,
        {
            let ghost before = self@;
            self.request_value_for_name(names[i].as_str());
            proof {
                let b = choose|b: bool| self@ == request_value_view(before, names@[i as int]@, b);
                assert(all.take(i + 1).drop_last() =~= all.take(i as int));
                assert(sent.push(b).drop_last() =~= sent);
                sent = sent.push(b);
            }
            i = i + 1;
        }
        assert(all.take(all.len() as int) =~= all);
    }

    /// Starts a full refresh unless one is running; returns whether the caller
    /// is to start the background work (and then store its receiver).
    pub fn start_full_refresh(&mut self) -> (start: bool)
        ensures
            (final(self)@, start) == start_full_refresh_view(old(self)@),
    {
        if self.full_refresh_rx.is_some() {
            self.status = String::from_str("Full refresh is already running");
            return false;
        }
        self.status = String::from_str("Refreshing all parameters and values in background...");
        true
    }

    /// Applies the outcome of a full refresh. `Some(n)` asks the caller to
    /// start `n` value workers and store them in `value_pool`.
    pub fn apply_full_refresh(&mut self, result: Result<FullRefreshResult, String>) -> (r: Option<usize>)
        ensures
            (final(self)@, r) == refresh_view(old(self)@, result),
    {
        let ghost v0 = self@;
        let ghost res = result;
        let selected_name = match self.selected_parameter() {
            Some(p) => Some(p.name.clone()),
            None => None,
        };
        match result {
            Ok(done) => {
                self.all_parameters = done.parameters;
                self.pending_value_requests = Vec::new();
                self.value_pool = None;
                self.apply_filter();
                proof {
                    assert(texts(Seq::<String>::empty()) =~= Seq::<Seq<char>>::empty());
                    assert(self.all_parameters.len() == self.all_parameters@.len());
                    lemma_apply_filter_valid(
                        AppView {
                            params: self@.params,
                            pending: Seq::empty(),
                            pool: None,
                            ..v0
                        },
                    );
                }
                match selected_name {
                    Some(name) => self.select_named(name.as_str()),
                    None => {},
                }
                let count = strings::usize_to_string(done.count);
                let workers = strings::usize_to_string(done.thread_count);
                let head = concat3("Refreshed ", count.as_str(), " parameters with values using ");
                self.status = concat3(head.as_str(), workers.as_str(), " workers");
                Some(done.thread_count)
            },
            Err(err) => {
                self.status = concat("Refresh failed: ", err.as_str());
                None
            },
        }
    }

    /// Applies what polling the refresh channel once gave: nothing yet leaves
    /// the state alone; a result, or a vanished worker (a failed refresh with
    /// "refresh worker disconnected"), drops the receiver and is applied.
    pub fn apply_polled_refresh(&mut self, polled: models::Polled<Result<FullRefreshResult, String>>) -> (r:
        Option<usize>)
        ensures
            (final(self)@, r) == polled_refresh_view(old(self)@, polled),
    {
        let result = match polled {
            models::Polled::Ready(res) => res,
            models::Polled::Empty => {
                return None;
            },
            models::Polled::Disconnected => Err(String::from_str("refresh worker disconnected")),
        };
        self.full_refresh_rx = None;
        self.apply_full_refresh(result)
    }

    /// Polls the running full refresh once and applies its outcome if it has
    /// arrived (a vanished worker counts as a failed refresh). `Some(n)` asks
    /// the caller to start `n` value workers.
    pub fn pump_full_refresh_updates(&mut self) -> (r: Option<usize>)
        ensures
            old(self).full_refresh_rx is None ==> final(self)@ == old(self)@ && r is None,
            exists|polled: models::Polled<Result<FullRefreshResult, String>>|
                (final(self)@, r) == #[trigger] polled_refresh_view(old(self)@, polled),
    {
        let polled = match &self.full_refresh_rx {
            Some(rx) => models::channel_try_receive(rx),
            None => {
                assert((self@, None::<usize>) == polled_refresh_view(
                    old(self)@,
                    models::Polled::<Result<FullRefreshResult, String>>::Empty,
                ));
                return None;
            },
        };
        let ghost p = polled;
        let r = self.apply_polled_refresh(polled);
        assert((self@, r) == polled_refresh_view(old(self)@, p));
        r
    }

    /// The state right after startup, in the region `configured_region`, from
    /// what loading the parameter names and starting the workers delivered.
    pub fn new(configured_region: String, loaded: Startup) -> (app: App)
        ensures
            app@ == new_view(configured_region@, loaded),
    {
        let ghost l = loaded;
        let (all_parameters, status, value_pool) = match loaded {
            Ok((params, count, workers, Ok(pool))) => {
                let c = strings::usize_to_string(count);
                let w = strings::usize_to_string(workers);
                let a = concat3("Loaded ", c.as_str(), " parameter names from region ");
                let b = concat3(a.as_str(), configured_region.as_str(), ". Lazy value loading with ");
                (params, concat3(b.as_str(), w.as_str(), " workers"), Some(pool))
            },
            Ok((params, count, _workers, Err(err))) => {
                let c = strings::usize_to_string(count);
                let a = concat3("Loaded ", c.as_str(), " names but lazy value workers failed: ");
                (params, concat3(a.as_str(), err.as_str(), ". Values unavailable"), None)
            },
            Err(err) => (Vec::new(), concat3("SSM load failed (", err.as_str(), ")."), None),
        };
        let mut app = App {
            selected: 0,
            all_parameters,
            filtered_indices: Vec::new(),
            search_mode: false,
            query: String::new(),
            status,
            aws_region: configured_region,
            create_mode: false,
            create_name: String::new(),
            create_value: String::new(),
            create_field: CreateField::Name,
            create_name_cursor: 0,
            create_value_cursor: 0,
            create_value_mode: ValueEditorMode::Insert,
            value_pool,
            pending_value_requests: Vec::new(),
            full_refresh_rx: None,
        };
        proof {
            assert(texts(Seq::<String>::empty()) =~= Seq::<Seq<char>>::empty());
            assert(models::params_view(Seq::<Parameter>::empty()) =~= Seq::<ParameterView>::empty());
        }
        app.apply_filter();
        app
    }
}

/// The configured region from the values of `AWS_REGION` and `AWS_DEFAULT_REGION`.
pub fn configured_region(aws_region: Option<String>, default_region: Option<String>) -> (r: String)
    ensures
        r@ == configured_region_spec(models::opt_text(aws_region), models::opt_text(default_region)),
{
    let raw = match aws_region {
        Some(r) => r,
        None => match default_region {
            Some(r) => r,
            None => String::new(),
        },
    };
    let t = trim(raw.as_str());
    if t.as_str().is_empty() {
        String::from_str("default-chain")
    } else {
        raw
    }
}

/// The region to use at startup for a configured region.
pub fn startup_region(configured: &str) -> (r: Option<String>)
    ensures
        models::opt_text(r) == startup_region_spec(configured@),
{
    let placeholder = "default-chain";
    if same_text(configured, placeholder) {
        None
    } else {
        Some(configured.to_owned())
    }
}

pub proof fn lemma_filter_of(params: Seq<ParameterView>, needle: Seq<char>, k: int)
    requires
        0 <= k <= params.len(),
        params.len() <= usize::MAX,
    ensures
        filter_of(params, needle, k).len() <= k,
        forall|j: int|
            0 <= j < filter_of(params, needle, k).len() ==> #[trigger] filter_of(params, needle, k)[j]
                < k,
        forall|a: int, b: int|
            0 <= a < b < filter_of(params, needle, k).len() ==> #[trigger] filter_of(
                params,
                needle,
                k,
            )[a] < #[trigger] filter_of(params, needle, k)[b],
        forall|i: int|
            0 <= i < k ==> (filter_of(params, needle, k).contains(i as usize) <==> name_matches(
                #[trigger] params[i].name,
                needle,
            )),
    decreases k,
{
    if k > 0 {
        lemma_filter_of(params, needle, k - 1);
        let r = filter_of(params, needle, k - 1);
        let f = filter_of(params, needle, k);
        let m = name_matches(params[k - 1].name, needle);
        if m {
            assert(f == r.push((k - 1) as usize));
            assert forall|j: int| 0 <= j < r.len() implies f[j] == r[j] by {}
        } else {
            assert(f == r);
        }
        assert forall|i: int| 0 <= i < k implies (f.contains(i as usize) <==> name_matches(
            #[trigger] params[i].name,
            needle,
        )) by {
            if i < k - 1 {
                if f.contains(i as usize) {
                    let j = choose|j: int| 0 <= j < f.len() && f[j] == i as usize;
                    if m && j == r.len() {
                        assert(f[j] == (k - 1) as usize);
                    } else {
                        assert(r[j] == i as usize);
                        assert(r.contains(i as usize));
                    }
                }
                if r.contains(i as usize) {
                    let j = choose|j: int| 0 <= j < r.len() && r[j] == i as usize;
                    assert(f[j] == i as usize);
                }
            } else {
                if m {
                    assert(f[r.len() as int] == i as usize);
                } else {
                    if f.contains(i as usize) {
                        let j = choose|j: int| 0 <= j < f.len() && f[j] == i as usize;
                        assert(r[j] < k - 1);
                    }
                }
            }
        }
    }
}

/// Filtering leaves only indices of existing parameters.
proof fn lemma_apply_filter_valid(v: AppView)
    requires
        v.params.len() <= usize::MAX,
    ensures
        indices_valid(apply_filter_view(v)),
{
    lemma_filter_of(v.params, strings::ascii_lower(v.query), v.params.len() as int);
}

} // verus!
