//! Properties that relate the operations of the application to each other:
//! what filtering shows, how moves undo each other, what stays invariant.
use vstd::prelude::*;
use crate::app;
use crate::app::AppView;
use crate::keys;
use crate::models::{CreateField, ParameterView, ValueEditorMode};
use crate::strings;
use crate::text_edit;

verus! {

/// No name occurs twice.
pub open spec fn no_duplicates(s: Seq<Seq<char>>) -> bool {
    forall|i: int, j: int| 0 <= i < j < s.len() ==> s[i] != s[j]
}

/// After filtering, the shown indices point at parameters, ascend strictly, and
/// show exactly the parameters whose lower-cased names contain the lower-cased query.
pub proof fn law_filter_shows_exactly_matches(v: AppView)
    requires
        v.params.len() <= usize::MAX,
    ensures
        ({
            let w = app::apply_filter_view(v);
            &&& app::indices_valid(w)
            &&& forall|a: int, b: int| 0 <= a < b < w.filtered.len() ==> w.filtered[a] < w.filtered[b]
            &&& forall|i: int|
                0 <= i < v.params.len() ==> (w.filtered.contains(i as usize) <==> app::name_matches(
                    #[trigger] v.params[i].name,
                    strings::ascii_lower(v.query),
                ))
            &&& w.selected < w.filtered.len() || w.selected == 0
        }),
{
    app::lemma_filter_of(v.params, strings::ascii_lower(v.query), v.params.len() as int);
}

proof fn lemma_filter_empty(params: Seq<ParameterView>, k: int)
    requires
        0 <= k <= params.len(),
        params.len() <= usize::MAX,
    ensures
        app::filter_of(params, Seq::empty(), k) =~= Seq::new(k as nat, |i: int| i as usize),
    decreases k,
{
    if k > 0 {
        lemma_filter_empty(params, k - 1);
    }
}

/// An empty query shows every parameter, in order.
pub proof fn law_empty_query_shows_all(params: Seq<ParameterView>)
    requires
        params.len() <= usize::MAX,
    ensures
        app::filtered_for(params, Seq::empty()) == Seq::new(params.len(), |i: int| i as usize),
{
    assert(strings::ascii_lower(Seq::empty()) =~= Seq::<char>::empty());
    lemma_filter_empty(params, params.len() as int);
}

/// On a non-empty list with the selection inside it, moving up undoes moving
/// down and moving down undoes moving up.
pub proof fn law_next_previous_undo(v: AppView)
    requires
        v.selected < v.filtered.len(),
        v.filtered.len() <= usize::MAX,
    ensures
        app::previous_view(app::next_view(v)) == v,
        app::next_view(app::previous_view(v)) == v,
{
    let len = v.filtered.len() as int;
    let sel = v.selected as int;
    if sel + 1 < len {
        vstd::arithmetic::div_mod::lemma_small_mod((sel + 1) as nat, len as nat);
        assert((sel + 1) % len == sel + 1);
        assert(app::next_view(v).selected == sel + 1);
    } else {
        vstd::arithmetic::div_mod::lemma_mod_self_0(len);
        assert((sel + 1) % len == 0);
        assert(app::next_view(v).selected == 0);
    }
    assert(app::previous_view(app::next_view(v)) =~= v);
    if sel == 0 {
        vstd::arithmetic::div_mod::lemma_mod_self_0(len);
        assert(len % len == 0);
        assert(app::previous_view(v).selected == len - 1);
    } else {
        vstd::arithmetic::div_mod::lemma_small_mod(sel as nat, len as nat);
        assert(sel % len == sel);
        assert(app::previous_view(v).selected == sel - 1);
    }
    assert(app::next_view(app::previous_view(v)) =~= v);
}

/// Moving down or up keeps the selection inside a non-empty list.
pub proof fn law_moves_stay_in_list(v: AppView)
    requires
        0 <= v.selected < v.filtered.len(),
    ensures
        app::next_view(v).selected < v.filtered.len(),
        app::previous_view(v).selected < v.filtered.len(),
{
    vstd::arithmetic::div_mod::lemma_mod_bound(v.selected + 1, v.filtered.len() as int);
}

/// Switching the popup field twice returns to the same field, with the value
/// editor in insert mode and nothing else changed.
pub proof fn law_switch_twice(v: AppView)
    ensures
        app::switch_create_field_view(app::switch_create_field_view(v)) == (AppView {
            value_mode: ValueEditorMode::Insert,
            ..v
        }),
{
}

proof fn lemma_push_contains(r: Seq<Seq<char>>, x: Seq<char>, y: Seq<char>)
    ensures
        r.push(x).contains(y) <==> (r.contains(y) || y == x),
{
    let w = r.push(x);
    if w.contains(y) {
        let j = choose|j: int| 0 <= j < w.len() && w[j] == y;
        if j < r.len() {
            assert(r[j] == y);
        }
    }
    if r.contains(y) {
        let j = choose|j: int| 0 <= j < r.len() && r[j] == y;
        assert(w[j] == y);
    }
    if y == x {
        assert(w[w.len() - 1] == y);
    }
}

proof fn lemma_without(s: Seq<Seq<char>>, x: Seq<char>)
    ensures
        forall|y: Seq<char>| #[trigger] app::without(s, x).contains(y) <==> (s.contains(y) && y != x),
        no_duplicates(s) ==> no_duplicates(app::without(s, x)),
    decreases s.len(),
{
    if s.len() > 0 {
        let t = s.drop_last();
        lemma_without(t, x);
        let r = app::without(t, x);
        assert(t.push(s.last()) =~= s);
        assert forall|y: Seq<char>| s.contains(y) <==> (t.contains(y) || y == s.last()) by {
            lemma_push_contains(t, s.last(), y);
        }
        if s.last() != x {
            let w = r.push(s.last());
            assert(app::without(s, x) == w);
            assert forall|y: Seq<char>| w.contains(y) <==> (s.contains(y) && y != x) by {
                lemma_push_contains(r, s.last(), y);
            }
            if no_duplicates(s) {
                assert(no_duplicates(t));
                assert(!t.contains(s.last())) by {
                    if t.contains(s.last()) {
                        let j = choose|j: int| 0 <= j < t.len() && t[j] == s.last();
                        assert(s[j] == s[s.len() - 1]);
                    }
                }
                assert forall|i: int, j: int| 0 <= i < j < w.len() implies w[i] != w[j] by {
                    if j == w.len() - 1 {
                        assert(r[i] == w[i]);
                        assert(r.contains(w[i]));
                    } else {
                        assert(r[i] == w[i] && r[j] == w[j]);
                    }
                }
            }
        } else {
            assert(app::without(s, x) == r);
            assert forall|y: Seq<char>| r.contains(y) <==> (s.contains(y) && y != x) by {}
            if no_duplicates(s) {
                assert(no_duplicates(t));
            }
        }
    }
}

/// Requesting a value never records a name twice as pending.
pub proof fn law_request_keeps_pending_unique(v: AppView, name: Seq<char>, sent: bool)
    requires
        no_duplicates(v.pending),
    ensures
        no_duplicates(app::request_value_view(v, name, sent).pending),
{
    let w = app::request_value_view(v, name, sent);
    if w.pending != v.pending {
        assert forall|i: int, j: int| 0 <= i < j < w.pending.len() implies w.pending[i]
            != w.pending[j] by {
            if j == w.pending.len() - 1 {
                assert(v.pending[i] == w.pending[i]);
            }
        }
    }
}

/// A successful request (sent while the name was neither pending nor loaded and
/// workers run) makes the name pending.
pub proof fn law_request_marks_pending(v: AppView, name: Seq<char>)
    requires
        !v.pending.contains(name),
        !app::has_loaded_value(v.params, name),
        v.pool is Some,
    ensures
        app::request_value_view(v, name, true).pending.contains(name),
{
    let w = app::request_value_view(v, name, true);
    assert(w.pending[w.pending.len() - 1] == name);
}

/// Asking twice for the same value: when the first send went through, the
/// second request changes nothing; whatever the two sends came to, the name
/// ends up pending exactly as after one request whose send went through when
/// either did (so at most once). When the first send failed the name is
/// handed to the workers a second time, as the first request left it unpending.
pub proof fn law_request_twice(v: AppView, name: Seq<char>, first: bool, second: bool)
    ensures
        first ==> app::request_value_view(app::request_value_view(v, name, first), name, second)
            == app::request_value_view(v, name, first),
        app::request_value_view(app::request_value_view(v, name, first), name, second).pending
            == app::request_value_view(v, name, first || second).pending,
{
    let w = app::request_value_view(v, name, first);
    if first && w != v {
        assert(w.pending[w.pending.len() - 1] == name);
        assert(w.pending.contains(name));
    }
    if !first && w != v {
        assert(w.pending == v.pending);
        assert(w.params == v.params);
    }
}

/// After a request the name is pending exactly when it already was, or when
/// the send went through while its value was not loaded and workers ran; no
/// other name changes.
pub proof fn law_request_pending(v: AppView, name: Seq<char>, sent: bool)
    ensures
        app::request_value_view(v, name, sent).pending.contains(name) <==> (v.pending.contains(name) || (
        sent && !app::has_loaded_value(v.params, name) && v.pool is Some)),
        forall|other: Seq<char>|
            other != name ==> (#[trigger] app::request_value_view(v, name, sent).pending.contains(other)
                <==> v.pending.contains(other)),
{
    let w = app::request_value_view(v, name, sent);
    assert forall|y: Seq<char>| w.pending.contains(y) <==> (v.pending.contains(y) || (w.pending
        != v.pending && y == name)) by {
        if w.pending != v.pending {
            lemma_push_contains(v.pending, name, y);
        }
    }
}

proof fn lemma_find_named(params: Seq<ParameterView>, name: Seq<char>, i: int)
    requires
        0 <= i,
    ensures
        match app::find_named(params, name, i) {
            Some(j) => i <= j < params.len() && params[j].name == name && forall|k: int|
                i <= k < j ==> #[trigger] params[k].name != name,
            None => forall|k: int| i <= k < params.len() ==> #[trigger] params[k].name != name,
        },
    decreases params.len() - i,
{
    if i < params.len() && params[i].name != name {
        lemma_find_named(params, name, i + 1);
    }
}

/// When a fetched value arrives, its name stops being pending (the others stay
/// pending, without duplicates) and the first parameter of that name holds it.
pub proof fn law_value_update(v: AppView, u: crate::models::ValueFetchResult)
    requires
        no_duplicates(v.pending),
    ensures
        ({
            let w = app::value_update_view(v, u);
            &&& !w.pending.contains(u.name@)
            &&& no_duplicates(w.pending)
            &&& forall|y: Seq<char>| y != u.name@ ==> (w.pending.contains(y) <==> v.pending.contains(y))
            &&& match app::first_named(v.params, u.name@) {
                Some(i) => w.params[i].value == Some(app::fetched_text(u.value)),
                None => w.params == v.params,
            }
        }),
{
    lemma_without(v.pending, u.name@);
    lemma_find_named(v.params, u.name@, 0);
    let w = app::value_update_view(v, u);
    assert(w.pending == app::without(v.pending, u.name@));
    assert(!app::without(v.pending, u.name@).contains(u.name@));
    assert(no_duplicates(w.pending));
    match app::first_named(v.params, u.name@) {
        Some(i) => {
            assert(w.params[i].value == Some(app::fetched_text(u.value)));
        },
        None => {
            assert(w.params == v.params);
        },
    }
}

/// Setting a value gives the first parameter of that name exactly that value
/// and leaves every other parameter alone.
pub proof fn law_set_value(v: AppView, name: Seq<char>, value: Seq<char>)
    ensures
        ({
            let w = app::set_value_view(v, name, value);
            &&& w.params.len() == v.params.len()
            &&& match app::first_named(v.params, name) {
                Some(i) => w.params[i].value == Some(value) && w.params[i].name == name && forall|
                    k: int,
                | 0 <= k < v.params.len() && k != i ==> #[trigger] w.params[k] == v.params[k],
                None => w == v,
            }
        }),
{
    lemma_find_named(v.params, name, 0);
}

proof fn lemma_position_identity(params: Seq<ParameterView>, name: Seq<char>, p: int)
    requires
        0 <= p <= params.len(),
        params.len() <= usize::MAX,
    ensures
        app::position_named(params, Seq::new(params.len(), |i: int| i as usize), name, p)
            == app::find_named(params, name, p),
    decreases params.len() - p,
{
    if p < params.len() {
        lemma_position_identity(params, name, p + 1);
    }
}

/// After a successful create, the query is empty, the popup is closed and the
/// selection is on the parameter of that name, which holds the new value.
pub proof fn law_created_parameter_selected(
    v: AppView,
    name: Seq<char>,
    value: Seq<char>,
    version: i64,
    now: i64,
)
    requires
        v.params.len() < usize::MAX,
    ensures
        ({
            let w = app::finish_create_view(v, name, value, Ok(version), now);
            &&& w.query.len() == 0
            &&& !w.create_mode
            &&& app::selected_index(w) is Some
            &&& w.params[app::selected_index(w)->0].name == name
            &&& w.params[app::selected_index(w)->0].value == Some(value)
            &&& w.params[app::selected_index(w)->0].meta.version == Some(version)
        }),
{
    let params = app::params_after_create(v.params, name, value, version, now);
    lemma_find_named(v.params, name, 0);
    let ps = params;
    match app::first_named(v.params, name) {
        Some(i) => {
            assert forall|k: int| 0 <= k < i implies #[trigger] ps[k].name != name by {
                assert(ps[k] == v.params[k]);
            }
            assert(ps[i].name == name);
            lemma_find_named(ps, name, 0);
            assert(app::first_named(ps, name) == Some(i));
        },
        None => {
            let n = v.params.len() as int;
            assert forall|k: int| 0 <= k < n implies #[trigger] ps[k].name != name by {
                assert(ps[k] == v.params[k]);
            }
            lemma_find_named(ps, name, 0);
            assert(app::first_named(ps, name) == Some(n));
        },
    }
    law_empty_query_shows_all(ps);
    let f = Seq::new(ps.len(), |i: int| i as usize);
    lemma_position_identity(ps, name, 0);
    let u = AppView { params: ps, query: Seq::empty(), ..v };
    assert(app::apply_filter_view(u).filtered == f);
}

/// A refresh keeps the selection on the parameter of the same name when the new
/// list still has one (for a state whose shown list is the filter of its query).
pub proof fn law_refresh_keeps_selected_name(
    v: AppView,
    result: crate::models::FullRefreshResult,
)
    requires
        result.parameters@.len() <= usize::MAX,
        v.params.len() <= usize::MAX,
        v.filtered == app::filtered_for(v.params, v.query),
        app::selected_index(v) is Some,
        app::first_named(
            crate::models::params_view(result.parameters@),
            v.params[app::selected_index(v)->0].name,
        ) is Some,
    ensures
        ({
            let w = app::refresh_view(v, Ok(result)).0;
            &&& app::selected_index(w) is Some
            &&& w.params[app::selected_index(w)->0].name == v.params[app::selected_index(v)->0].name
        }),
{
    let j = app::selected_index(v)->0;
    let name = v.params[j].name;
    let needle = strings::ascii_lower(v.query);
    app::lemma_filter_of(v.params, needle, v.params.len() as int);
    assert(v.filtered.contains(j as usize)) by {
        assert(v.filtered[v.selected as int] == j as usize);
    }
    assert(app::name_matches(name, needle));
    let ps = crate::models::params_view(result.parameters@);
    let u = AppView { params: ps, pending: Seq::empty(), pool: None, ..v };
    app::lemma_filter_of(ps, needle, ps.len() as int);
    let w = app::apply_filter_view(u);
    let i = app::first_named(ps, name)->0;
    lemma_find_named(ps, name, 0);
    assert(ps[i].name == name);
    assert(w.filtered.contains(i as usize));
    let q0 = choose|q: int| 0 <= q < w.filtered.len() && w.filtered[q] == i as usize;
    lemma_position_found(ps, w.filtered, name, 0);
    if app::position_named(ps, w.filtered, name, 0) is None {
        assert(ps[w.filtered[q0] as int].name == name);
        assert(false);
    }
    let q = app::position_named(ps, w.filtered, name, 0)->0;
    let w2 = app::select_named_view(w, name);
    assert(w2.selected == q);
    assert(w.filtered[q] < ps.len());
    assert(app::selected_index(w2) == Some(w.filtered[q] as int));
}

proof fn lemma_position_found(
    params: Seq<ParameterView>,
    filtered: Seq<usize>,
    name: Seq<char>,
    p: int,
)
    requires
        0 <= p,
        forall|j: int| 0 <= j < filtered.len() ==> #[trigger] filtered[j] < params.len(),
    ensures
        match app::position_named(params, filtered, name, p) {
            Some(q) => p <= q < filtered.len() && params[filtered[q] as int].name == name,
            None => forall|q: int|
                p <= q < filtered.len() ==> params[#[trigger] filtered[q] as int].name != name,
        },
    decreases filtered.len() - p,
{
    if p < filtered.len() && params[filtered[p] as int].name != name {
        lemma_position_found(params, filtered, name, p + 1);
    }
}

/// The popup's cursors lie within their texts.
pub open spec fn cursors_within(v: AppView) -> bool {
    &&& text_edit::cursor_within(v.create_name, v.name_cursor as int)
    &&& text_edit::cursor_within(v.create_value, v.value_cursor as int)
}

proof fn lemma_name_key_within(v: AppView, key: keys::KeyInput)
    requires
        cursors_within(v),
        text_edit::byte_len(v.create_name) + 4 <= usize::MAX,
    ensures
        cursors_within(keys::name_key_view(v, key)),
{
    let n = v.create_name;
    let nc = v.name_cursor as int;
    match key.code {
        keys::KeyCode::Left | keys::KeyCode::Right | keys::KeyCode::Home | keys::KeyCode::End => {
            text_edit::law_moves_stay_within(n, nc);
            assert(cursors_within(keys::name_key_view(v, key)));
        },
        keys::KeyCode::Backspace => {
            text_edit::law_backspace_stays_within(n, nc);
            assert(cursors_within(keys::name_key_view(v, key)));
        },
        keys::KeyCode::Delete => {
            text_edit::law_delete_stays_within(n, nc);
            assert(cursors_within(keys::name_key_view(v, key)));
        },
        keys::KeyCode::Char(ch) => {
            text_edit::law_insert_stays_within(n, nc, ch);
            assert(cursors_within(keys::name_key_view(v, key)));
        },
        keys::KeyCode::Esc => {
            assert(cursors_within(keys::name_key_view(v, key)));
        },
        keys::KeyCode::Enter => {
            assert(cursors_within(keys::name_key_view(v, key)));
        },
        _ => {
            assert(cursors_within(keys::name_key_view(v, key)));
        },
    }
}

proof fn lemma_value_insert_key_within(v: AppView, key: keys::KeyInput)
    requires
        cursors_within(v),
        text_edit::byte_len(v.create_value) + 4 <= usize::MAX,
    ensures
        cursors_within(keys::value_insert_key_view(v, key)),
{
    let s = v.create_value;
    let vc = v.value_cursor as int;
    match key.code {
        keys::KeyCode::Backspace => {
            text_edit::law_backspace_stays_within(s, vc);
        },
        keys::KeyCode::Delete => {
            text_edit::law_delete_stays_within(s, vc);
        },
        keys::KeyCode::Enter => {
            text_edit::law_insert_stays_within(s, vc, '\n');
        },
        keys::KeyCode::Char(ch) => {
            text_edit::law_insert_stays_within(s, vc, ch);
        },
        _ => {
            text_edit::law_moves_stay_within(s, vc);
        },
    }
}

proof fn lemma_value_normal_key_within(v: AppView, key: keys::KeyInput)
    requires
        cursors_within(v),
        text_edit::byte_len(v.create_value) + 4 <= usize::MAX,
    ensures
        cursors_within(keys::value_normal_key_view(v, key).0),
{
    let s = v.create_value;
    let vc = v.value_cursor as int;
    text_edit::law_moves_stay_within(s, vc);
    text_edit::law_delete_stays_within(s, vc);
}

/// Every key keeps the popup's cursors valid and within their texts, so the
/// editing functions' preconditions hold for the next key too (texts short
/// enough that a cursor fits a machine word).
pub proof fn law_keys_keep_cursors_within(v: AppView, key: keys::KeyInput, sent: bool)
    requires
        cursors_within(v),
        text_edit::byte_len(v.create_name) + 4 <= usize::MAX,
        text_edit::byte_len(v.create_value) + 4 <= usize::MAX,
    ensures
        cursors_within(keys::key_view(v, key, sent).0),
        keys::cursors_ok(keys::key_view(v, key, sent).0),
{
    if key.press && v.create_mode {
        lemma_name_key_within(v, key);
        lemma_value_insert_key_within(v, key);
        lemma_value_normal_key_within(v, key);
    }
    text_edit::lemma_empty_within();
}

// ---------------------------------------------------------------------------
// The bookkeeping that every operation keeps
// ---------------------------------------------------------------------------
/// The bookkeeping of the state is in order: the shown list is the filter of
/// the query, the selection is a shown position (or zero when nothing is
/// shown), and no name is pending twice.
pub open spec fn consistent(v: AppView) -> bool {
    &&& v.filtered == app::filtered_for(v.params, v.query)
    &&& (v.selected < v.filtered.len() || v.selected == 0)
    &&& no_duplicates(v.pending)
}

/// Filtering looks at the names only.
proof fn lemma_filter_same_names(
    p1: Seq<ParameterView>,
    p2: Seq<ParameterView>,
    needle: Seq<char>,
    k: int,
)
    requires
        p1.len() == p2.len(),
        0 <= k <= p1.len(),
        forall|i: int| 0 <= i < p1.len() ==> #[trigger] p1[i].name == p2[i].name,
    ensures
        app::filter_of(p1, needle, k) == app::filter_of(p2, needle, k),
    decreases k,
{
    if k > 0 {
        lemma_filter_same_names(p1, p2, needle, k - 1);
        assert(p1[k - 1].name == p2[k - 1].name);
    }
}

proof fn lemma_set_value_consistent(v: AppView, name: Seq<char>, value: Seq<char>)
    requires
        consistent(v),
    ensures
        consistent(app::set_value_view(v, name, value)),
{
    lemma_find_named(v.params, name, 0);
    let w = app::set_value_view(v, name, value);
    assert forall|i: int| 0 <= i < v.params.len() implies #[trigger] v.params[i].name
        == w.params[i].name by {}
    lemma_filter_same_names(v.params, w.params, strings::ascii_lower(v.query), v.params.len() as int);
}

proof fn lemma_select_named_consistent(w: AppView, name: Seq<char>)
    requires
        consistent(w),
        w.params.len() <= usize::MAX,
    ensures
        consistent(app::select_named_view(w, name)),
{
    app::lemma_filter_of(w.params, strings::ascii_lower(w.query), w.params.len() as int);
    lemma_position_found(w.params, w.filtered, name, 0);
}

/// The state right after startup is consistent.
pub proof fn law_startup_consistent(region: Seq<char>, loaded: app::Startup)
    ensures
        consistent(app::new_view(region, loaded)),
{
    assert(no_duplicates(Seq::<Seq<char>>::empty()));
}

/// Every key keeps the state consistent.
pub proof fn law_keys_keep_consistent(v: AppView, key: keys::KeyInput, sent: bool)
    requires
        consistent(v),
    ensures
        consistent(keys::key_view(v, key, sent).0),
{
    if v.filtered.len() > 0 {
        law_moves_stay_in_list(v);
    }
    match app::selected_index(v) {
        Some(i) => law_request_keeps_pending_unique(v, v.params[i].name, sent),
        None => {},
    }
}

/// Fetched values arriving, in any number, keep the state consistent.
pub proof fn law_value_updates_keep_consistent(
    v: AppView,
    ups: Seq<crate::models::ValueFetchResult>,
)
    requires
        consistent(v),
    ensures
        consistent(app::value_updates_view(v, ups)),
    decreases ups.len(),
{
    if ups.len() > 0 {
        law_value_updates_keep_consistent(v, ups.drop_last());
        let w = app::value_updates_view(v, ups.drop_last());
        let u = ups.last();
        lemma_without(w.pending, u.name@);
        lemma_set_value_consistent(
            AppView { pending: app::without(w.pending, u.name@), ..w },
            u.name@,
            app::fetched_text(u.value),
        );
    }
}

/// Requests for values, in any number and whatever the sends came to, keep
/// the state consistent.
pub proof fn law_requests_keep_consistent(v: AppView, names: Seq<Seq<char>>, sent: Seq<bool>)
    requires
        consistent(v),
    ensures
        consistent(app::requests_view(v, names, sent)),
    decreases names.len(),
{
    if names.len() > 0 && sent.len() == names.len() {
        law_requests_keep_consistent(v, names.drop_last(), sent.drop_last());
        law_request_keeps_pending_unique(
            app::requests_view(v, names.drop_last(), sent.drop_last()),
            names.last(),
            sent.last(),
        );
    }
}

/// The store's answer to a create request keeps the state consistent.
pub proof fn law_create_keeps_consistent(
    v: AppView,
    name: Seq<char>,
    value: Seq<char>,
    outcome: Result<i64, Seq<char>>,
    now: i64,
)
    requires
        consistent(v),
        v.params.len() < usize::MAX,
    ensures
        consistent(app::finish_create_view(v, name, value, outcome, now)),
{
    match outcome {
        Ok(version) => {
            lemma_find_named(v.params, name, 0);
            let ps = app::params_after_create(v.params, name, value, version, now);
            assert(ps.len() <= v.params.len() + 1);
            let w = app::apply_filter_view(AppView { params: ps, query: Seq::empty(), ..v });
            lemma_select_named_consistent(w, name);
        },
        Err(_) => {},
    }
}

/// A finished refresh, successful or not, keeps the state consistent.
pub proof fn law_refresh_keeps_consistent(
    v: AppView,
    result: Result<crate::models::FullRefreshResult, String>,
)
    requires
        consistent(v),
        result matches Ok(done) ==> done.parameters@.len() <= usize::MAX,
    ensures
        consistent(app::refresh_view(v, result).0),
{
    match result {
        Ok(done) => {
            assert(no_duplicates(Seq::<Seq<char>>::empty()));
            let w = app::apply_filter_view(
                AppView {
                    params: crate::models::params_view(done.parameters@),
                    pending: Seq::empty(),
                    pool: None,
                    ..v
                },
            );
            match app::selected_index(v) {
                Some(i) => lemma_select_named_consistent(w, v.params[i].name),
                None => {},
            }
        },
        Err(_) => {},
    }
}

/// Storing a value fetched for editing, and reporting how an edit or a copy
/// ended, keep the state consistent.
pub proof fn law_edit_and_copy_keep_consistent(
    v: AppView,
    name: Seq<char>,
    fetched: Result<String, String>,
    edit: keys::EditOutcome,
    copy: Result<(), String>,
)
    requires
        consistent(v),
    ensures
        consistent(keys::fetched_for_edit_view(v, name, fetched)),
        consistent(keys::finish_edit_view(v, name, edit)),
        consistent(keys::finish_copy_view(v, name, copy)),
{
    match fetched {
        Ok(val) => lemma_set_value_consistent(v, name, val@),
        Err(_) => {},
    }
    match edit {
        keys::EditOutcome::Stored(val) => lemma_set_value_consistent(v, name, val@),
        _ => {},
    }
}

// ---------------------------------------------------------------------------
// What single keys and steps are for
// ---------------------------------------------------------------------------
/// A pressed key without Control.
pub open spec fn press(code: keys::KeyCode) -> keys::KeyInput {
    keys::KeyInput { code, ctrl: false, press: true }
}

/// In the popup's value editor in normal mode, `a` and then a character put
/// that character after the one under the cursor (vim's append): the text is
/// the old text with the character inserted at the next position, the cursor
/// sits after the inserted character, and the editor is in insert mode.
pub proof fn law_append_after_cursor(v: AppView, k: int, ch: char, sent: bool)
    requires
        v.create_mode,
        v.create_field == CreateField::Value,
        v.value_mode == ValueEditorMode::Normal,
        0 <= k < v.create_value.len(),
        v.value_cursor == text_edit::offset(v.create_value, k),
        text_edit::byte_len(v.create_value) + 4 <= usize::MAX,
    ensures
        ({
            let s = v.create_value;
            let w = keys::key_view(keys::key_view(v, press(keys::KeyCode::Char('a')), sent).0, press(
                keys::KeyCode::Char(ch),
            ), sent).0;
            &&& w.create_value == s.take(k + 1).push(ch) + s.skip(k + 1)
            &&& w.value_cursor == text_edit::offset(s, k + 1) + text_edit::char_width(ch)
            &&& w.value_mode == ValueEditorMode::Insert
            &&& w.create_name == v.create_name
        }),
{
    let s = v.create_value;
    text_edit::lemma_index_at(s, k);
    text_edit::lemma_offset_le_len(s, k);
    text_edit::lemma_offset_le_len(s, k + 1);
    text_edit::lemma_index_at(s, k + 1);
    text_edit::lemma_char_width(ch);
    assert(text_edit::clamp(s, v.value_cursor as int) == text_edit::offset(s, k));
    assert(text_edit::cursor_index(s, v.value_cursor as int) == k);
    let c1 = text_edit::right_of(s, v.value_cursor as int);
    assert(c1 == text_edit::offset(s, k + 1));
    let u = keys::key_view(v, press(keys::KeyCode::Char('a')), sent).0;
    assert(u.value_cursor == c1);
    assert(u.value_mode == ValueEditorMode::Insert);
    assert(text_edit::clamp(s, c1) == c1);
    assert(text_edit::cursor_index(s, c1) == k + 1);
}

/// Saving the popup with Control+S, when the trimmed name is not empty, asks
/// to create the parameter under the trimmed name with the value exactly as
/// typed, and changes nothing else.
pub proof fn law_save_keeps_value_as_typed(v: AppView, sent: bool, s_key: char)
    requires
        v.create_mode,
        s_key == 's' || s_key == 'S',
        strings::trimmed(v.create_name).len() > 0,
    ensures
        keys::key_view(v, keys::KeyInput { code: keys::KeyCode::Char(s_key), ctrl: true, press: true }, sent)
            == (v, keys::ActionView::Create(strings::trimmed(v.create_name), v.create_value)),
        app::submit_create_view(v) == (v, Some((strings::trimmed(v.create_name), v.create_value))),
{
}

/// Outside the popup (searching or not), the up arrow and `k` both move the
/// selection one entry up, wrapping from the first to the last, and moving
/// down then up returns to the same state.
pub proof fn law_up_undoes_down(v: AppView, sent: bool)
    requires
        !v.create_mode,
        v.selected < v.filtered.len(),
        v.filtered.len() <= usize::MAX,
    ensures
        ({
            let up = keys::key_view(v, press(keys::KeyCode::Up), sent).0;
            &&& up == keys::key_view(v, press(keys::KeyCode::Char('k')), sent).0
            &&& up.selected == if v.selected == 0 {
                v.filtered.len() - 1
            } else {
                v.selected - 1
            }
            &&& keys::key_view(keys::key_view(v, press(keys::KeyCode::Down), sent).0, press(keys::KeyCode::Up), sent).0 == v
        }),
{
    law_next_previous_undo(v);
}

/// The header shows the selected parameter's own fields: its type, tier,
/// data type, key id and last user (each `-` when absent), its description
/// (`No description` when absent) and its name.
pub proof fn law_header_shows_selected_fields(v: AppView, h: crate::view::HeaderFields, i: int)
    requires
        crate::view::header_ok(v, h),
        app::selected_index(v) == Some(i),
    ensures
        ({
            let m = v.params[i].meta;
            let dash = |o: Option<Seq<char>>| match o {
                Some(t) => t,
                None => "-"@,
            };
            &&& h.name@ == v.params[i].name
            &&& h.param_type@ == dash(m.param_type)
            &&& h.tier@ == dash(m.tier)
            &&& h.data_type@ == dash(m.data_type)
            &&& h.key_id@ == dash(m.key_id)
            &&& h.last_modified_user@ == dash(m.last_modified_user)
            &&& h.description@ == match m.description {
                Some(t) => t,
                None => "No description"@,
            }
        }),
{
}

/// A successful refresh keeps the query and the search mode: it shows the
/// new parameters that the old query matches.
pub proof fn law_refresh_keeps_query(v: AppView, done: crate::models::FullRefreshResult)
    ensures
        ({
            let w = app::refresh_view(v, Ok(done)).0;
            &&& w.query == v.query
            &&& w.search_mode == v.search_mode
            &&& w.params == crate::models::params_view(done.parameters@)
            &&& w.filtered == app::filtered_for(crate::models::params_view(done.parameters@), v.query)
        }),
{
}

} // verus!
