//! What happens to the data that the parameter store returns: ordering by
//! name, the number of workers, spreading names over workers, and merging
//! metadata and values back into one list.
use vstd::prelude::*;
use crate::models;
use crate::models::{Parameter, ParameterMeta, ParameterView};
use crate::strings::{chars_of, concat, same_text};

verus! {

// ---------------------------------------------------------------------------
// Ordering of names
// ---------------------------------------------------------------------------
/// `a < b` in the order of `String`: lexicographic by character (UTF-8 keeps
/// the order of code points, so this is also the order of the bytes).
pub open spec fn text_lt(a: Seq<char>, b: Seq<char>) -> bool
    decreases a.len(),
{
    if a.len() == 0 {
        b.len() > 0
    } else if b.len() == 0 {
        false
    } else if a[0] != b[0] {
        (a[0] as u32) < (b[0] as u32)
    } else {
        text_lt(a.drop_first(), b.drop_first())
    }
}

pub proof fn lemma_text_lt_irreflexive(a: Seq<char>)
    ensures
        !text_lt(a, a),
    decreases a.len(),
{
    if a.len() > 0 {
        lemma_text_lt_irreflexive(a.drop_first());
    }
}

pub proof fn lemma_text_lt_transitive(a: Seq<char>, b: Seq<char>, c: Seq<char>)
    requires
        text_lt(a, b),
        text_lt(b, c),
    ensures
        text_lt(a, c),
    decreases a.len(),
{
    if a.len() > 0 && b.len() > 0 && c.len() > 0 && a[0] == b[0] && b[0] == c[0] {
        lemma_text_lt_transitive(a.drop_first(), b.drop_first(), c.drop_first());
    } else if a.len() > 0 && b.len() > 0 && c.len() > 0 {
        assert((a[0] as u32) != (b[0] as u32) ==> a[0] != b[0]);
    }
}

pub proof fn lemma_text_lt_total(a: Seq<char>, b: Seq<char>)
    ensures
        a == b || text_lt(a, b) || text_lt(b, a),
        !(text_lt(a, b) && text_lt(b, a)),
    decreases a.len(),
{
    if a.len() > 0 && b.len() > 0 {
        lemma_text_lt_total(a.drop_first(), b.drop_first());
        if a[0] == b[0] && a.drop_first() == b.drop_first() {
            assert forall|i: int| 0 <= i < a.len() implies a[i] == b[i] by {
                if i > 0 {
                    assert(a[i] == a.drop_first()[i - 1]);
                    assert(b[i] == b.drop_first()[i - 1]);
                }
            }
            assert(a =~= b);
        }
        if a[0] != b[0] {
            assert((a[0] as u32) != (b[0] as u32)) by {
                vstd::utf8::char_u32_cast(a[0], a[0] as u32);
                vstd::utf8::char_u32_cast(b[0], b[0] as u32);
            }
        }
    } else if a.len() == 0 && b.len() == 0 {
        assert(a =~= b);
    }
}

/// `text_lt` on strings.
pub fn text_less(a: &str, b: &str) -> (r: bool)
    ensures
        r == text_lt(a@, b@),
{
    let x = chars_of(a);
    let y = chars_of(b);
    let mut i: usize = 0;
    assert(x@.skip(0) =~= x@);
    assert(y@.skip(0) =~= y@);
    while i < x.len() && i < y.len() && x[i] == y[i]
        invariant
            i <= x@.len(),
            i <= y@.len(),
            text_lt(x@, y@) == text_lt(x@.skip(i as int), y@.skip(i as int)),
        decreases x@.len() - i,
    {
        proof {
            assert(x@.skip(i as int).drop_first() =~= x@.skip(i + 1));
            assert(y@.skip(i as int).drop_first() =~= y@.skip(i + 1));
        }
        i = i + 1;
    }
    assert(x@.skip(i as int).len() == x@.len() - i);
    if i == x.len() {
        i < y.len()
    } else if i == y.len() {
        false
    } else {
        assert(x@.skip(i as int)[0] == x@[i as int]);
        assert(y@.skip(i as int)[0] == y@[i as int]);
        (x[i] as u32) < (y[i] as u32)
    }
}

/// The keys of a sequence are in non-decreasing order.
pub open spec fn keys_sorted<T>(s: Seq<T>, key: spec_fn(T) -> Seq<char>) -> bool {
    forall|i: int, j: int| 0 <= i < j < s.len() ==> !text_lt(key(s[j]), key(s[i]))
}

/// Where insertion puts `x`: before the first element at or after `j` whose
/// key is greater than `x`'s, else at the end.
pub open spec fn insert_pos<T>(s: Seq<T>, x: T, key: spec_fn(T) -> Seq<char>, j: int) -> int
    decreases s.len() - j,
{
    if j < 0 || j >= s.len() {
        s.len() as int
    } else if text_lt(key(x), key(s[j])) {
        j
    } else {
        insert_pos(s, x, key, j + 1)
    }
}

/// `s` with `x` inserted after every element whose key is not greater than `x`'s.
pub open spec fn insert_by<T>(s: Seq<T>, x: T, key: spec_fn(T) -> Seq<char>) -> Seq<T> {
    s.insert(insert_pos(s, x, key, 0), x)
}

/// Stable sort by key: each element is inserted after the earlier ones with
/// equal keys, as `slice::sort_by` orders them.
pub open spec fn sort_by<T>(s: Seq<T>, key: spec_fn(T) -> Seq<char>) -> Seq<T>
    decreases s.len(),
{
    if s.len() == 0 {
        s
    } else {
        insert_by(sort_by(s.drop_last(), key), s.last(), key)
    }
}

/// Parameters are ordered by their names.
pub open spec fn name_key() -> spec_fn(ParameterView) -> Seq<char> {
    |p: ParameterView| p.name
}

/// Strings are ordered by themselves.
pub open spec fn text_key() -> spec_fn(Seq<char>) -> Seq<char> {
    |t: Seq<char>| t
}

proof fn lemma_insert_pos<T>(s: Seq<T>, x: T, key: spec_fn(T) -> Seq<char>, j: int)
    requires
        0 <= j <= s.len(),
    ensures
        j <= insert_pos(s, x, key, j) <= s.len(),
        forall|i: int| j <= i < insert_pos(s, x, key, j) ==> !text_lt(key(x), #[trigger] key(s[i])),
        insert_pos(s, x, key, j) < s.len() ==> text_lt(key(x), key(s[insert_pos(s, x, key, j)])),
    decreases s.len() - j,
{
    if j < s.len() && !text_lt(key(x), key(s[j])) {
        lemma_insert_pos(s, x, key, j + 1);
    }
}

/// Insertion keeps a sorted sequence sorted and adds exactly one element.
pub proof fn law_insert_by<T>(s: Seq<T>, x: T, key: spec_fn(T) -> Seq<char>)
    requires
        keys_sorted(s, key),
    ensures
        keys_sorted(insert_by(s, x, key), key),
        insert_by(s, x, key).to_multiset() == s.to_multiset().insert(x),
{
    let p = insert_pos(s, x, key, 0);
    lemma_insert_pos(s, x, key, 0);
    let t = insert_by(s, x, key);
    s.insert_ensures(p, x);
    assert forall|i: int, j: int| 0 <= i < j < t.len() implies !text_lt(key(t[j]), key(t[i])) by {
        if j < p {
            assert(t[i] == s[i] && t[j] == s[j]);
        } else if j == p {
            assert(t[i] == s[i]);
            assert(t[j] == x);
        } else if i < p {
            assert(t[i] == s[i] && t[j] == s[j - 1]);
        } else if i == p {
            assert(t[i] == x && t[j] == s[j - 1]);
            assert(text_lt(key(x), key(s[p])));
            if text_lt(key(s[j - 1]), key(x)) {
                lemma_text_lt_transitive(key(s[j - 1]), key(x), key(s[p]));
                if j - 1 == p {
                    lemma_text_lt_irreflexive(key(s[p]));
                }
            }
        } else {
            assert(t[i] == s[i - 1] && t[j] == s[j - 1]);
        }
    }
    vstd::seq_lib::to_multiset_insert(s, p, x);
}

/// Sorting by key gives a sorted permutation.
pub proof fn law_sort_by<T>(s: Seq<T>, key: spec_fn(T) -> Seq<char>)
    ensures
        keys_sorted(sort_by(s, key), key),
        sort_by(s, key).to_multiset() == s.to_multiset(),
        sort_by(s, key).len() == s.len(),
    decreases s.len(),
{
    if s.len() > 0 {
        law_sort_by(s.drop_last(), key);
        law_insert_by(sort_by(s.drop_last(), key), s.last(), key);
        vstd::seq_lib::to_multiset_build(s.drop_last(), s.last());
        assert(s.drop_last().push(s.last()) =~= s);
        vstd::seq_lib::to_multiset_len(s);
        vstd::seq_lib::to_multiset_len(sort_by(s, key));
    } else {
        assert(s.to_multiset() =~= sort_by(s, key).to_multiset());
    }
}

/// Parameters ordered by name (stable).
pub fn sort_parameters_by_name(params: Vec<Parameter>) -> (out: Vec<Parameter>)
    ensures
        models::params_view(out@) == sort_by(models::params_view(params@), name_key()),
{
    let ghost key = name_key();
    let ghost src = models::params_view(params@);
    let mut out: Vec<Parameter> = Vec::new();
    let mut i: usize = 0;
    while i < params.len()
        invariant
            src == models::params_view(params@),
            key == name_key(),
            i <= params@.len(),
            models::params_view(out@) == sort_by(src.take(i as int), key),
        decreases params@.len() - i,
    {
        let x = params[i].clone();
        let ghost cur = models::params_view(out@);
        let mut j: usize = 0;
        while j < out.len() && !text_less(x.name.as_str(), out[j].name.as_str())
            invariant
                cur == models::params_view(out@),
                key == name_key(),
                j <= out@.len(),
                insert_pos(cur, x@, key, 0) == insert_pos(cur, x@, key, j as int),
            decreases out@.len() - j,
        {
            assert(cur[j as int] == out@[j as int]@);
            assert(key(x@) == x@.name);
            assert(key(cur[j as int]) == cur[j as int].name);
            j = j + 1;
        }
        proof {
            if j < out@.len() {
                assert(cur[j as int] == out@[j as int]@);
                assert(key(x@) == x@.name);
                assert(key(cur[j as int]) == cur[j as int].name);
            }
            assert(insert_pos(cur, x@, key, j as int) == j);
        }
        out.insert(j, x);
        proof {
            assert(src.take(i + 1).drop_last() =~= src.take(i as int));
            assert(src.take(i + 1).last() == x@);
            assert(models::params_view(out@) =~= cur.insert(j as int, x@));
        }
        i = i + 1;
    }
    assert(src.take(params@.len() as int) =~= src);
    out
}

/// Strings in the order of `String` (stable).
pub fn sort_strings(names: Vec<String>) -> (out: Vec<String>)
    ensures
        crate::app::texts(out@) == sort_by(crate::app::texts(names@), text_key()),
{
    let ghost key = text_key();
    let ghost src = crate::app::texts(names@);
    let mut out: Vec<String> = Vec::new();
    let mut i: usize = 0;
    while i < names.len()
        invariant
            src == crate::app::texts(names@),
            key == text_key(),
            i <= names@.len(),
            crate::app::texts(out@) == sort_by(src.take(i as int), key),
        decreases names@.len() - i,
    {
        let x = names[i].clone();
        let ghost cur = crate::app::texts(out@);
        let mut j: usize = 0;
        while j < out.len() && !text_less(x.as_str(), out[j].as_str())
            invariant
                cur == crate::app::texts(out@),
                key == text_key(),
                j <= out@.len(),
                insert_pos(cur, x@, key, 0) == insert_pos(cur, x@, key, j as int),
            decreases out@.len() - j,
        {
            assert(cur[j as int] == out@[j as int]@);
            assert(key(x@) == x@);
            assert(key(cur[j as int]) == cur[j as int]);
            j = j + 1;
        }
        proof {
            if j < out@.len() {
                assert(cur[j as int] == out@[j as int]@);
                assert(key(x@) == x@);
                assert(key(cur[j as int]) == cur[j as int]);
            }
            assert(insert_pos(cur, x@, key, j as int) == j);
        }
        out.insert(j, x);
        proof {
            assert(src.take(i + 1).drop_last() =~= src.take(i as int));
            assert(src.take(i + 1).last() == x@);
            assert(crate::app::texts(out@) =~= cur.insert(j as int, x@));
        }
        i = i + 1;
    }
    assert(src.take(names@.len() as int) =~= src);
    out
}

// ---------------------------------------------------------------------------
// Workers
// ---------------------------------------------------------------------------
/// One value worker per started block of thirty parameters.
pub open spec fn worker_count(count: nat) -> nat {
    count / 30 + 1
}

/// The number of value workers for `count` parameters.
pub fn worker_count_for(count: usize) -> (r: usize)
    ensures
        r == worker_count(count as nat),
{
    count / 30 + 1
}

/// Orders the listed parameters by name and counts them and the workers they call for.
pub fn finish_name_listing(params: Vec<Parameter>) -> (r: (Vec<Parameter>, usize, usize))
    ensures
        models::params_view(r.0@) == sort_by(models::params_view(params@), name_key()),
        r.1 == params@.len(),
        r.2 == worker_count(params@.len()),
{
    let sorted = sort_parameters_by_name(params);
    proof {
        law_sort_by(models::params_view(params@), name_key());
    }
    let count = sorted.len();
    (sorted, count, worker_count_for(count))
}

/// Names that go to worker `b` of `workers`: those at positions `i < k` with
/// `i % workers == b`, in order.
pub open spec fn bucket(names: Seq<Seq<char>>, workers: nat, b: nat, k: int) -> Seq<Seq<char>>
    decreases k,
{
    if k <= 0 {
        Seq::empty()
    } else if (k - 1) % (workers as int) == b {
        bucket(names, workers, b, k - 1).push(names[k - 1])
    } else {
        bucket(names, workers, b, k - 1)
    }
}

/// Dealing loses and repeats nothing: worker `b` gets the names at positions
/// `b`, `b + workers`, `b + 2 * workers`, ... below `k`, in that order.
pub proof fn law_bucket_positions(names: Seq<Seq<char>>, workers: nat, b: nat, k: int)
    requires
        workers > 0,
        b < workers,
        0 <= k <= names.len(),
    ensures
        bucket(names, workers, b, k).len() == if k > b {
            (k - 1 - b) / (workers as int) + 1
        } else {
            0
        },
        forall|j: int|
            0 <= j < bucket(names, workers, b, k).len() ==> #[trigger] bucket(names, workers, b, k)[j]
                == names[b + j * workers],
    decreases k,
{
    if k > 0 {
        let m = k - 1;
        let w = workers as int;
        let bi = b as int;
        law_bucket_positions(names, workers, b, m);
        let prev = bucket(names, workers, b, m);
        if m % w == bi {
            let q = m / w;
            assert(m == q * w + bi) by (nonlinear_arith)
                requires
                    m % w == bi,
                    q == m / w,
                    w > 0,
            {
            }
            if m > bi {
                assert(q >= 1) by (nonlinear_arith)
                    requires
                        m == q * w + bi,
                        m > bi,
                        w > 0,
                {
                }
                assert((m - 1 - bi) / w == q - 1) by (nonlinear_arith)
                    requires
                        m == q * w + bi,
                        q >= 1,
                        w > 0,
                {
                    assert(m - 1 - bi == (q - 1) * w + (w - 1));
                }
            } else {
                assert(q == 0) by (nonlinear_arith)
                    requires
                        m == q * w + bi,
                        m <= bi,
                        0 <= bi < w,
                        w > 0,
                        m >= 0,
                {
                }
            }
            assert((m - bi) / w == q) by (nonlinear_arith)
                requires
                    m == q * w + bi,
                    w > 0,
            {
            }
            assert(prev.len() == q);
            assert(names[bi + q * w] == names[m]);
        } else {
            if m > bi {
                assert((m - bi) / w == (m - 1 - bi) / w) by (nonlinear_arith)
                    requires
                        m % w != bi,
                        m > bi,
                        0 <= bi < w,
                {
                    let r = (m - 1 - bi) % w;
                    let q = (m - 1 - bi) / w;
                    assert(m - 1 - bi == q * w + r);
                    assert(0 <= r < w);
                    if r == w - 1 {
                        assert(m == (q + 1) * w + bi);
                        assert(m % w == bi);
                    }
                }
            } else if m == bi {
                assert(m % w == bi) by (nonlinear_arith)
                    requires
                        m == bi,
                        0 <= bi < w,
                {
                }
            }
        }
    }
}

/// Deals `names` to `workers` workers round-robin: name `i` goes to worker `i % workers`.
pub fn round_robin(names: &Vec<String>, workers: usize) -> (r: Vec<Vec<String>>)
    requires
        workers > 0,
    ensures
        r@.len() == workers,
        forall|b: int|
            0 <= b < workers ==> crate::app::texts(#[trigger] r@[b]@) == bucket(
                crate::app::texts(names@),
                workers as nat,
                b as nat,
                names@.len() as int,
            ),
{
    let ghost src = crate::app::texts(names@);
    let mut r: Vec<Vec<String>> = Vec::new();
    let mut b: usize = 0;
    while b < workers
        invariant
            b <= workers,
            r@.len() == b,
            forall|c: int| 0 <= c < b ==> (#[trigger] r@[c])@.len() == 0,
        decreases workers - b,
    {
        r.push(Vec::new());
        b = b + 1;
    }
    let mut i: usize = 0;
    while i < names.len()
        invariant
            src == crate::app::texts(names@),
            workers > 0,
            i <= names@.len(),
            r@.len() == workers,
            forall|c: int|
                0 <= c < workers ==> crate::app::texts(#[trigger] r@[c]@) == bucket(
                    src,
                    workers as nat,
                    c as nat,
                    i as int,
                ),
        decreases names@.len() - i,
    {
        let slot = i % workers;
        let name = names[i].clone();
        let ghost before = r@;
        r[slot].push(name);
        proof {
            assert forall|c: int| 0 <= c < workers implies crate::app::texts(#[trigger] r@[c]@)
                == bucket(src, workers as nat, c as nat, i + 1) by {
                if c == slot {
                    assert(crate::app::texts(r@[c]@) =~= crate::app::texts(before[c]@).push(src[i as int]));
                } else {
                    assert(r@[c] == before[c]);
                }
            }
        }
        i = i + 1;
    }
    r
}

/// Most names that one lookup of several parameters asks for.
pub const LOOKUP_BATCH: usize = 10;

/// Batch `b` when `names` are cut into batches of `size`: the names from
/// position `b * size` up to `(b + 1) * size` (or the end).
pub open spec fn batch_at(names: Seq<Seq<char>>, size: nat, b: int) -> Seq<Seq<char>> {
    let lo = b * size;
    let hi = lo + size;
    names.subrange(lo, if hi < names.len() { hi } else { names.len() as int })
}

/// Number of batches of `size` that `len` names need.
pub open spec fn batch_count(len: nat, size: nat) -> nat {
    if len == 0 {
        0
    } else {
        ((len - 1) as nat / size + 1) as nat
    }
}

/// Cuts `names` into consecutive batches of `size` names, the last one
/// possibly shorter, as `slice::chunks` does.
pub fn batches(names: &Vec<String>, size: usize) -> (r: Vec<Vec<String>>)
    requires
        size > 0,
    ensures
        r@.len() == batch_count(names@.len(), size as nat),
        forall|b: int|
            0 <= b < r@.len() ==> crate::app::texts(#[trigger] r@[b]@) == batch_at(
                crate::app::texts(names@),
                size as nat,
                b,
            ),
{
    let ghost src = crate::app::texts(names@);
    let n = names.len();
    let mut r: Vec<Vec<String>> = Vec::new();
    let mut i: usize = 0;
    assert(r@.len() * size == 0) by (nonlinear_arith)
        requires
            r@.len() == 0,
    ;
    while i < n
        invariant
            src == crate::app::texts(names@),
            n == names@.len(),
            size > 0,
            i <= n,
            i == if r@.len() * size < n { r@.len() * size } else { n as int },
            r@.len() == 0 || (r@.len() - 1) * size < n,
            forall|b: int|
                0 <= b < r@.len() ==> crate::app::texts(#[trigger] r@[b]@) == batch_at(
                    src,
                    size as nat,
                    b,
                ),
        decreases n - i,
    {
        let hi = if n - i > size { i + size } else { n };
        let mut batch: Vec<String> = Vec::new();
        let mut j = i;
        while j < hi
            invariant
                src == crate::app::texts(names@),
                n == names@.len(),
                i <= j <= hi <= n,
                crate::app::texts(batch@) == src.subrange(i as int, j as int),
            decreases hi - j,
        {
            let ghost before = batch@;
            batch.push(names[j].clone());
            assert(crate::app::texts(batch@) =~= crate::app::texts(before).push(src[j as int]));
            assert(src.subrange(i as int, j + 1) =~= src.subrange(i as int, j as int).push(src[j as int]));
            j = j + 1;
        }
        let ghost k = r@.len() as int;
        assert(i == k * size);
        assert(crate::app::texts(batch@) == batch_at(src, size as nat, k));
        r.push(batch);
        assert((k + 1) * size == k * size + size) by (nonlinear_arith);
        i = hi;
    }
    proof {
        let k = r@.len() as int;
        if n > 0 {
            assert(k > 0);
            assert((k - 1) * size < n <= k * size);
            assert((n - 1) / (size as int) == k - 1) by (nonlinear_arith)
                requires
                    (k - 1) * size < n,
                    n <= k * size,
                    size > 0,
                    k > 0,
            {
                let q = (n - 1) / (size as int);
                let m = (n - 1) % (size as int);
                assert(n - 1 == q * size + m);
                assert(0 <= m < size);
            }
        } else {
            assert(k == 0);
        }
    }
    r
}

// ---------------------------------------------------------------------------
// Merging metadata and values
// ---------------------------------------------------------------------------
/// The last entry named `name` among `entries` (a map where a later insert wins).
pub open spec fn last_named<V>(entries: Seq<(Seq<char>, V)>, name: Seq<char>) -> Option<V>
    decreases entries.len(),
{
    if entries.len() == 0 {
        None
    } else if entries.last().0 == name {
        Some(entries.last().1)
    } else {
        last_named(entries.drop_last(), name)
    }
}

/// Whether position `i` holds the first occurrence of its name.
pub open spec fn first_occurrence(names: Seq<Seq<char>>, i: int) -> bool {
    !names.take(i).contains(names[i])
}

/// The merged parameter at position `i`: the first occurrence of a name takes
/// the last metadata and value reported for it; a repeated name gets none.
pub open spec fn merged_at(
    names: Seq<Seq<char>>,
    metas: Seq<(Seq<char>, models::MetaView)>,
    values: Seq<(Seq<char>, Seq<char>)>,
    i: int,
) -> ParameterView {
    let first = first_occurrence(names, i);
    ParameterView {
        name: names[i],
        value: if first {
            last_named(values, names[i])
        } else {
            None
        },
        meta: if first {
            match last_named(metas, names[i]) {
                Some(m) => m,
                None => models::empty_meta(),
            }
        } else {
            models::empty_meta()
        },
    }
}

/// The views of (name, metadata) pairs.
pub open spec fn metas_view(v: Seq<(String, ParameterMeta)>) -> Seq<(Seq<char>, models::MetaView)> {
    v.map_values(|e: (String, ParameterMeta)| (e.0@, e.1@))
}

/// The views of (name, value) pairs.
pub open spec fn values_view(v: Seq<(String, String)>) -> Seq<(Seq<char>, Seq<char>)> {
    v.map_values(|e: (String, String)| (e.0@, e.1@))
}

fn occurs_before(names: &Vec<String>, i: usize) -> (r: bool)
    requires
        i < names@.len(),
    ensures
        r == !first_occurrence(crate::app::texts(names@), i as int),
{
    let ghost s = crate::app::texts(names@);
    let mut j: usize = 0;
    while j < i
        invariant
            s == crate::app::texts(names@),
            j <= i < names@.len(),
            forall|k: int| 0 <= k < j ==> s[k] != s[i as int],
        decreases i - j,
    {
        if same_text(names[j].as_str(), names[i].as_str()) {
            assert(s.take(i as int)[j as int] == s[i as int]);
            return true;
        }
        j = j + 1;
    }
    proof {
        if s.take(i as int).contains(s[i as int]) {
            let k = choose|k: int| 0 <= k < i && s.take(i as int)[k] == s[i as int];
            assert(s[k] == s[i as int]);
        }
    }
    false
}

fn find_last_meta(metas: &Vec<(String, ParameterMeta)>, name: &str) -> (r: Option<usize>)
    ensures
        match r {
            Some(k) => k < metas@.len() && last_named(metas_view(metas@), name@) == Some(
                metas@[k as int].1@,
            ),
            None => last_named(metas_view(metas@), name@) is None,
        },
{
    let ghost s = metas_view(metas@);
    let mut k = metas.len();
    assert(s.take(k as int) =~= s);
    while k > 0
        invariant
            s == metas_view(metas@),
            k <= metas@.len(),
            last_named(s, name@) == last_named(s.take(k as int), name@),
        decreases k,
    {
        proof {
            assert(s.take(k as int).drop_last() =~= s.take(k - 1));
        }
        if same_text(metas[k - 1].0.as_str(), name) {
            return Some(k - 1);
        }
        k = k - 1;
    }
    None
}

fn find_last_value(values: &Vec<(String, String)>, name: &str) -> (r: Option<usize>)
    ensures
        match r {
            Some(k) => k < values@.len() && last_named(values_view(values@), name@) == Some(
                values@[k as int].1@,
            ),
            None => last_named(values_view(values@), name@) is None,
        },
{
    let ghost s = values_view(values@);
    let mut k = values.len();
    assert(s.take(k as int) =~= s);
    while k > 0
        invariant
            s == values_view(values@),
            k <= values@.len(),
            last_named(s, name@) == last_named(s.take(k as int), name@),
        decreases k,
    {
        proof {
            assert(s.take(k as int).drop_last() =~= s.take(k - 1));
        }
        if same_text(values[k - 1].0.as_str(), name) {
            return Some(k - 1);
        }
        k = k - 1;
    }
    None
}

/// Builds the parameter list in the order of `names`, taking for each name the
/// last metadata in `metas` and the last value in `values` reported for it; a
/// name that repeats gets them only at its first occurrence.
pub fn merge_parameters(
    names: &Vec<String>,
    metas: &Vec<(String, ParameterMeta)>,
    values: &Vec<(String, String)>,
) -> (out: Vec<Parameter>)
    ensures
        out@.len() == names@.len(),
        forall|i: int|
            0 <= i < names@.len() ==> (#[trigger] out@[i])@ == merged_at(
                crate::app::texts(names@),
                metas_view(metas@),
                values_view(values@),
                i,
            ),
{
    let mut out: Vec<Parameter> = Vec::new();
    let mut i: usize = 0;
    while i < names.len()
        invariant
            i <= names@.len(),
            out@.len() == i,
            forall|j: int|
                0 <= j < i ==> (#[trigger] out@[j])@ == merged_at(
                    crate::app::texts(names@),
                    metas_view(metas@),
                    values_view(values@),
                    j,
                ),
        decreases names@.len() - i,
    {
        let name = names[i].as_str();
        let repeated = occurs_before(names, i);
        let (value, meta) = if repeated {
            (None, ParameterMeta::default())
        } else {
            let value = match find_last_value(values, name) {
                Some(k) => Some(values[k].1.clone()),
                None => None,
            };
            let meta = match find_last_meta(metas, name) {
                Some(k) => metas[k].1.clone(),
                None => ParameterMeta::default(),
            };
            (value, meta)
        };
        let p = Parameter { name: names[i].clone(), value, meta };
        proof {
            assert(p@ =~= merged_at(
                crate::app::texts(names@),
                metas_view(metas@),
                values_view(values@),
                i as int,
            ));
        }
        out.push(p);
        i = i + 1;
    }
    out
}

/// The value that a lookup of one parameter yields: an error when the answer
/// holds no parameter, the empty text when the parameter has no value.
pub fn fetched_value(parameter: Option<Option<String>>) -> (r: Result<String, String>)
    ensures
        match parameter {
            None => r matches Err(e) && e@ == "parameter missing in get_parameter response"@,
            Some(None) => r matches Ok(v) && v@.len() == 0,
            Some(Some(v)) => r matches Ok(w) && w@ == v@,
        },
{
    match parameter {
        None => Err(String::from_str("parameter missing in get_parameter response")),
        Some(None) => Ok(String::new()),
        Some(Some(v)) => Ok(v),
    }
}

// ---------------------------------------------------------------------------
// Lookups with and without decryption
// ---------------------------------------------------------------------------
/// What follows a lookup: its result, a second try without decryption, or
/// the end with an error.
pub enum LookupStep<T> {
    Done(T),
    RetryWithoutDecryption,
    Failed(String),
}

/// The text of an optional value, empty when absent.
pub open spec fn text_or_empty(o: Option<String>) -> Seq<char> {
    match o {
        Some(t) => t@,
        None => Seq::empty(),
    }
}

/// The (name, value) pairs of the parameters a lookup returned: those without
/// a name are skipped, a missing value reads as empty.
pub open spec fn returned_pairs(params: Seq<(Option<String>, Option<String>)>) -> Seq<(Seq<char>, Seq<char>)>
    decreases params.len(),
{
    if params.len() == 0 {
        Seq::empty()
    } else {
        let rest = returned_pairs(params.drop_last());
        match params.last().0 {
            Some(n) => rest.push((n@, text_or_empty(params.last().1))),
            None => rest,
        }
    }
}

/// After looking up several parameters (with decryption when `decrypted`),
/// given the returned (name, value) fields or the error: the named pairs; a
/// failure with decryption is tried again without it; a failure without
/// decryption ends with `get_parameters failed: <error>`.
pub fn batch_lookup_step(decrypted: bool, reply: Result<Vec<(Option<String>, Option<String>)>, String>) -> (r:
    LookupStep<Vec<(String, String)>>)
    ensures
        match reply {
            Ok(params) => r matches LookupStep::Done(pairs) && values_view(pairs@) == returned_pairs(params@),
            Err(e) => if decrypted {
                r is RetryWithoutDecryption
            } else {
                r matches LookupStep::Failed(m) && m@ == "get_parameters failed: "@ + e@
            },
        },
{
    match reply {
        Ok(params) => {
            let mut pairs: Vec<(String, String)> = Vec::new();
            let mut i: usize = 0;
            while i < params.len()
                invariant
                    i <= params@.len(),
                    values_view(pairs@) == returned_pairs(params@.take(i as int)),
                decreases params@.len() - i,
            {
                proof {
                    assert(params@.take(i + 1).drop_last() =~= params@.take(i as int));
                }
                match &params[i].0 {
                    Some(n) => {
                        let value = match &params[i].1 {
                            Some(v) => v.clone(),
                            None => String::new(),
                        };
                        let ghost before = pairs@;
                        pairs.push((n.clone(), value));
                        assert(values_view(pairs@) =~= values_view(before).push(
                            (n@, text_or_empty(params@[i as int].1)),
                        ));
                    },
                    None => {},
                }
                i = i + 1;
            }
            assert(params@.take(params@.len() as int) =~= params@);
            LookupStep::Done(pairs)
        },
        Err(e) => {
            if decrypted {
                LookupStep::RetryWithoutDecryption
            } else {
                LookupStep::Failed(concat("get_parameters failed: ", e.as_str()))
            }
        },
    }
}

/// After looking up one parameter (with decryption when `decrypted`), given
/// the returned parameter's value field (`None` when no parameter came back)
/// or the error: the value, empty when absent; a missing parameter is an
/// error; a failure with decryption is tried again without it; a failure
/// without decryption ends with `get_parameter failed: <error>`.
pub fn single_lookup_step(decrypted: bool, reply: Result<Option<Option<String>>, String>) -> (r: LookupStep<
    String,
>)
    ensures
        match reply {
            Ok(None) => r matches LookupStep::Failed(m) && m@ == "parameter missing in get_parameter response"@,
            Ok(Some(v)) => r matches LookupStep::Done(t) && t@ == text_or_empty(v),
            Err(e) => if decrypted {
                r is RetryWithoutDecryption
            } else {
                r matches LookupStep::Failed(m) && m@ == "get_parameter failed: "@ + e@
            },
        },
{
    match reply {
        Ok(p) => match fetched_value(p) {
            Ok(v) => LookupStep::Done(v),
            Err(m) => LookupStep::Failed(m),
        },
        Err(e) => {
            if decrypted {
                LookupStep::RetryWithoutDecryption
            } else {
                LookupStep::Failed(concat("get_parameter failed: ", e.as_str()))
            }
        },
    }
}

// ---------------------------------------------------------------------------
// Loading every parameter with its value
// ---------------------------------------------------------------------------
/// The names of listed (name, metadata) pairs.
pub open spec fn listed_names(listed: Seq<(String, ParameterMeta)>) -> Seq<Seq<char>> {
    listed.map_values(|e: (String, ParameterMeta)| e.0@)
}

/// How loading everything is laid out: the listed names in order, and the
/// names each value worker fetches (round-robin, one worker per started block
/// of thirty names).
pub fn plan_full_load(listed: &Vec<(String, ParameterMeta)>) -> (r: (Vec<String>, Vec<Vec<String>>))
    ensures
        crate::app::texts(r.0@) == sort_by(listed_names(listed@), text_key()),
        r.1@.len() == worker_count(listed@.len()),
        forall|b: int|
            0 <= b < r.1@.len() ==> crate::app::texts(#[trigger] r.1@[b]@) == bucket(
                crate::app::texts(r.0@),
                worker_count(listed@.len()),
                b as nat,
                listed@.len() as int,
            ),
{
    let mut names: Vec<String> = Vec::new();
    let mut i: usize = 0;
    while i < listed.len()
        invariant
            i <= listed@.len(),
            crate::app::texts(names@) == listed_names(listed@).take(i as int),
        decreases listed@.len() - i,
    {
        let ghost before = names@;
        names.push(listed[i].0.clone());
        assert(crate::app::texts(names@) =~= crate::app::texts(before).push(listed@[i as int].0@));
        assert(listed_names(listed@).take(i + 1) =~= listed_names(listed@).take(i as int).push(
            listed@[i as int].0@,
        ));
        i = i + 1;
    }
    assert(listed_names(listed@).take(listed@.len() as int) =~= listed_names(listed@));
    let sorted = sort_strings(names);
    proof {
        law_sort_by(listed_names(listed@), text_key());
    }
    let workers = worker_count_for(sorted.len());
    let buckets = round_robin(&sorted, workers);
    (sorted, buckets)
}

/// The error of the first worker that failed, in worker order.
pub open spec fn first_error(results: Seq<Result<Vec<(String, String)>, String>>) -> Option<Seq<char>>
    decreases results.len(),
{
    if results.len() == 0 {
        None
    } else {
        match first_error(results.drop_last()) {
            Some(e) => Some(e),
            None => match results.last() {
                Err(e) => Some(e@),
                Ok(_) => None,
            },
        }
    }
}

/// Every (name, value) pair the workers fetched, worker after worker.
pub open spec fn all_pairs(results: Seq<Result<Vec<(String, String)>, String>>) -> Seq<(Seq<char>, Seq<char>)>
    decreases results.len(),
{
    if results.len() == 0 {
        Seq::empty()
    } else {
        all_pairs(results.drop_last()) + match results.last() {
            Ok(p) => values_view(p@),
            Err(_) => Seq::empty(),
        }
    }
}

/// The end of loading everything, from the names in order, the listed
/// metadata and what each value worker returned: the first worker error, or
/// the parameters in the order of `names` with the last metadata and value
/// reported for each, their number and the number of workers.
pub fn finish_full_load(
    names: &Vec<String>,
    listed: &Vec<(String, ParameterMeta)>,
    results: Vec<Result<Vec<(String, String)>, String>>,
) -> (r: Result<(Vec<Parameter>, usize, usize), String>)
    ensures
        match first_error(results@) {
            Some(e) => r matches Err(m) && m@ == e,
            None => r matches Ok(done) && done.1 == names@.len() && done.2 == worker_count(
                names@.len() as nat,
            ) && done.0@.len() == names@.len() && forall|i: int|
                0 <= i < names@.len() ==> (#[trigger] done.0@[i])@ == merged_at(
                    crate::app::texts(names@),
                    metas_view(listed@),
                    all_pairs(results@),
                    i,
                ),
        },
{
    let mut values: Vec<(String, String)> = Vec::new();
    let mut k: usize = 0;
    while k < results.len()
        invariant
            k <= results@.len(),
            first_error(results@.take(k as int)) is None,
            values_view(values@) == all_pairs(results@.take(k as int)),
        decreases results@.len() - k,
    {
        proof {
            assert(results@.take(k + 1).drop_last() =~= results@.take(k as int));
        }
        match &results[k] {
            Ok(pairs) => {
                let ghost before = values@;
                let mut j: usize = 0;
                while j < pairs.len()
                    invariant
                        j <= pairs@.len(),
                        values_view(values@) == values_view(before) + values_view(pairs@.take(j as int)),
                    decreases pairs@.len() - j,
                {
                    let ghost mid = values@;
                    values.push((pairs[j].0.clone(), pairs[j].1.clone()));
                    assert(values_view(values@) =~= values_view(mid).push(
                        (pairs@[j as int].0@, pairs@[j as int].1@),
                    ));
                    assert(values_view(pairs@.take(j + 1)) =~= values_view(pairs@.take(j as int)).push(
                        (pairs@[j as int].0@, pairs@[j as int].1@),
                    ));
                    j = j + 1;
                }
                assert(pairs@.take(pairs@.len() as int) =~= pairs@);
            },
            Err(e) => {
                assert(first_error(results@.take(k + 1)) == Some(e@));
                assert(first_error(results@) == Some(e@)) by {
                    lemma_first_error_prefix(results@, (k + 1) as int);
                }
                return Err(e.clone());
            },
        }
        k = k + 1;
    }
    assert(results@.take(results@.len() as int) =~= results@);
    let merged = merge_parameters(names, listed, &values);
    let count = names.len();
    Ok((merged, count, worker_count_for(count)))
}

/// An error among the first `k` results is the first error of them all.
proof fn lemma_first_error_prefix(results: Seq<Result<Vec<(String, String)>, String>>, k: int)
    requires
        0 <= k <= results.len(),
        first_error(results.take(k)) is Some,
    ensures
        first_error(results) == first_error(results.take(k)),
    decreases results.len() - k,
{
    if k < results.len() {
        assert(results.take(k + 1).drop_last() =~= results.take(k));
        assert(first_error(results.take(k + 1)) == first_error(results.take(k)));
        lemma_first_error_prefix(results, k + 1);
    } else {
        assert(results.take(k) =~= results);
    }
}

// ---------------------------------------------------------------------------
// Writing values
// ---------------------------------------------------------------------------
/// The kinds of parameter the store knows.
#[derive(Clone, Copy, PartialEq, Eq, Structural)]
pub enum ParamKind {
    /// `String`
    Plain,
    /// `StringList`
    List,
    /// `SecureString`
    Secure,
}

/// The kind to write a value as: the recorded type when it is one of the
/// three known names, otherwise a plain `String`.
pub open spec fn kind_for(recorded: Option<Seq<char>>) -> ParamKind {
    match recorded {
        Some(t) => if t == "StringList"@ {
            ParamKind::List
        } else if t == "SecureString"@ {
            ParamKind::Secure
        } else {
            ParamKind::Plain
        },
        None => ParamKind::Plain,
    }
}

/// The kind to write a value as, from the recorded type name.
pub fn map_parameter_type(recorded: Option<&str>) -> (k: ParamKind)
    ensures
        k == kind_for(
            match recorded {
                Some(t) => Some(t@),
                None => None,
            },
        ),
{
    match recorded {
        Some(t) => {
            if same_text(t, "StringList") {
                ParamKind::List
            } else if same_text(t, "SecureString") {
                ParamKind::Secure
            } else {
                ParamKind::Plain
            }
        },
        None => ParamKind::Plain,
    }
}

/// The encryption key to send with a write: the recorded key of a
/// `SecureString`, nothing for other types.
pub fn key_id_for_write(meta: &ParameterMeta) -> (r: Option<String>)
    ensures
        models::opt_text(r) == if models::opt_text(meta.param_type) == Some("SecureString"@) {
            models::opt_text(meta.key_id)
        } else {
            None
        },
{
    let secure = match &meta.param_type {
        Some(t) => same_text(t.as_str(), "SecureString"),
        None => false,
    };
    if secure {
        models::clone_opt(&meta.key_id)
    } else {
        None
    }
}

} // verus!
