//! Cursor movement and editing on a UTF-8 string whose cursor is a byte offset.
//!
//! Every function accepts a cursor past the end of the text and treats it as
//! the end of the text. Inside the text, the cursor must lie on a character
//! boundary: slicing the text elsewhere would panic.
//!
//! The model: the text is its sequence of characters, each character takes
//! `char_width` bytes, and a cursor is the byte offset of a character index.
use vstd::prelude::*;
use crate::strings::{chars_of, push_chars};
use vstd::utf8::{encode_scalar, encode_utf8, char_is_scalar};

verus! {

/// Number of bytes of the UTF-8 encoding of `c`.
pub open spec fn char_width(c: char) -> nat {
    if (c as u32) < 0x80 {
        1
    } else if (c as u32) < 0x800 {
        2
    } else if (c as u32) < 0x10000 {
        3
    } else {
        4
    }
}

/// Number of bytes of the UTF-8 encoding of `s`.
pub open spec fn byte_len(s: Seq<char>) -> nat
    decreases s.len(),
{
    if s.len() == 0 {
        0
    } else {
        byte_len(s.drop_last()) + char_width(s.last())
    }
}

/// Byte offset at which the character with index `k` starts
/// (for `k == s.len()`, the byte length of the whole text).
pub open spec fn offset(s: Seq<char>, k: int) -> nat {
    byte_len(s.take(k))
}

/// True when byte offset `b` lies between two characters of `s` (or at either end).
pub open spec fn is_boundary(s: Seq<char>, b: int) -> bool {
    exists|k: int| 0 <= k <= s.len() && offset(s, k) == b
}

/// The character index whose byte offset is `b`, for a boundary `b`.
pub open spec fn index_at(s: Seq<char>, b: int) -> int {
    choose|k: int| 0 <= k <= s.len() && offset(s, k) == b
}

/// A cursor clamped to the end of the text.
pub open spec fn clamp(s: Seq<char>, c: int) -> int {
    if c < byte_len(s) {
        c
    } else {
        byte_len(s) as int
    }
}

/// Character index of the first character of the line that holds position `k`.
pub open spec fn line_start_idx(s: Seq<char>, k: int) -> int
    decreases k,
{
    if k <= 0 {
        0
    } else if s[k - 1] == '\n' {
        k
    } else {
        line_start_idx(s, k - 1)
    }
}

/// Character index of the newline that ends the line holding position `k`,
/// or the length of the text when that line is the last one.
pub open spec fn line_end_idx(s: Seq<char>, k: int) -> int
    decreases s.len() - k,
{
    if k >= s.len() {
        s.len() as int
    } else if k >= 0 && s[k] == '\n' {
        k
    } else {
        line_end_idx(s, k + 1)
    }
}

/// Number of characters of `s` that start before byte offset `c`.
pub open spec fn chars_before(s: Seq<char>, c: int) -> nat
    decreases s.len(),
{
    if s.len() == 0 {
        0
    } else if offset(s, s.len() - 1) < c {
        s.len()
    } else {
        chars_before(s.drop_last(), c)
    }
}

/// Line and column reached after reading the characters of `p`: a newline
/// starts the next line at column zero, any other character advances the column.
pub open spec fn line_col_of(p: Seq<char>) -> (nat, nat)
    decreases p.len(),
{
    if p.len() == 0 {
        (0, 0)
    } else {
        let (l, c) = line_col_of(p.drop_last());
        if p.last() == '\n' {
            ((l + 1) as nat, 0)
        } else {
            (l, (c + 1) as nat)
        }
    }
}

pub proof fn lemma_char_width(c: char)
    ensures
        1 <= char_width(c) <= 4,
        encode_scalar(c as u32).len() == char_width(c),
{
    char_is_scalar(c);
}

pub proof fn lemma_byte_len_concat(a: Seq<char>, b: Seq<char>)
    ensures
        byte_len(a + b) == byte_len(a) + byte_len(b),
    decreases b.len(),
{
    if b.len() == 0 {
        assert(a + b =~= a);
    } else {
        assert((a + b).drop_last() =~= a + b.drop_last());
        assert((a + b).last() == b.last());
        lemma_byte_len_concat(a, b.drop_last());
    }
}

/// The byte length of the model agrees with the length of vstd's UTF-8 encoding.
pub proof fn lemma_encode_len(s: Seq<char>)
    ensures
        encode_utf8(s).len() == byte_len(s),
    decreases s.len(),
{
    if s.len() > 0 {
        lemma_encode_len(s.drop_first());
        lemma_char_width(s[0]);
        assert(seq![s[0]] + s.drop_first() =~= s);
        lemma_byte_len_concat(seq![s[0]], s.drop_first());
        let one = seq![s[0]];
        assert(one.drop_last() =~= Seq::<char>::empty());
        assert(byte_len(Seq::<char>::empty()) == 0);
        assert(byte_len(one) == char_width(s[0]));
        assert(encode_utf8(s) == encode_scalar(s[0] as u32) + encode_utf8(s.drop_first()));
    }
}

pub proof fn lemma_byte_len_ge_len(s: Seq<char>)
    ensures
        s.len() <= byte_len(s),
    decreases s.len(),
{
    if s.len() > 0 {
        lemma_byte_len_ge_len(s.drop_last());
        lemma_char_width(s.last());
    }
}

pub proof fn lemma_offset_step(s: Seq<char>, k: int)
    requires
        0 <= k < s.len(),
    ensures
        offset(s, k + 1) == offset(s, k) + char_width(s[k]),
{
    assert(s.take(k + 1).drop_last() =~= s.take(k));
}

pub proof fn lemma_offset_full(s: Seq<char>)
    ensures
        offset(s, s.len() as int) == byte_len(s),
        offset(s, 0) == 0,
{
    assert(s.take(s.len() as int) =~= s);
}

pub proof fn lemma_offset_mono(s: Seq<char>, i: int, j: int)
    requires
        0 <= i <= j <= s.len(),
    ensures
        offset(s, i) <= offset(s, j),
        i < j ==> offset(s, i) < offset(s, j),
    decreases j - i,
{
    if i < j {
        lemma_offset_mono(s, i, j - 1);
        lemma_offset_step(s, j - 1);
        lemma_char_width(s[j - 1]);
    }
}

pub proof fn lemma_offset_le_len(s: Seq<char>, k: int)
    requires
        0 <= k <= s.len(),
    ensures
        offset(s, k) <= byte_len(s),
        k <= offset(s, k),
{
    lemma_offset_mono(s, k, s.len() as int);
    lemma_offset_full(s);
    lemma_byte_len_ge_len(s.take(k));
}

pub proof fn lemma_index_at(s: Seq<char>, k: int)
    requires
        0 <= k <= s.len(),
    ensures
        is_boundary(s, offset(s, k) as int),
        index_at(s, offset(s, k) as int) == k,
{
    let b = offset(s, k) as int;
    assert(0 <= k <= s.len() && offset(s, k) == b);
    let j = index_at(s, b);
    if j < k {
        lemma_offset_mono(s, j, k);
    } else if k < j {
        lemma_offset_mono(s, k, j);
    }
}

/// The end of the text and its start are boundaries.
pub proof fn lemma_ends_are_boundaries(s: Seq<char>)
    ensures
        is_boundary(s, 0),
        is_boundary(s, byte_len(s) as int),
        index_at(s, 0) == 0,
        index_at(s, byte_len(s) as int) == s.len(),
{
    lemma_offset_full(s);
    lemma_index_at(s, 0);
    lemma_index_at(s, s.len() as int);
}

pub proof fn lemma_line_start_bounds(s: Seq<char>, k: int)
    requires
        0 <= k <= s.len(),
    ensures
        0 <= line_start_idx(s, k) <= k,
        line_start_idx(s, k) > 0 ==> s[line_start_idx(s, k) - 1] == '\n',
        forall|j: int| line_start_idx(s, k) <= j < k ==> s[j] != '\n',
    decreases k,
{
    if k > 0 && s[k - 1] != '\n' {
        lemma_line_start_bounds(s, k - 1);
    }
}

pub proof fn lemma_line_end_bounds(s: Seq<char>, k: int)
    requires
        0 <= k <= s.len(),
    ensures
        k <= line_end_idx(s, k) <= s.len(),
        line_end_idx(s, k) < s.len() ==> s[line_end_idx(s, k)] == '\n',
        forall|j: int| k <= j < line_end_idx(s, k) ==> s[j] != '\n',
    decreases s.len() - k,
{
    if k < s.len() && s[k] != '\n' {
        lemma_line_end_bounds(s, k + 1);
    }
}


/// The character index the (clamped) cursor sits at.
pub open spec fn cursor_index(s: Seq<char>, c: int) -> int {
    index_at(s, clamp(s, c))
}

/// Cursor one character to the left, or the start of the text.
pub open spec fn left_of(s: Seq<char>, c: int) -> int {
    let k = cursor_index(s, c);
    if k <= 0 {
        0
    } else {
        offset(s, k - 1) as int
    }
}

/// Cursor one character to the right, or the end of the text.
pub open spec fn right_of(s: Seq<char>, c: int) -> int {
    let k = cursor_index(s, c);
    if k >= s.len() {
        byte_len(s) as int
    } else {
        offset(s, k + 1) as int
    }
}

/// Cursor at the start of the current line.
pub open spec fn line_start_of(s: Seq<char>, c: int) -> int {
    offset(s, line_start_idx(s, cursor_index(s, c))) as int
}

/// Cursor at the end of the current line (on its newline, if it has one).
pub open spec fn line_end_of(s: Seq<char>, c: int) -> int {
    offset(s, line_end_idx(s, cursor_index(s, c))) as int
}

/// Column (in characters) of the cursor within its line.
pub open spec fn column_of(s: Seq<char>, c: int) -> int {
    cursor_index(s, c) - line_start_idx(s, cursor_index(s, c))
}

/// Cursor at column `col` of the line starting at character `start`,
/// or at the end of that line when the line is shorter.
pub open spec fn at_column(s: Seq<char>, start: int, col: int) -> int {
    let len = line_end_idx(s, start) - start;
    offset(s, start + if col < len { col } else { len }) as int
}

/// Cursor on the previous line at the same column (clamped to that line's end);
/// unchanged on the first line.
pub open spec fn up_of(s: Seq<char>, c: int) -> int {
    let k = cursor_index(s, c);
    let ls = line_start_idx(s, k);
    if ls == 0 {
        c
    } else {
        at_column(s, line_start_idx(s, ls - 1), k - ls)
    }
}

/// Cursor on the next line at the same column (clamped to that line's end);
/// unchanged on the last line.
pub open spec fn down_of(s: Seq<char>, c: int) -> int {
    let k = cursor_index(s, c);
    let le = line_end_idx(s, k);
    if le >= s.len() {
        c
    } else {
        at_column(s, le + 1, k - line_start_idx(s, k))
    }
}

/// Text and cursor after typing `ch` at the cursor.
pub open spec fn inserted(s: Seq<char>, c: int, ch: char) -> (Seq<char>, int) {
    let k = cursor_index(s, c);
    (s.take(k).push(ch) + s.skip(k), clamp(s, c) + char_width(ch))
}

/// Text and cursor after deleting the character before the cursor;
/// unchanged at the start of the text.
pub open spec fn backspaced(s: Seq<char>, c: int) -> (Seq<char>, int) {
    let k = cursor_index(s, c);
    if clamp(s, c) == 0 {
        (s, c)
    } else {
        (s.remove(k - 1), offset(s, k - 1) as int)
    }
}

/// Text and cursor after deleting the character under the cursor;
/// unchanged at the end of the text.
pub open spec fn deleted(s: Seq<char>, c: int) -> (Seq<char>, int) {
    let k = cursor_index(s, c);
    if clamp(s, c) >= byte_len(s) {
        (s, c)
    } else {
        (s.remove(k), clamp(s, c))
    }
}

/// The precondition of the cursor functions: the clamped cursor is a character boundary.
pub open spec fn cursor_ok(s: Seq<char>, c: int) -> bool {
    is_boundary(s, clamp(s, c))
}

fn width_of(c: char) -> (w: usize)
    ensures
        w == char_width(c),
{
    let v = c as u32;
    if v < 0x80 {
        1
    } else if v < 0x800 {
        2
    } else if v < 0x10000 {
        3
    } else {
        4
    }
}

/// The characters of `text` and its byte length.
fn text_model(text: &str) -> (res: (Vec<char>, usize))
    ensures
        res.0@ == text@,
        res.1 == byte_len(text@),
{
    let cs = chars_of(text);
    let total = text.as_bytes().len();
    proof {
        lemma_encode_len(text@);
    }
    (cs, total)
}

/// Character index of the boundary at byte offset `b`.
fn index_of_offset(cs: &Vec<char>, b: usize) -> (k: usize)
    requires
        is_boundary(cs@, b as int),
    ensures
        k == index_at(cs@, b as int),
        k <= cs@.len(),
        offset(cs@, k as int) == b,
{
    let ghost s = cs@;
    let ghost kb = index_at(s, b as int);
    let mut i: usize = 0;
    let mut acc: usize = 0;
    proof {
        lemma_offset_full(s);
    }
    while i < cs.len() && acc < b
        invariant
            s == cs@,
            0 <= kb <= s.len(),
            offset(s, kb) == b,
            i <= s.len(),
            acc == offset(s, i as int),
            acc <= b,
            i <= kb,
        decreases s.len() - i,
    {
        proof {
            lemma_offset_step(s, i as int);
            if i == kb {
                assert(false);
            }
            lemma_offset_mono(s, i as int + 1, kb);
        }
        acc = acc + width_of(cs[i]);
        i = i + 1;
    }
    proof {
        if acc < b {
            assert(i == s.len());
            lemma_offset_mono(s, kb, i as int);
        }
        lemma_index_at(s, i as int);
    }
    i
}

/// Byte offset of the character with index `k`.
fn offset_at(cs: &Vec<char>, k: usize) -> (b: usize)
    requires
        k <= cs@.len(),
        byte_len(cs@) <= usize::MAX,
    ensures
        b == offset(cs@, k as int),
{
    let mut i: usize = 0;
    let mut acc: usize = 0;
    proof {
        lemma_offset_full(cs@);
    }
    while i < k
        invariant
            k <= cs@.len(),
            byte_len(cs@) <= usize::MAX,
            i <= k,
            acc == offset(cs@, i as int),
        decreases k - i,
    {
        proof {
            lemma_offset_step(cs@, i as int);
            lemma_offset_le_len(cs@, i as int + 1);
        }
        acc = acc + width_of(cs[i]);
        i = i + 1;
    }
    acc
}

fn line_start_index(cs: &Vec<char>, k: usize) -> (r: usize)
    requires
        k <= cs@.len(),
    ensures
        r == line_start_idx(cs@, k as int),
{
    let mut i = k;
    while i > 0 && cs[i - 1] != '\n'
        invariant
            i <= k <= cs@.len(),
            line_start_idx(cs@, i as int) == line_start_idx(cs@, k as int),
        decreases i,
    {
        i = i - 1;
    }
    i
}

fn line_end_index(cs: &Vec<char>, k: usize) -> (r: usize)
    requires
        k <= cs@.len(),
    ensures
        r == line_end_idx(cs@, k as int),
{
    let mut i = k;
    while i < cs.len() && cs[i] != '\n'
        invariant
            k <= i <= cs@.len(),
            line_end_idx(cs@, i as int) == line_end_idx(cs@, k as int),
        decreases cs@.len() - i,
    {
        i = i + 1;
    }
    i
}

/// Byte offset of the character boundary before `idx`.
fn prev_char_boundary(cs: &Vec<char>, idx: usize) -> (r: usize)
    requires
        is_boundary(cs@, idx as int),
        byte_len(cs@) <= usize::MAX,
    ensures
        index_at(cs@, idx as int) == 0 ==> r == 0,
        index_at(cs@, idx as int) > 0 ==> r == offset(cs@, index_at(cs@, idx as int) - 1),
{
    if idx == 0 {
        proof {
            lemma_offset_full(cs@);
            lemma_index_at(cs@, 0);
        }
        return 0;
    }
    let k = index_of_offset(cs, idx);
    if k == 0 {
        0
    } else {
        offset_at(cs, k - 1)
    }
}

/// Byte offset of the character boundary after `idx`.
fn next_char_boundary(cs: &Vec<char>, idx: usize, total: usize) -> (r: usize)
    requires
        is_boundary(cs@, idx as int),
        total == byte_len(cs@),
    ensures
        index_at(cs@, idx as int) >= cs@.len() ==> r == total,
        index_at(cs@, idx as int) < cs@.len() ==> r == offset(cs@, index_at(cs@, idx as int) + 1),
{
    let k = index_of_offset(cs, idx);
    if k >= cs.len() {
        total
    } else {
        offset_at(cs, k + 1)
    }
}

/// Byte offset of the start of the line holding the boundary `idx`.
fn line_start(cs: &Vec<char>, idx: usize) -> (r: usize)
    requires
        is_boundary(cs@, idx as int),
        byte_len(cs@) <= usize::MAX,
    ensures
        r == offset(cs@, line_start_idx(cs@, index_at(cs@, idx as int))),
{
    let k = index_of_offset(cs, idx);
    let j = line_start_index(cs, k);
    proof {
        lemma_line_start_bounds(cs@, k as int);
    }
    offset_at(cs, j)
}

/// Byte offset of the end of the line holding the boundary `idx`.
fn line_end(cs: &Vec<char>, idx: usize) -> (r: usize)
    requires
        is_boundary(cs@, idx as int),
        byte_len(cs@) <= usize::MAX,
    ensures
        r == offset(cs@, line_end_idx(cs@, index_at(cs@, idx as int))),
{
    let k = index_of_offset(cs, idx);
    let j = line_end_index(cs, k);
    proof {
        lemma_line_end_bounds(cs@, k as int);
    }
    offset_at(cs, j)
}

/// Column of the boundary `idx` within its line.
fn col_in_line(cs: &Vec<char>, idx: usize) -> (r: usize)
    requires
        is_boundary(cs@, idx as int),
    ensures
        r == index_at(cs@, idx as int) - line_start_idx(cs@, index_at(cs@, idx as int)),
{
    let k = index_of_offset(cs, idx);
    let j = line_start_index(cs, k);
    proof {
        lemma_line_start_bounds(cs@, k as int);
    }
    k - j
}

/// Byte offset of column `target_col` on the line starting at character `start`.
fn byte_index_for_col(cs: &Vec<char>, start: usize, target_col: usize) -> (r: usize)
    requires
        start <= cs@.len(),
        byte_len(cs@) <= usize::MAX,
    ensures
        r == at_column(cs@, start as int, target_col as int),
{
    let end = line_end_index(cs, start);
    proof {
        lemma_line_end_bounds(cs@, start as int);
    }
    let len = end - start;
    if target_col < len {
        offset_at(cs, start + target_col)
    } else {
        offset_at(cs, end)
    }
}

/// The (line, column) of the cursor, both counted from zero: the line is the
/// number of newlines before the cursor and the column the number of characters
/// since the last of them.
pub fn line_col_at_cursor(text: &str, cursor: usize) -> (res: (usize, usize))
    ensures
        (res.0 as nat, res.1 as nat) == line_col_of(text@.take(chars_before(text@, cursor as int) as int)),
{
    let (cs, total) = text_model(text);
    let ghost s = cs@;
    let mut line: usize = 0;
    let mut col: usize = 0;
    let mut i: usize = 0;
    let mut acc: usize = 0;
    proof {
        lemma_offset_full(s);
        assert(s.take(0) =~= Seq::<char>::empty());
    }
    while i < cs.len() && acc < cursor
        invariant
            s == cs@,
            s == text@,
            total == byte_len(s),
            i <= s.len(),
            acc == offset(s, i as int),
            i > 0 ==> offset(s, i - 1) < cursor,
            (line as nat, col as nat) == line_col_of(s.take(i as int)),
            line <= i,
            col <= i,
        decreases s.len() - i,
    {
        let ch = cs[i];
        if ch == '\n' {
            line = line + 1;
            col = 0;
        } else {
            col = col + 1;
        }
        proof {
            assert(s.take(i + 1).drop_last() =~= s.take(i as int));
            lemma_offset_step(s, i as int);
            lemma_offset_le_len(s, i as int + 1);
        }
        acc = acc + width_of(ch);
        i = i + 1;
    }
    proof {
        lemma_chars_before(s, cursor as int, i as int);
    }
    (line, col)
}

/// `chars_before` is the first index whose offset reaches the cursor.
proof fn lemma_chars_before(s: Seq<char>, c: int, m: int)
    requires
        0 <= m <= s.len(),
        m > 0 ==> offset(s, m - 1) < c,
        m < s.len() ==> offset(s, m) >= c,
    ensures
        chars_before(s, c) == m,
    decreases s.len(),
{
    if s.len() > 0 {
        let n = s.len() as int;
        if m < n {
            let t = s.drop_last();
            assert forall|j: int| 0 <= j <= t.len() implies offset(t, j) == offset(s, j) by {
                assert(t.take(j) =~= s.take(j));
            }
            lemma_offset_mono(s, m, n - 1);
            lemma_chars_before(t, c, m);
        }
    }
}

/// Moves the cursor one character to the left.
pub fn move_cursor_left(text: &str, cursor: &mut usize)
    requires
        cursor_ok(text@, *old(cursor) as int),
    ensures
        *final(cursor) == left_of(text@, *old(cursor) as int),
{
    let (cs, total) = text_model(text);
    let cur = if *cursor < total { *cursor } else { total };
    *cursor = prev_char_boundary(&cs, cur);
}

/// Moves the cursor one character to the right.
pub fn move_cursor_right(text: &str, cursor: &mut usize)
    requires
        cursor_ok(text@, *old(cursor) as int),
    ensures
        *final(cursor) == right_of(text@, *old(cursor) as int),
{
    let (cs, total) = text_model(text);
    let cur = if *cursor < total { *cursor } else { total };
    *cursor = next_char_boundary(&cs, cur, total);
}

/// Moves the cursor to the start of its line.
pub fn move_cursor_line_start(text: &str, cursor: &mut usize)
    requires
        cursor_ok(text@, *old(cursor) as int),
    ensures
        *final(cursor) == line_start_of(text@, *old(cursor) as int),
{
    let (cs, total) = text_model(text);
    let cur = if *cursor < total { *cursor } else { total };
    *cursor = line_start(&cs, cur);
}

/// Moves the cursor to the end of its line.
pub fn move_cursor_line_end(text: &str, cursor: &mut usize)
    requires
        cursor_ok(text@, *old(cursor) as int),
    ensures
        *final(cursor) == line_end_of(text@, *old(cursor) as int),
{
    let (cs, total) = text_model(text);
    let cur = if *cursor < total { *cursor } else { total };
    *cursor = line_end(&cs, cur);
}

/// Moves the cursor to the same column of the previous line.
pub fn move_cursor_up(text: &str, cursor: &mut usize)
    requires
        cursor_ok(text@, *old(cursor) as int),
    ensures
        *final(cursor) == up_of(text@, *old(cursor) as int),
{
    let (cs, total) = text_model(text);
    let cur = if *cursor < total { *cursor } else { total };
    let k = index_of_offset(&cs, cur);
    let ls = line_start_index(&cs, k);
    proof {
        lemma_line_start_bounds(cs@, k as int);
    }
    if ls == 0 {
        return;
    }
    let target_col = k - ls;
    let prev_start = line_start_index(&cs, ls - 1);
    proof {
        lemma_line_start_bounds(cs@, ls - 1);
    }
    *cursor = byte_index_for_col(&cs, prev_start, target_col);
}

/// Moves the cursor to the same column of the next line.
pub fn move_cursor_down(text: &str, cursor: &mut usize)
    requires
        cursor_ok(text@, *old(cursor) as int),
    ensures
        *final(cursor) == down_of(text@, *old(cursor) as int),
{
    let (cs, total) = text_model(text);
    let cur = if *cursor < total { *cursor } else { total };
    let k = index_of_offset(&cs, cur);
    let le = line_end_index(&cs, k);
    proof {
        lemma_line_end_bounds(cs@, k as int);
        lemma_line_start_bounds(cs@, k as int);
    }
    if le >= cs.len() {
        return;
    }
    let target_col = col_in_line(&cs, cur);
    *cursor = byte_index_for_col(&cs, le + 1, target_col);
}

/// Inserts `ch` at the cursor and moves the cursor past it.
pub fn insert_char_at_cursor(text: &mut String, cursor: &mut usize, ch: char)
    requires
        cursor_ok(old(text)@, *old(cursor) as int),
    ensures
        (final(text)@, *final(cursor) as int) == inserted(old(text)@, *old(cursor) as int, ch),
{
    let (cs, total) = text_model(text.as_str());
    let cur = if *cursor < total { *cursor } else { total };
    let k = index_of_offset(&cs, cur);
    let mut out = String::new();
    push_chars(&mut out, &cs, 0, k);
    out.push(ch);
    push_chars(&mut out, &cs, k, cs.len());
    let ghost s = cs@;
    proof {
        assert(s.subrange(0, k as int) =~= s.take(k as int));
        assert(s.subrange(k as int, s.len() as int) =~= s.skip(k as int));
    }
    let new_total = out.as_str().as_bytes().len();
    proof {
        lemma_encode_len(out@);
        let t = out@;
        assert(t.take(k + 1) =~= s.take(k as int).push(ch));
        assert(s.take(k as int).push(ch).drop_last() =~= s.take(k as int));
        lemma_offset_le_len(t, k + 1);
    }
    *text = out;
    *cursor = cur + width_of(ch);
}

/// Deletes the character before the cursor and moves the cursor onto its place.
pub fn backspace_at_cursor(text: &mut String, cursor: &mut usize)
    requires
        cursor_ok(old(text)@, *old(cursor) as int),
    ensures
        (final(text)@, *final(cursor) as int) == backspaced(old(text)@, *old(cursor) as int),
{
    let (cs, total) = text_model(text.as_str());
    let cur = if *cursor < total { *cursor } else { total };
    if cur == 0 {
        return;
    }
    let k = index_of_offset(&cs, cur);
    proof {
        lemma_offset_full(cs@);
    }
    let prev = offset_at(&cs, k - 1);
    let mut out = String::new();
    push_chars(&mut out, &cs, 0, k - 1);
    push_chars(&mut out, &cs, k, cs.len());
    proof {
        assert(cs@.subrange(0, k - 1) + cs@.subrange(k as int, cs@.len() as int) =~= cs@.remove(
            k - 1,
        ));
    }
    *text = out;
    *cursor = prev;
}

/// Deletes the character under the cursor; the cursor stays in place.
pub fn delete_at_cursor(text: &mut String, cursor: &mut usize)
    requires
        cursor_ok(old(text)@, *old(cursor) as int),
    ensures
        (final(text)@, *final(cursor) as int) == deleted(old(text)@, *old(cursor) as int),
{
    let (cs, total) = text_model(text.as_str());
    let cur = if *cursor < total { *cursor } else { total };
    if cur >= total {
        return;
    }
    let k = index_of_offset(&cs, cur);
    proof {
        lemma_offset_full(cs@);
        if k == cs@.len() {
            assert(false);
        }
    }
    let mut out = String::new();
    push_chars(&mut out, &cs, 0, k);
    push_chars(&mut out, &cs, k + 1, cs.len());
    proof {
        assert(cs@.subrange(0, k as int) + cs@.subrange(k + 1, cs@.len() as int) =~= cs@.remove(
            k as int,
        ));
    }
    *text = out;
    *cursor = cur;
}

/// Offsets in a text with one character inserted at index `k` agree with the
/// original up to `k`, and the inserted character shifts the next one by its width.
proof fn lemma_insert_offsets(s: Seq<char>, k: int, ch: char)
    requires
        0 <= k <= s.len(),
    ensures
        ({
            let t = s.take(k).push(ch) + s.skip(k);
            &&& t.len() == s.len() + 1
            &&& forall|j: int| 0 <= j <= k ==> #[trigger] offset(t, j) == offset(s, j)
            &&& offset(t, k + 1) == offset(s, k) + char_width(ch)
            &&& t.remove(k) == s
            &&& t[k] == ch
        }),
{
    let t = s.take(k).push(ch) + s.skip(k);
    assert forall|j: int| 0 <= j <= k implies #[trigger] offset(t, j) == offset(s, j) by {
        assert(t.take(j) =~= s.take(j));
    }
    assert(t.take(k + 1).drop_last() =~= s.take(k));
    assert(t.remove(k) =~= s);
}

/// Where the cursor is a boundary, it is the offset of its index.
proof fn lemma_cursor_index(s: Seq<char>, c: int)
    requires
        cursor_ok(s, c),
    ensures
        0 <= cursor_index(s, c) <= s.len(),
        offset(s, cursor_index(s, c)) == clamp(s, c),
        0 <= clamp(s, c) <= byte_len(s),
{
    lemma_offset_full(s);
}

/// Every position a movement produces is a character boundary of the text,
/// so the result is again a valid cursor for every function of this module.
pub proof fn law_moves_stay_on_boundaries(s: Seq<char>, c: int)
    requires
        cursor_ok(s, c),
        0 <= c,
    ensures
        cursor_ok(s, left_of(s, c)),
        cursor_ok(s, right_of(s, c)),
        cursor_ok(s, line_start_of(s, c)),
        cursor_ok(s, line_end_of(s, c)),
        cursor_ok(s, up_of(s, c)),
        cursor_ok(s, down_of(s, c)),
{
    lemma_cursor_index(s, c);
    let k = cursor_index(s, c);
    lemma_offset_full(s);
    assert forall|j: int| 0 <= j <= s.len() implies #[trigger] cursor_ok(s, offset(s, j) as int) by {
        lemma_offset_le_len(s, j);
        lemma_index_at(s, j);
    }
    if k > 0 {
        assert(cursor_ok(s, offset(s, k - 1) as int));
    } else {
        assert(cursor_ok(s, offset(s, 0) as int));
    }
    if k < s.len() {
        assert(cursor_ok(s, offset(s, k + 1) as int));
    } else {
        assert(cursor_ok(s, offset(s, s.len() as int) as int));
    }
    lemma_line_start_bounds(s, k);
    lemma_line_end_bounds(s, k);
    assert(cursor_ok(s, offset(s, line_start_idx(s, k)) as int));
    assert(cursor_ok(s, offset(s, line_end_idx(s, k)) as int));
    let ls = line_start_idx(s, k);
    if ls > 0 {
        lemma_line_start_bounds(s, ls - 1);
        let p = line_start_idx(s, ls - 1);
        lemma_line_end_bounds(s, p);
        let len = line_end_idx(s, p) - p;
        let tgt = p + if k - ls < len { k - ls } else { len };
        assert(cursor_ok(s, offset(s, tgt) as int));
    }
    let le = line_end_idx(s, k);
    if le < s.len() {
        lemma_line_end_bounds(s, le + 1);
        let len = line_end_idx(s, le + 1) - (le + 1);
        let tgt = le + 1 + if k - ls < len { k - ls } else { len };
        assert(cursor_ok(s, offset(s, tgt) as int));
    }
}

/// Typing a character and then deleting backwards gives back the text, with the
/// cursor where the character was typed.
pub proof fn law_insert_then_backspace(s: Seq<char>, c: int, ch: char)
    requires
        cursor_ok(s, c),
    ensures
        cursor_ok(inserted(s, c, ch).0, inserted(s, c, ch).1),
        backspaced(inserted(s, c, ch).0, inserted(s, c, ch).1) == (s, clamp(s, c)),
{
    lemma_cursor_index(s, c);
    let k = cursor_index(s, c);
    lemma_insert_offsets(s, k, ch);
    let t = inserted(s, c, ch).0;
    let c2 = inserted(s, c, ch).1;
    lemma_char_width(ch);
    lemma_offset_le_len(t, k + 1);
    lemma_index_at(t, k + 1);
    assert(clamp(t, c2) == c2);
}

/// Typing a character, stepping left over it and deleting forwards gives back
/// the text, with the cursor where the character was typed.
pub proof fn law_insert_left_delete(s: Seq<char>, c: int, ch: char)
    requires
        cursor_ok(s, c),
    ensures
        ({
            let (t, c2) = inserted(s, c, ch);
            let c3 = left_of(t, c2);
            cursor_ok(t, c3) && deleted(t, c3) == (s, clamp(s, c))
        }),
{
    lemma_cursor_index(s, c);
    let k = cursor_index(s, c);
    lemma_insert_offsets(s, k, ch);
    let t = inserted(s, c, ch).0;
    let c2 = inserted(s, c, ch).1;
    lemma_char_width(ch);
    lemma_offset_le_len(t, k + 1);
    lemma_index_at(t, k + 1);
    assert(clamp(t, c2) == c2);
    let c3 = left_of(t, c2);
    assert(c3 == offset(t, k));
    lemma_offset_le_len(t, k);
    lemma_index_at(t, k);
    lemma_offset_mono(t, k, k + 1);
    lemma_offset_le_len(t, k + 1);
    assert(clamp(t, c3) == c3);
}

/// Stepping right and then left returns to the cursor, except at the end of the text.
pub proof fn law_right_then_left(s: Seq<char>, c: int)
    requires
        cursor_ok(s, c),
        clamp(s, c) < byte_len(s),
    ensures
        left_of(s, right_of(s, c)) == clamp(s, c),
{
    lemma_cursor_index(s, c);
    let k = cursor_index(s, c);
    lemma_offset_full(s);
    if k == s.len() {
        assert(false);
    }
    lemma_offset_le_len(s, k + 1);
    lemma_index_at(s, k + 1);
}

/// Stepping left and then right returns to the cursor, except at the start of the text.
pub proof fn law_left_then_right(s: Seq<char>, c: int)
    requires
        cursor_ok(s, c),
        clamp(s, c) > 0,
    ensures
        right_of(s, left_of(s, c)) == clamp(s, c),
{
    lemma_cursor_index(s, c);
    let k = cursor_index(s, c);
    lemma_offset_full(s);
    if k == 0 {
        assert(false);
    }
    lemma_offset_le_len(s, k - 1);
    lemma_index_at(s, k - 1);
}

/// On a character boundary, the column that `line_col_at_cursor` reports is the
/// column that vertical movement keeps, and its line is the number of newlines
/// before the cursor's line start.
pub proof fn law_line_col_matches_column(s: Seq<char>, c: int)
    requires
        cursor_ok(s, c),
        0 <= c <= byte_len(s),
    ensures
        chars_before(s, c) == cursor_index(s, c),
        line_col_of(s.take(cursor_index(s, c))).1 == column_of(s, c),
{
    lemma_cursor_index(s, c);
    let k = cursor_index(s, c);
    lemma_offset_full(s);
    if k > 0 {
        lemma_offset_mono(s, k - 1, k);
    }
    lemma_chars_before(s, c, k);
    lemma_line_col_column(s, k);
}

proof fn lemma_line_col_column(s: Seq<char>, k: int)
    requires
        0 <= k <= s.len(),
    ensures
        line_col_of(s.take(k)).1 == k - line_start_idx(s, k),
    decreases k,
{
    if k > 0 {
        assert(s.take(k).drop_last() =~= s.take(k - 1));
        lemma_line_col_column(s, k - 1);
    }
}

/// A cursor that is valid and not past the end of its text.
pub open spec fn cursor_within(s: Seq<char>, c: int) -> bool {
    cursor_ok(s, c) && 0 <= c <= byte_len(s)
}

/// Every movement maps a cursor within its text to a cursor within the text.
pub proof fn law_moves_stay_within(s: Seq<char>, c: int)
    requires
        cursor_within(s, c),
    ensures
        cursor_within(s, left_of(s, c)),
        cursor_within(s, right_of(s, c)),
        cursor_within(s, line_start_of(s, c)),
        cursor_within(s, line_end_of(s, c)),
        cursor_within(s, up_of(s, c)),
        cursor_within(s, down_of(s, c)),
{
    law_moves_stay_on_boundaries(s, c);
    lemma_cursor_index(s, c);
    let k = cursor_index(s, c);
    lemma_offset_full(s);
    if k > 0 {
        lemma_offset_le_len(s, k - 1);
    }
    if k < s.len() {
        lemma_offset_le_len(s, k + 1);
    }
    lemma_line_start_bounds(s, k);
    lemma_line_end_bounds(s, k);
    lemma_offset_le_len(s, line_start_idx(s, k));
    lemma_offset_le_len(s, line_end_idx(s, k));
    let ls = line_start_idx(s, k);
    if ls > 0 {
        lemma_line_start_bounds(s, ls - 1);
        let p = line_start_idx(s, ls - 1);
        lemma_line_end_bounds(s, p);
        let len = line_end_idx(s, p) - p;
        let tgt = p + if k - ls < len { k - ls } else { len };
        lemma_offset_le_len(s, tgt);
    }
    let le = line_end_idx(s, k);
    if le < s.len() {
        lemma_line_end_bounds(s, le + 1);
        let len = line_end_idx(s, le + 1) - (le + 1);
        let tgt = le + 1 + if k - ls < len { k - ls } else { len };
        lemma_offset_le_len(s, tgt);
    }
}

/// Typing maps a cursor within its text to a cursor within the new text.
pub proof fn law_insert_stays_within(s: Seq<char>, c: int, ch: char)
    requires
        cursor_within(s, c),
    ensures
        cursor_within(inserted(s, c, ch).0, inserted(s, c, ch).1),
        inserted(s, c, ch).1 <= byte_len(s) + 4,
{
    lemma_char_width(ch);
    law_insert_then_backspace(s, c, ch);
    lemma_cursor_index(s, c);
    let k = cursor_index(s, c);
    let t = inserted(s, c, ch).0;
    lemma_insert_offsets(s, k, ch);
    lemma_offset_le_len(t, k + 1);
}

/// Deleting backwards maps a cursor within its text to a cursor within the new text.
pub proof fn law_backspace_stays_within(s: Seq<char>, c: int)
    requires
        cursor_within(s, c),
    ensures
        cursor_within(backspaced(s, c).0, backspaced(s, c).1),
        backspaced(s, c).1 <= byte_len(s),
{
    lemma_cursor_index(s, c);
    let k = cursor_index(s, c);
    lemma_offset_full(s);
    if clamp(s, c) != 0 {
        if k == 0 {
            assert(false);
        }
        let r = s.remove(k - 1);
        assert(r.take(k - 1) =~= s.take(k - 1));
        lemma_offset_le_len(r, k - 1);
        lemma_index_at(r, k - 1);
        lemma_offset_le_len(s, k - 1);
    }
}

/// Deleting forwards maps a cursor within its text to a cursor within the new text.
pub proof fn law_delete_stays_within(s: Seq<char>, c: int)
    requires
        cursor_within(s, c),
    ensures
        cursor_within(deleted(s, c).0, deleted(s, c).1),
        deleted(s, c).1 <= byte_len(s),
{
    lemma_cursor_index(s, c);
    let k = cursor_index(s, c);
    lemma_offset_full(s);
    if clamp(s, c) < byte_len(s) {
        if k == s.len() {
            assert(false);
        }
        let r = s.remove(k);
        assert(r.take(k) =~= s.take(k));
        lemma_offset_le_len(r, k);
        lemma_index_at(r, k);
    }
}

/// The empty text with the cursor at zero.
pub proof fn lemma_empty_within()
    ensures
        cursor_within(Seq::empty(), 0),
{
    lemma_ends_are_boundaries(Seq::empty());
}

} // verus!
