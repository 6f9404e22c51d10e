//! What the screen shows, computed from the state: the rows of the list that
//! fit, the lines of the value editor that fit, and the texts of the panels.
use vstd::prelude::*;
use crate::app;
use crate::app::{App, AppView};
use crate::models;
use crate::models::CreateField;
use crate::text_edit;
use crate::strings;
use crate::strings::{chars_of, concat, concat3, i64_to_string, push_chars, trim, usize_to_string};

verus! {

/// `a - b`, or zero when `b > a`.
pub open spec fn sat_sub(a: int, b: int) -> int {
    if a >= b {
        a - b
    } else {
        0
    }
}

/// The list rows shown in a panel `height` rows high: `start..end`, keeping
/// the selection on the last visible row once it scrolls, and filling the
/// panel when the list is long enough.
pub open spec fn list_window_spec(selected: int, height: int, total: int) -> (int, int) {
    let s0 = sat_sub(selected, sat_sub(height, 1));
    let start = if s0 + height > total {
        sat_sub(total, height)
    } else {
        s0
    };
    (start, if start + height < total { start + height } else { total })
}

/// The rows of the list shown in a panel `height` rows high.
pub fn list_window(selected: usize, height: usize, total: usize) -> (r: (usize, usize))
    ensures
        (r.0 as int, r.1 as int) == list_window_spec(selected as int, height as int, total as int),
{
    let h1 = if height >= 1 { height - 1 } else { 0 };
    let mut start = if selected >= h1 { selected - h1 } else { 0 };
    if height > total || start > total - height {
        start = if total >= height { total - height } else { 0 };
    }
    let end = if height < total - start { start + height } else { total };
    (start, end)
}

/// The selected row is always among the rows shown, and no more rows are shown
/// than fit.
pub proof fn law_selected_row_visible(selected: int, height: int, total: int)
    requires
        0 <= selected < total,
        height > 0,
    ensures
        list_window_spec(selected, height, total).0 <= selected < list_window_spec(selected, height, total).1,
        list_window_spec(selected, height, total).1 <= total,
        list_window_spec(selected, height, total).1 - list_window_spec(selected, height, total).0 <= height,
{
}

/// The lines of `s`, split at each newline (an empty text is one empty line).
pub open spec fn lines_of(s: Seq<char>) -> Seq<Seq<char>>
    decreases s.len(),
{
    if s.len() == 0 {
        seq![Seq::empty()]
    } else {
        let ls = lines_of(s.drop_last());
        if s.last() == '\n' {
            ls.push(Seq::empty())
        } else {
            ls.update(ls.len() - 1, ls.last().push(s.last()))
        }
    }
}

/// Number of newlines in `s`.
pub open spec fn newlines(s: Seq<char>) -> nat
    decreases s.len(),
{
    if s.len() == 0 {
        0
    } else if s.last() == '\n' {
        newlines(s.drop_last()) + 1
    } else {
        newlines(s.drop_last())
    }
}

/// A text has one more line than it has newlines.
pub proof fn law_line_count(s: Seq<char>)
    ensures
        lines_of(s).len() == newlines(s) + 1,
    decreases s.len(),
{
    if s.len() > 0 {
        law_line_count(s.drop_last());
    }
}

/// `str::split('\n')`: the lines of `text`.
pub fn split_lines(text: &str) -> (r: Vec<String>)
    ensures
        app::texts(r@) == lines_of(text@),
{
    let cs = chars_of(text);
    let mut lines: Vec<String> = Vec::new();
    let mut start: usize = 0;
    let mut i: usize = 0;
    let ghost s = cs@;
    proof {
        assert(s.take(0) =~= Seq::<char>::empty());
        assert(lines_of(s.take(0)) == seq![Seq::<char>::empty()]);
        assert(app::texts(lines@).push(s.subrange(0, 0)) =~= seq![Seq::<char>::empty()]);
    }
    while i < cs.len()
        invariant
            s == cs@,
            start <= i <= s.len(),
            start == 0 || s[start - 1] == '\n',
            forall|j: int| start <= j < i ==> s[j] != '\n',
            app::texts(lines@).push(s.subrange(start as int, i as int)) == lines_of(s.take(i as int)),
        decreases s.len() - i,
    {
        proof {
            let t = s.take(i + 1);
            assert(t.drop_last() =~= s.take(i as int));
            assert(t.last() == s[i as int]);
        }
        if cs[i] == '\n' {
            let mut line = String::new();
            push_chars(&mut line, &cs, start, i);
            lines.push(line);
            proof {
                assert(line@ =~= s.subrange(start as int, i as int));
                assert(s.subrange(i + 1, i + 1) =~= Seq::<char>::empty());
                assert(app::texts(lines@) =~= app::texts(lines@.drop_last()).push(line@));
            }
            start = i + 1;
        } else {
            proof {
                let prev = app::texts(lines@).push(s.subrange(start as int, i as int));
                assert(s.subrange(start as int, i + 1) =~= s.subrange(start as int, i as int).push(
                    s[i as int],
                ));
                assert(app::texts(lines@).push(s.subrange(start as int, i + 1)) =~= prev.update(
                    prev.len() - 1,
                    prev.last().push(s[i as int]),
                ));
            }
        }
        i = i + 1;
    }
    let mut last = String::new();
    push_chars(&mut last, &cs, start, cs.len());
    lines.push(last);
    proof {
        assert(s.take(s.len() as int) =~= s);
        assert(app::texts(lines@) =~= app::texts(lines@.drop_last()).push(last@));
    }
    lines
}

/// The editor lines shown in a box `height` rows high: from `start` on, so
/// that the cursor's line is the last visible one once it scrolls.
pub open spec fn value_window_spec(cursor_line: int, line_count: int, height: int) -> (int, int) {
    let start = sat_sub(cursor_line, sat_sub(height, 1));
    (start, if start + height < line_count { start + height } else { line_count })
}

/// The editor lines shown in a box `height` rows high.
pub fn value_window(cursor_line: usize, line_count: usize, height: usize) -> (r: (usize, usize))
    ensures
        (r.0 as int, r.1 as int) == value_window_spec(cursor_line as int, line_count as int, height as int),
{
    let h1 = if height >= 1 { height - 1 } else { 0 };
    let start = if cursor_line >= h1 { cursor_line - h1 } else { 0 };
    let end = if start < line_count && height < line_count - start { start + height } else { line_count };
    (start, end)
}

/// The cursor's line is among the editor lines shown.
pub proof fn law_cursor_line_visible(cursor_line: int, line_count: int, height: int)
    requires
        0 <= cursor_line < line_count,
        height > 0,
    ensures
        value_window_spec(cursor_line, line_count, height).0 <= cursor_line < value_window_spec(
            cursor_line,
            line_count,
            height,
        ).1,
{
}

/// The value panel: the selected value, or what is known about it.
pub open spec fn value_panel_spec(v: AppView) -> Seq<char> {
    match app::selected_index(v) {
        Some(i) => match v.params[i].value {
            Some(val) => val,
            None => if v.pending.contains(v.params[i].name) {
                "Loading value from SSM in background..."@
            } else {
                "Value not loaded yet..."@
            },
        },
        None => "No selection"@,
    }
}

/// A field of the header: the text, or `fallback` when absent.
pub open spec fn or_else(o: Option<Seq<char>>, fallback: Seq<char>) -> Seq<char> {
    match o {
        Some(t) => t,
        None => fallback,
    }
}

/// A number field of the header: its decimal text, or `-` when absent.
pub open spec fn number_or_dash(o: Option<i64>) -> Seq<char> {
    match o {
        Some(n) => strings::signed_decimal(n as int),
        None => "-"@,
    }
}

/// The texts of the header describing the selected parameter.
pub struct HeaderFields {
    pub name: String,
    pub param_type: String,
    pub version: String,
    pub tier: String,
    pub data_type: String,
    pub last_modified: String,
    pub key_id: String,
    pub description: String,
    pub last_modified_user: String,
}

/// The header describes the selected parameter; absent fields show `-`
/// (a missing description shows `No description`), and so does everything
/// when nothing is selected.
pub open spec fn header_ok(v: AppView, h: HeaderFields) -> bool {
    let sel = app::selected_index(v);
    let m = match sel {
        Some(i) => Some(v.params[i].meta),
        None => None,
    };
    &&& h.name@ == match sel {
        Some(i) => v.params[i].name,
        None => "-"@,
    }
    &&& h.param_type@ == or_else(
        match m {
            Some(m) => m.param_type,
            None => None,
        },
        "-"@,
    )
    &&& h.version@ == number_or_dash(
        match m {
            Some(m) => m.version,
            None => None,
        },
    )
    &&& h.tier@ == or_else(
        match m {
            Some(m) => m.tier,
            None => None,
        },
        "-"@,
    )
    &&& h.data_type@ == or_else(
        match m {
            Some(m) => m.data_type,
            None => None,
        },
        "-"@,
    )
    &&& h.last_modified@ == number_or_dash(
        match m {
            Some(m) => m.last_modified_epoch,
            None => None,
        },
    )
    &&& h.key_id@ == or_else(
        match m {
            Some(m) => m.key_id,
            None => None,
        },
        "-"@,
    )
    &&& h.description@ == or_else(
        match m {
            Some(m) => m.description,
            None => None,
        },
        "No description"@,
    )
    &&& h.last_modified_user@ == or_else(
        match m {
            Some(m) => m.last_modified_user,
            None => None,
        },
        "-"@,
    )
}

fn text_or(o: &Option<String>, fallback: &str) -> (r: String)
    ensures
        r@ == or_else(models::opt_text(*o), fallback@),
{
    match o {
        Some(t) => t.clone(),
        None => fallback.to_owned(),
    }
}

fn number_or_dash_text(o: Option<i64>) -> (r: String)
    ensures
        r@ == number_or_dash(o),
{
    match o {
        Some(n) => i64_to_string(n),
        None => "-".to_owned(),
    }
}

/// The line above the list: the mode, the query and how many entries are shown.
pub open spec fn filter_line_spec(v: AppView) -> Seq<char> {
    (if v.search_mode {
        "SEARCH"@
    } else {
        "FILTER"@
    }) + ": /"@ + v.query + "    Total: "@ + strings::decimal(v.filtered.len())
}

/// What the name field of the popup shows: the name, or an example when blank.
pub open spec fn name_field_spec(v: AppView) -> Seq<char> {
    if strings::trimmed(v.create_name).len() == 0 {
        "/prod/service/component/KEY"@
    } else {
        v.create_name
    }
}

/// The rows of the list panel, `height` rows high: each shown name as
/// `" name "`, flagged when it is the selection; a single unflagged
/// `" No parameters matched "` row when nothing is shown.
pub open spec fn list_rows_spec(v: AppView, height: int) -> Seq<(Seq<char>, bool)> {
    if v.filtered.len() == 0 {
        seq![(" No parameters matched "@, false)]
    } else {
        let (start, end) = list_window_spec(v.selected as int, height, v.filtered.len() as int);
        Seq::new(
            (end - start) as nat,
            |j: int| (" "@ + v.params[v.filtered[start + j] as int].name + " "@, start + j == v.selected),
        )
    }
}

/// The profile the header shows: `AWS_PROFILE` unless it is absent or
/// blank, else `default`.
pub open spec fn profile_label(profile: Option<Seq<char>>) -> Seq<char> {
    match profile {
        Some(p) => if strings::trimmed(p).len() == 0 {
            "default"@
        } else {
            p
        },
        None => "default"@,
    }
}

/// `a + b`, or the largest `u16` when that overflows.
pub open spec fn sat_add16(a: int, b: int) -> int {
    if a + b > u16::MAX {
        u16::MAX as int
    } else {
        a + b
    }
}

/// The smaller of two numbers.
pub open spec fn min_of(a: int, b: int) -> int {
    if a < b {
        a
    } else {
        b
    }
}

/// Where the popup draws the terminal cursor. On the value field: at the
/// cursor's line (counted from the first line shown, `start_line`) and column
/// inside `value_area`, kept off its right border. On the name field: after
/// the last character of the name, seven columns into `name_row` (past
/// `"Name : "`), kept off its right border. Offsets are taken as `u16`.
pub open spec fn popup_cursor_spec(
    v: AppView,
    value_area: (u16, u16, u16, u16),
    start_line: int,
    name_row: (u16, u16, u16, u16),
) -> (int, int) {
    match v.create_field {
        CreateField::Value => {
            let lc = text_edit::line_col_of(
                v.create_value.take(text_edit::chars_before(v.create_value, v.value_cursor as int) as int),
            );
            let right = sat_add16(value_area.0 as int, value_area.2 as int);
            let x = sat_add16(value_area.0 as int, ((lc.1 as int) as u16) as int);
            let y = sat_add16(value_area.1 as int, (sat_sub(lc.0 as int, start_line) as u16) as int);
            (min_of(x, sat_sub(right, 1)), y)
        },
        CreateField::Name => {
            let right = sat_add16(name_row.0 as int, name_row.2 as int);
            let x = sat_add16(name_row.0 + 7, ((v.create_name.len() as int) as u16) as int);
            (min_of(x, sat_sub(right, 1)), name_row.1 as int)
        },
    }
}

fn add16(a: u16, b: u16) -> (r: u16)
    ensures
        r as int == sat_add16(a as int, b as int),
{
    if a as u32 + b as u32 > 65535 {
        65535
    } else {
        a + b
    }
}

impl App {
    /// The line naming the profile and the configured region.
    pub fn location_line(&self, profile: Option<String>) -> (r: String)
        ensures
            r@ == "Profile: "@ + profile_label(models::opt_text(profile)) + "   Region: "@ + self@.region,
    {
        let label = match profile {
            Some(p) => {
                if trim(p.as_str()).as_str().is_empty() {
                    "default".to_owned()
                } else {
                    p
                }
            },
            None => "default".to_owned(),
        };
        concat3("Profile: ", label.as_str(), concat("   Region: ", self.aws_region.as_str()).as_str())
    }

    /// The status line.
    pub fn status_line(&self) -> (r: String)
        ensures
            r@ == "Status: "@ + self@.status,
    {
        concat("Status: ", self.status.as_str())
    }

    /// Where the popup draws the terminal cursor, given the value box's inner
    /// area, the first value line shown and the row of the name field.
    pub fn popup_cursor(&self, value_area: (u16, u16, u16, u16), start_line: usize, name_row: (
        u16,
        u16,
        u16,
        u16,
    )) -> (r: (u16, u16))
        requires
            name_row.0 + 7 <= u16::MAX,
        ensures
            (r.0 as int, r.1 as int) == popup_cursor_spec(self@, value_area, start_line as int, name_row),
    {
        match self.create_field {
            CreateField::Value => {
                let (line, col) = text_edit::line_col_at_cursor(
                    self.create_value.as_str(),
                    self.create_value_cursor,
                );
                let d = if line >= start_line { line - start_line } else { 0 };
                let y = add16(value_area.1, d as u16);
                let x = add16(value_area.0, col as u16);
                let right = add16(value_area.0, value_area.2);
                let limit = if right >= 1 { right - 1 } else { 0 };
                (if x < limit { x } else { limit }, y)
            },
            CreateField::Name => {
                let count = chars_of(self.create_name.as_str()).len();
                let x = add16(name_row.0 + 7, count as u16);
                let right = add16(name_row.0, name_row.2);
                let limit = if right >= 1 { right - 1 } else { 0 };
                (if x < limit { x } else { limit }, name_row.1)
            },
        }
    }

    /// The rows the list panel shows in `height` rows, with the selected one flagged.
    pub fn list_rows(&self, height: usize) -> (r: Vec<(String, bool)>)
        requires
            app::indices_valid(self@),
        ensures
            r@.len() == list_rows_spec(self@, height as int).len(),
            forall|j: int|
                0 <= j < r@.len() ==> ((#[trigger] r@[j]).0@, r@[j].1) == list_rows_spec(
                    self@,
                    height as int,
                )[j],
    {
        let total = self.filtered_indices.len();
        let mut r: Vec<(String, bool)> = Vec::new();
        if total == 0 {
            r.push((" No parameters matched ".to_owned(), false));
            return r;
        }
        let (start, end) = list_window(self.selected, height, total);
        let ghost rows = list_rows_spec(self@, height as int);
        let mut g = start;
        while g < end
            invariant
                start <= g <= end <= total,
                total == self@.filtered.len(),
                total > 0,
                app::indices_valid(self@),
                (start as int, end as int) == list_window_spec(self.selected as int, height as int, total as int),
                rows == list_rows_spec(self@, height as int),
                r@.len() == g - start,
                forall|j: int|
                    0 <= j < r@.len() ==> ((#[trigger] r@[j]).0@, r@[j].1) == rows[j],
            decreases end - g,
        {
            let idx = self.filtered_indices[g];
            let text = concat3(" ", self.all_parameters[idx].name.as_str(), " ");
            r.push((text, g == self.selected));
            g = g + 1;
        }
        r
    }


    /// The text of the value panel.
    pub fn value_panel_text(&self) -> (r: String)
        ensures
            r@ == value_panel_spec(self@),
    {
        match self.selected_parameter() {
            Some(p) => match &p.value {
                Some(v) => v.clone(),
                None => {
                    if self.is_value_pending(p.name.as_str()) {
                        "Loading value from SSM in background...".to_owned()
                    } else {
                        "Value not loaded yet...".to_owned()
                    }
                },
            },
            None => "No selection".to_owned(),
        }
    }

    /// The texts of the header.
    pub fn header_fields(&self) -> (h: HeaderFields)
        ensures
            header_ok(self@, h),
    {
        match self.selected_parameter() {
            Some(p) => HeaderFields {
                name: p.name.clone(),
                param_type: text_or(&p.meta.param_type, "-"),
                version: number_or_dash_text(p.meta.version),
                tier: text_or(&p.meta.tier, "-"),
                data_type: text_or(&p.meta.data_type, "-"),
                last_modified: number_or_dash_text(p.meta.last_modified_epoch),
                key_id: text_or(&p.meta.key_id, "-"),
                description: text_or(&p.meta.description, "No description"),
                last_modified_user: text_or(&p.meta.last_modified_user, "-"),
            },
            None => HeaderFields {
                name: "-".to_owned(),
                param_type: "-".to_owned(),
                version: "-".to_owned(),
                tier: "-".to_owned(),
                data_type: "-".to_owned(),
                last_modified: "-".to_owned(),
                key_id: "-".to_owned(),
                description: "No description".to_owned(),
                last_modified_user: "-".to_owned(),
            },
        }
    }

    /// The line above the list.
    pub fn filter_line(&self) -> (r: String)
        ensures
            r@ == filter_line_spec(self@),
    {
        let label = if self.search_mode { "SEARCH" } else { "FILTER" };
        let total = usize_to_string(self.filtered_indices.len());
        let head = concat3(label, ": /", self.query.as_str());
        concat3(head.as_str(), "    Total: ", total.as_str())
    }

    /// Whether the name field of the popup is blank.
    pub fn create_name_is_blank(&self) -> (r: bool)
        ensures
            r == (strings::trimmed(self@.create_name).len() == 0),
    {
        trim(self.create_name.as_str()).as_str().is_empty()
    }

    /// What the name field of the popup shows.
    pub fn name_field_text(&self) -> (r: String)
        ensures
            r@ == name_field_spec(self@),
    {
        if self.create_name_is_blank() {
            "/prod/service/component/KEY".to_owned()
        } else {
            self.create_name.clone()
        }
    }
}

} // verus!
