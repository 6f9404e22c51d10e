//! Placement of the popups: a rectangle centred in an area, computed with
//! ratatui's layout solver. Rectangles are `(x, y, width, height)`.
use ratatui::layout::{Constraint, Direction, Layout, Rect};
use vstd::prelude::*;

verus! {

/// The area that `Rect::new` makes of `a`: the width and height are cut so
/// that the rectangle ends within the `u16` range.
pub open spec fn clamped(a: (u16, u16, u16, u16)) -> (u16, u16, u16, u16) {
    (
        a.0,
        a.1,
        if a.2 as int > u16::MAX - a.0 { (u16::MAX - a.0) as u16 } else { a.2 },
        if a.3 as int > u16::MAX - a.1 { (u16::MAX - a.1) as u16 } else { a.3 },
    )
}

/// `r` lies inside `a`.
pub open spec fn within(r: (u16, u16, u16, u16), a: (u16, u16, u16, u16)) -> bool {
    &&& a.0 <= r.0
    &&& r.0 + r.2 <= a.0 + a.2
    &&& a.1 <= r.1
    &&& r.1 + r.3 <= a.1 + a.3
}

/// A part of a split: top to bottom (`vertical`) it keeps the columns of the
/// area, left to right it keeps the rows, and it lies inside the area.
pub open spec fn part_of(r: (u16, u16, u16, u16), vertical: bool, a: (u16, u16, u16, u16)) -> bool {
    &&& within(r, a)
    &&& vertical ==> r.0 == a.0 && r.2 == a.2
    &&& !vertical ==> r.1 == a.1 && r.3 == a.3
}

/// The sum of the first `k` percentages.
pub open spec fn percent_sum(percents: Seq<u16>, k: int) -> int
    decreases k,
{
    if k <= 0 {
        0
    } else {
        percent_sum(percents, k - 1) + percents[k - 1]
    }
}

/// The extent of `r` along the split: its height top to bottom, else its width.
pub open spec fn extent(r: (u16, u16, u16, u16), vertical: bool) -> int {
    if vertical {
        r.3 as int
    } else {
        r.2 as int
    }
}

/// Where `r` starts along the split.
pub open spec fn start_along(r: (u16, u16, u16, u16), vertical: bool) -> int {
    if vertical {
        r.1 as int
    } else {
        r.0 as int
    }
}

/// When the percentages add up to at most 100, each part gets its share of
/// the area's extent `e` and starts after the shares of the parts before it;
/// the part of the extent that no percentage claims (`spare`) may be added to
/// either, and rounding to whole cells moves each by less than two cells.
/// Measured in hundredths of a cell.
pub open spec fn shares_kept(
    parts: Seq<(u16, u16, u16, u16)>,
    percents: Seq<u16>,
    vertical: bool,
    a: (u16, u16, u16, u16),
) -> bool {
    let total = percent_sum(percents, percents.len() as int);
    let e = extent(a, vertical);
    let spare = (100 - total) * e;
    total <= 100 ==> forall|i: int|
        0 <= i < parts.len() ==> {
            &&& percents[i] * e <= 100 * extent(#[trigger] parts[i], vertical) + 200
            &&& 100 * extent(parts[i], vertical) <= percents[i] * e + spare + 200
            &&& percent_sum(percents, i) * e <= 100 * (start_along(parts[i], vertical) - start_along(
                a,
                vertical,
            )) + 200
            &&& 100 * (start_along(parts[i], vertical) - start_along(a, vertical)) <= percent_sum(
                percents,
                i,
            ) * e + spare + 200
        }
}

/// `ratatui::layout::Layout::split` with one `Constraint::Percentage` per entry
/// of `percents` (top to bottom when `vertical`, else left to right), on
/// `Rect::new(area)`, with the default margin and spacing. Claimed: one
/// rectangle per percentage (the solver makes one segment per constraint);
/// each keeps the area's extent across the split (`changes_to_rects` copies
/// it) and lies inside the area (every segment boundary is a required
/// constraint between the area's start and end). When the percentages add up
/// to at most 100, each part keeps its share (`shares_kept`). The default
/// flex is `Flex::Start`: the spacers between parts are held at size 0 with
/// weight `REQUIRED / 10` and the first spacer is empty (`REQUIRED - 1`),
/// while only the last spacer grows (`GROW`) and the parts tend to equal
/// sizes (`ALL_SEGMENT_GROW`, weak); the percentages (`STRONG`) outweigh both
/// of those, so the parts follow one another from the area's start, each of
/// its share, and the unclaimed rest is left after the last part.
/// `changes_to_rects` rounds each boundary to the nearest cell. The clause
/// allows the unclaimed rest to go to any part, which is more than the
/// solver does.
#[verifier::external_body]
fn split_by_percent(vertical: bool, percents: &Vec<u16>, area: (u16, u16, u16, u16)) -> (r: Vec<(u16, u16, u16, u16)>)
    ensures
        r@.len() == percents@.len(),
        forall|i: int| 0 <= i < r@.len() ==> part_of(#[trigger] r@[i], vertical, clamped(area)),
        shares_kept(r@, percents@, vertical, clamped(area)),
{
    let direction = if vertical { Direction::Vertical } else { Direction::Horizontal };
    let rects = Layout::default()
        .direction(direction)
        .constraints(percents.iter().map(|p| Constraint::Percentage(*p)))
        .split(Rect::new(area.0, area.1, area.2, area.3));
    rects.iter().map(|r| (r.x, r.y, r.width, r.height)).collect()
}

/// The percentages that put a part of `percent` percent in the middle, with
/// equal margins on both sides.
pub open spec fn centering(percent: u16) -> Seq<u16> {
    let side = ((100 - percent) / 2) as u16;
    seq![side, percent, side]
}

/// The margins and the middle part for a centred part of `percent` percent.
pub fn centering_percents(percent: u16) -> (r: Vec<u16>)
    requires
        percent <= 100,
    ensures
        r@ == centering(percent),
{
    let side = (100 - percent) / 2;
    let mut r: Vec<u16> = Vec::new();
    r.push(side);
    r.push(percent);
    r.push(side);
    r
}

/// The rectangle is centred in `a` along one direction: its extent `r_ext`
/// is `percent` percent of the area's extent `e`, and its offset `off` from the
/// area's start is the margin's share, `(100 - percent) / 2` percent; the
/// percent left over when `100 - percent` is odd may be added to either, and
/// each may be off by rounding to whole cells. In hundredths of a cell.
pub open spec fn centred_along(off: int, r_ext: int, percent: u16, e: int) -> bool {
    let side = (100 - percent) / 2;
    &&& percent * e <= 100 * r_ext + 200
    &&& 100 * r_ext <= percent * e + e + 200
    &&& side * e <= 100 * off + 200
    &&& 100 * off <= side * e + e + 200
}

/// A rectangle centred in `area`, `percent_x` percent wide and `percent_y`
/// percent high: the middle column of the middle row of the splits by
/// `centering`. It lies inside the area.
pub fn centered_rect(percent_x: u16, percent_y: u16, area: (u16, u16, u16, u16)) -> (r: (u16, u16, u16, u16))
    requires
        percent_x <= 100,
        percent_y <= 100,
    ensures
        within(r, clamped(area)),
        centred_along(r.0 - area.0, r.2 as int, percent_x, clamped(area).2 as int),
        centred_along(r.1 - area.1, r.3 as int, percent_y, clamped(area).3 as int),
{
    let py = centering_percents(percent_y);
    let rows = split_by_percent(true, &py, area);
    let row = rows[1];
    let px = centering_percents(percent_x);
    let cols = split_by_percent(false, &px, row);
    proof {
        let ca = clamped(area);
        assert(part_of(rows@[1], true, ca));
        assert(part_of(cols@[1], false, clamped(row)));
        assert(clamped(row) == row);
        lemma_centering_share(rows@, py@, percent_y, true, ca);
        lemma_centering_share(cols@, px@, percent_x, false, row);
    }
    cols[1]
}

/// The middle part of a split by `centering(percent)` is centred.
proof fn lemma_centering_share(
    parts: Seq<(u16, u16, u16, u16)>,
    percents: Seq<u16>,
    percent: u16,
    vertical: bool,
    a: (u16, u16, u16, u16),
)
    requires
        percent <= 100,
        percents == centering(percent),
        parts.len() == 3,
        shares_kept(parts, percents, vertical, a),
    ensures
        centred_along(
            start_along(parts[1], vertical) - start_along(a, vertical),
            extent(parts[1], vertical),
            percent,
            extent(a, vertical),
        ),
{
    let side = (100 - percent) / 2;
    let e = extent(a, vertical);
    reveal_with_fuel(percent_sum, 4);
    assert(percents[0] == side && percents[1] == percent && percents[2] == side);
    assert(percent_sum(percents, 1) == side);
    assert(percent_sum(percents, 3) == 2 * side + percent);
    let left = 100 - (2 * side + percent);
    assert(0 <= left <= 1);
    assert(e >= 0);
    assert(left * e <= e) by (nonlinear_arith)
        requires
            0 <= left <= 1,
            e >= 0,
    ;
    assert(percents[1] == percent);
    let p1 = parts[1];
    assert(percents[1] * e <= 100 * extent(p1, vertical) + 200);
}

} // verus!
