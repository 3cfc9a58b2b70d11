//! Screen areas: splitting a rectangle by percentages and lengths.

use vstd::prelude::*;
use ratatui::layout::{Constraint, Direction, Layout, Rect};

verus! {

/// A rectangle of terminal cells.
#[derive(Debug, Clone, Copy, PartialEq, Eq, Hash, Structural)]
pub struct Area {
    pub x: u16,
    pub y: u16,
    pub width: u16,
    pub height: u16,
}

/// How much of an area a part takes.
#[derive(Debug, Clone, Copy, PartialEq, Eq, Structural)]
pub enum Size {
    /// A percentage of the area.
    Percentage(u16),
    /// A number of cells.
    Length(u16),
    /// At least a number of cells.
    Min(u16),
}

/// The width ratatui keeps of `area`: cut so that its right edge fits in
/// a `u16`.
pub open spec fn kept_width(area: Area) -> u16 {
    if area.width > u16::MAX - area.x { (u16::MAX - area.x) as u16 } else { area.width }
}

/// The height ratatui keeps of `area`: cut so that its bottom edge fits in
/// a `u16`.
pub open spec fn kept_height(area: Area) -> u16 {
    if area.height > u16::MAX - area.y { (u16::MAX - area.y) as u16 } else { area.height }
}

/// Where `area` starts along a split: its row for a vertical split, its
/// column for a horizontal one.
pub open spec fn axis_start(vertical: bool, area: Area) -> int {
    if vertical { area.y as int } else { area.x as int }
}

/// How long the kept `area` is along a split.
pub open spec fn axis_len(vertical: bool, area: Area) -> int {
    if vertical { kept_height(area) as int } else { kept_width(area) as int }
}

/// Where a part starts along a split.
pub open spec fn part_start(vertical: bool, part: Area) -> int {
    if vertical { part.y as int } else { part.x as int }
}

/// How long a part is along a split.
pub open spec fn part_len(vertical: bool, part: Area) -> int {
    if vertical { part.height as int } else { part.width as int }
}

/// Every size is a percentage.
pub open spec fn all_percentages(sizes: Seq<Size>) -> bool {
    forall|i: int| 0 <= i < sizes.len() ==> #[trigger] sizes[i] is Percentage
}

/// The sum of the percentages among `sizes`.
pub open spec fn percent_total(sizes: Seq<Size>) -> int
    decreases sizes.len(),
{
    if sizes.len() == 0 {
        0
    } else {
        percent_total(sizes.drop_last()) + match sizes.last() {
            Size::Percentage(p) => p as int,
            _ => 0,
        }
    }
}

/// `percent` percent of `len` cells, rounded to the nearest cell (halves
/// up).
pub open spec fn rounded_share(percent: int, len: int) -> int {
    (percent * len + 50) / 100
}

/// What holds of every split of `area`: one part per size; across the
/// direction of the split each part spans the whole area (same column and
/// width for a vertical split, same row and height for a horizontal one);
/// along it the parts lie inside the area, in order, without overlapping.
pub open spec fn is_split_of(vertical: bool, n: nat, area: Area, parts: Seq<Area>) -> bool {
    &&& parts.len() == n
    &&& forall|i: int| 0 <= i < parts.len() ==> (if vertical {
        (#[trigger] parts[i]).x == area.x && parts[i].width == kept_width(area)
    } else {
        parts[i].y == area.y && parts[i].height == kept_height(area)
    })
    &&& forall|i: int| 0 <= i < parts.len() ==> axis_start(vertical, area) <= part_start(vertical, #[trigger] parts[i])
        && part_start(vertical, parts[i]) + part_len(vertical, parts[i]) <= axis_start(vertical, area) + axis_len(vertical, area)
    &&& forall|i: int| 0 <= i < parts.len() - 1 ==> part_start(vertical, #[trigger] parts[i]) + part_len(vertical, parts[i])
        <= part_start(vertical, parts[i + 1])
}

/// The layout of a length followed by a minimum of zero: the first part
/// starts at the area and is the length long (all of the area if it is
/// shorter), the second part is the rest.
pub open spec fn length_then_rest(vertical: bool, top: int, area: Area, parts: Seq<Area>) -> bool {
    let len = axis_len(vertical, area);
    let first = if top <= len { top } else { len };
    &&& part_start(vertical, parts[0]) == axis_start(vertical, area)
    &&& part_len(vertical, parts[0]) == first
    &&& part_start(vertical, parts[1]) == axis_start(vertical, area) + first
    &&& part_len(vertical, parts[1]) == len - first
}

/// The layout of percentages that add up to at most 100: each part starts
/// at the rounded share of the percentages before it and ends at the
/// rounded share including its own.
pub open spec fn percent_layout(vertical: bool, sizes: Seq<Size>, area: Area, parts: Seq<Area>) -> bool {
    forall|i: int| 0 <= i < parts.len() ==> {
        &&& part_start(vertical, #[trigger] parts[i]) == axis_start(vertical, area) + rounded_share(
            percent_total(sizes.take(i)),
            axis_len(vertical, area),
        )
        &&& part_len(vertical, parts[i]) == rounded_share(percent_total(sizes.take(i + 1)), axis_len(vertical, area))
            - rounded_share(percent_total(sizes.take(i)), axis_len(vertical, area))
    }
}

/// Split `area` into one part per size, top to bottom or left to right.
///
/// Trusted: builds a ratatui `Layout` with the direction and the
/// constraints (one for one) and calls `split`. What is claimed, from
/// ratatui's source and documentation:
/// - the rectangle is first cut to fit `u16` coordinates (`Rect::new`);
///   one part is returned per constraint, and each part keeps the
///   rectangle's column and width (vertical) or row and height
///   (horizontal);
/// - along the split, the solver is required to keep every part inside the
///   rectangle; the gaps between parts are held at zero more strongly than
///   any size constraint, so the parts come in order without overlapping;
///   positions are rounded to whole cells;
/// - a `Length` followed by `Min(0)` gives the length (cut to the area)
///   and then the rest, as the documentation's example shows;
/// - percentages that add up to at most 100 can all be met, and each is
///   "rounded back to an integer as part of the layout split": every
///   boundary lies at the share of the percentages before it, rounded to
///   the nearest cell.
/// Other mixes of constraints can conflict; for them nothing is claimed
/// beyond the first two points. `split` panics only if the solver rejects a
/// constraint; the only required constraints it adds keep each part inside
/// the area and in order, which can always be met.
#[verifier::external_body]
pub fn split(vertical: bool, sizes: &Vec<Size>, area: Area) -> (parts: Vec<Area>)
    ensures
        is_split_of(vertical, sizes@.len(), area, parts@),
        sizes@.len() == 2 && sizes@[0] is Length && sizes@[1] == Size::Min(0) ==> length_then_rest(
            vertical,
            sizes@[0]->Length_0 as int,
            area,
            parts@,
        ),
        all_percentages(sizes@) && percent_total(sizes@) <= 100 ==> percent_layout(vertical, sizes@, area, parts@),
{
    let direction = if vertical { Direction::Vertical } else { Direction::Horizontal };
    let constraints: Vec<Constraint> = sizes.iter().map(|s| match s {
        Size::Percentage(p) => Constraint::Percentage(*p),
        Size::Length(l) => Constraint::Length(*l),
        Size::Min(m) => Constraint::Min(*m),
    }).collect();
    let rect = Rect::new(area.x, area.y, area.width, area.height);
    let parts = Layout::default().direction(direction).constraints(constraints).split(rect);
    parts.iter().map(|r| Area { x: r.x, y: r.y, width: r.width, height: r.height }).collect()
}

/// The percentages of three parts: `(100 - p) / 2`, `p` and `(100 - p) / 2`.
pub open spec fn middle_sizes(p: u16) -> Seq<Size> {
    seq![Size::Percentage(((100 - p) / 2) as u16), Size::Percentage(p), Size::Percentage(((100 - p) / 2) as u16)]
}

/// A share never exceeds a larger share, and 100 percent is the whole.
pub proof fn lemma_rounded_share(a: int, b: int, len: int)
    requires
        0 <= a <= b <= 100,
        0 <= len,
    ensures
        0 <= rounded_share(a, len) <= rounded_share(b, len) <= len,
        rounded_share(100, len) == len,
{
    assert(0 <= a * len <= b * len <= 100 * len) by (nonlinear_arith)
        requires 0 <= a <= b <= 100, 0 <= len;
}

/// The sums of the percentages of the first parts of `middle_sizes(p)`.
proof fn lemma_middle_totals(p: u16)
    requires
        p <= 100,
    ensures
        percent_total(middle_sizes(p).take(0)) == 0,
        percent_total(middle_sizes(p).take(1)) == (100 - p) / 2,
        percent_total(middle_sizes(p).take(2)) == (100 - p) / 2 + p,
        percent_total(middle_sizes(p).take(3)) == (100 - p) / 2 * 2 + p,
        percent_total(middle_sizes(p)) <= 100,
        all_percentages(middle_sizes(p)),
{
    let s = middle_sizes(p);
    let m = ((100 - p) / 2) as u16;
    assert(m as int == (100 - p) / 2);
    assert(s.take(0) =~= Seq::<Size>::empty());
    assert(s.take(1).drop_last() =~= s.take(0));
    assert(s.take(1).last() == Size::Percentage(m));
    assert(s.take(2).drop_last() =~= s.take(1));
    assert(s.take(2).last() == Size::Percentage(p));
    assert(s.take(3).drop_last() =~= s.take(2));
    assert(s.take(3).last() == Size::Percentage(m));
    assert(s.take(3) =~= s);
    assert(percent_total(s.take(0)) == 0);
    assert(percent_total(s.take(1)) == percent_total(s.take(0)) + m);
    assert(percent_total(s.take(1)) == m);
    assert(percent_total(s.take(2)) == percent_total(s.take(1)) + p);
    assert(percent_total(s.take(3)) == percent_total(s.take(2)) + m);
}

/// The middle row of `area`: `p` percent of its kept height, after a
/// margin of `(100 - p) / 2` percent, across its kept width.
pub open spec fn middle_row(p: u16, area: Area) -> Area {
    let h = kept_height(area) as int;
    let m = (100 - p) / 2;
    Area {
        x: area.x,
        y: (area.y + rounded_share(m as int, h)) as u16,
        width: kept_width(area),
        height: (rounded_share(m + p, h) - rounded_share(m as int, h)) as u16,
    }
}

/// The middle column of `row`: `p` percent of its kept width, after a
/// margin of `(100 - p) / 2` percent, across its height.
pub open spec fn middle_column(p: u16, row: Area) -> Area {
    let w = kept_width(row) as int;
    let m = (100 - p) / 2;
    Area {
        x: (row.x + rounded_share(m as int, w)) as u16,
        y: row.y,
        width: (rounded_share(m + p, w) - rounded_share(m as int, w)) as u16,
        height: kept_height(row),
    }
}

/// A rectangle centred in `area`, `percent_x` of its width and `percent_y`
/// of its height: the middle column of the middle row, each with margins
/// of `(100 - percent) / 2` percent on both sides, rounded to whole cells.
/// It lies inside the area.
pub fn centered_rect(percent_x: u16, percent_y: u16, area: Area) -> (r: Area)
    requires
        percent_x <= 100,
        percent_y <= 100,
    ensures
        r == middle_column(percent_x, middle_row(percent_y, area)),
        area.x <= r.x,
        r.x + r.width <= area.x + kept_width(area),
        area.y <= r.y,
        r.y + r.height <= area.y + kept_height(area),
{
    let margin_y = (100 - percent_y) / 2;
    let vertical = vec![Size::Percentage(margin_y), Size::Percentage(percent_y), Size::Percentage(margin_y)];
    assert(vertical@ =~= middle_sizes(percent_y));
    proof {
        lemma_middle_totals(percent_y);
    }
    let rows = split(true, &vertical, area);
    let margin_x = (100 - percent_x) / 2;
    let horizontal = vec![Size::Percentage(margin_x), Size::Percentage(percent_x), Size::Percentage(margin_x)];
    assert(horizontal@ =~= middle_sizes(percent_x));
    proof {
        lemma_middle_totals(percent_x);
        let h = kept_height(area) as int;
        let my = margin_y as int;
        lemma_rounded_share(my, my + percent_y, h);
        lemma_rounded_share(my + percent_y, 100, h);
        assert(rows@[1] == middle_row(percent_y, area));
    }
    let row = rows[1];
    let cols = split(false, &horizontal, row);
    proof {
        assert(kept_width(row) == kept_width(area));
        assert(kept_height(row) == row.height);
        let w = kept_width(area) as int;
        let mx = margin_x as int;
        lemma_rounded_share(mx, mx + percent_x, w);
        lemma_rounded_share(mx + percent_x, 100, w);
        assert(cols@[1] == middle_column(percent_x, row));
    }
    cols[1]
}

/// Two columns: the left one `left_percent` of the width, rounded to the
/// nearest cell, and the right one the rest; both span the area's height.
pub fn two_columns(left_percent: u16, area: Area) -> (r: Vec<Area>)
    requires
        left_percent <= 100,
    ensures
        is_split_of(false, 2, area, r@),
        r@[0].x == area.x,
        r@[0].width == rounded_share(left_percent as int, kept_width(area) as int),
        r@[1].x == area.x + r@[0].width,
        r@[1].width == kept_width(area) - r@[0].width,
{
    let right_percent = 100 - left_percent;
    let sizes = vec![Size::Percentage(left_percent), Size::Percentage(right_percent)];
    let ghost s = sizes@;
    proof {
        assert(s.take(0) =~= Seq::<Size>::empty());
        assert(s.take(1).drop_last() =~= s.take(0));
        assert(s.take(1).last() == Size::Percentage(left_percent));
        assert(s.take(2).drop_last() =~= s.take(1));
        assert(s.take(2).last() == Size::Percentage(right_percent));
        assert(s.take(2) =~= s);
        assert(percent_total(s.take(0)) == 0);
        assert(percent_total(s.take(1)) == percent_total(s.take(0)) + left_percent);
        assert(percent_total(s.take(2)) == percent_total(s.take(1)) + right_percent);
        assert(forall|i: int| 0 <= i < s.len() ==> #[trigger] s[i] is Percentage);
        assert(percent_total(s) == 100);
        lemma_rounded_share(left_percent as int, 100, kept_width(area) as int);
    }
    let r = split(false, &sizes, area);
    proof {
        assert(part_start(false, r@[0]) == area.x + rounded_share(0, kept_width(area) as int));
        assert(part_start(false, r@[1]) == area.x + rounded_share(percent_total(s.take(1)), kept_width(area) as int));
        assert(part_len(false, r@[1]) == rounded_share(percent_total(s.take(2)), kept_width(area) as int)
            - rounded_share(percent_total(s.take(1)), kept_width(area) as int));
    }
    r
}

/// A band `top_height` cells high (all of the area if it is lower) at the
/// top, and the rest below it; both span the area's width.
pub fn top_and_rest(top_height: u16, area: Area) -> (r: Vec<Area>)
    ensures
        is_split_of(true, 2, area, r@),
        r@[0].y == area.y,
        r@[0].height == (if top_height <= kept_height(area) { top_height } else { kept_height(area) }),
        r@[1].y == area.y + r@[0].height,
        r@[1].height == kept_height(area) - r@[0].height,
{
    let sizes = vec![Size::Length(top_height), Size::Min(0)];
    split(true, &sizes, area)
}

} // verus!
