//! Where the overlays lie on the screen.

use ratatui::layout::Constraint;
use ratatui::layout::Direction;
use ratatui::layout::Layout;
use ratatui::layout::Rect;
use vstd::prelude::*;

verus! {

/// A rectangle of the screen.
#[derive(Debug, Clone, Copy, PartialEq, Eq, Structural)]
pub struct Area {
    pub x: u16,
    pub y: u16,
    pub width: u16,
    pub height: u16,
}

/// The axis along which an area is split.
#[derive(Debug, Clone, Copy, PartialEq, Eq, Structural)]
pub enum Axis {
    Vertical,
    Horizontal,
}

/// The shares, in percent, of the three parts of an axis whose middle part
/// takes `percent`: the rest is halved, rounding down.
pub fn popup_shares(percent: u16) -> (r: (u16, u16, u16))
    requires
        percent <= 100,
    ensures
        r.1 == percent,
        r.0 == (100 - percent) / 2,
        r.2 == r.0,
        r.0 + r.1 + r.2 <= 100,
{
    ((100 - percent) / 2, percent, (100 - percent) / 2)
}

/// A number of hundredths, rounded to a whole number; a half is rounded up.
pub open spec fn rounded(hundredths: int) -> int {
    (hundredths + 50) / 100
}

/// How much of an axis there is from `start` on: `len`, but not beyond the last
/// coordinate.
pub open spec fn available(start: int, len: int) -> int {
    if start + len > u16::MAX {
        u16::MAX - start
    } else {
        len
    }
}

/// Where the part begins that follows the first `percent` of an axis.
pub open spec fn part_edge(start: int, len: int, percent: int) -> int {
    rounded(100 * start + available(start, len) * percent)
}

/// The middle part of an area, split along its height.
pub open spec fn middle_row(area: Area, before: int, share: int) -> Area {
    Area {
        y: part_edge(area.y as int, area.height as int, before) as u16,
        height: (part_edge(area.y as int, area.height as int, before + share) - part_edge(
            area.y as int,
            area.height as int,
            before,
        )) as u16,
        ..area
    }
}

/// The middle part of an area, split along its width.
pub open spec fn middle_column(area: Area, before: int, share: int) -> Area {
    Area {
        x: part_edge(area.x as int, area.width as int, before) as u16,
        width: (part_edge(area.x as int, area.width as int, before + share) - part_edge(
            area.x as int,
            area.width as int,
            before,
        )) as u16,
        ..area
    }
}

/// The middle one of three parts of an area, after `ratatui`'s `Layout::split`
/// along an axis by `Constraint::Percentage`.
///
/// The parts lie one behind the other from the beginning of the axis, each takes
/// its percentage of what is available, and their ends are rounded to whole
/// coordinates. The other axis stays as it is. This holds where all percentages
/// can be had, that is where they do not exceed a hundred together.
#[verifier::external_body]
fn middle_part(axis: Axis, shares: (u16, u16, u16), area: Area) -> (r: Area)
    requires
        shares.0 + shares.1 + shares.2 <= 100,
    ensures
        axis == Axis::Vertical ==> r == middle_row(area, shares.0 as int, shares.1 as int),
        axis == Axis::Horizontal ==> r == middle_column(area, shares.0 as int, shares.1 as int),
{
    let direction = match axis {
        Axis::Vertical => Direction::Vertical,
        Axis::Horizontal => Direction::Horizontal,
    };
    let whole = Rect { x: area.x, y: area.y, width: area.width, height: area.height };
    let parts = [shares.0, shares.1, shares.2].map(Constraint::Percentage);
    let rects = Layout::default().direction(direction).constraints(parts).split(whole);
    Area { x: rects[1].x, y: rects[1].y, width: rects[1].width, height: rects[1].height }
}

/// The rectangle in the middle of an area that takes the given percentages of it.
pub open spec fn centered(percent_x: int, percent_y: int, area: Area) -> Area {
    middle_column(
        middle_row(area, (100 - percent_y) / 2, percent_y),
        (100 - percent_x) / 2,
        percent_x,
    )
}

/// A centred rectangle within the given area.
///
/// `percent_x` and `percent_y` say how much of the area the rectangle takes.
/// The area is split first along its height, then along its width.
pub fn centered_rect(percent_x: u16, percent_y: u16, area: Area) -> (r: Area)
    requires
        percent_x <= 100,
        percent_y <= 100,
    ensures
        r == centered(percent_x as int, percent_y as int, area),
{
    let row = middle_part(Axis::Vertical, popup_shares(percent_y), area);
    middle_part(Axis::Horizontal, popup_shares(percent_x), row)
}

proof fn lemma_edges_lie_on_the_axis(start: int, len: int, before: int, share: int)
    requires
        0 <= start <= u16::MAX,
        0 <= len <= u16::MAX,
        0 <= before,
        0 <= share,
        before + share <= 100,
    ensures
        start <= part_edge(start, len, before) <= part_edge(start, len, before + share) <= start
            + available(start, len),
        0 <= available(start, len) <= len,
{
    let room = available(start, len);
    assert(0 <= room * before) by (nonlinear_arith)
        requires
            0 <= room,
            0 <= before,
    ;
    assert(room * before <= room * (before + share)) by (nonlinear_arith)
        requires
            0 <= room,
            0 <= share,
    ;
    assert(room * (before + share) <= room * 100) by (nonlinear_arith)
        requires
            0 <= room,
            before + share <= 100,
    ;
}

/// An overlay lies within the area that it covers.
pub proof fn law_overlays_lie_within_the_area(percent_x: u16, percent_y: u16, area: Area)
    requires
        percent_x <= 100,
        percent_y <= 100,
    ensures
        ({
            let r = centered(percent_x as int, percent_y as int, area);
            &&& area.x <= r.x
            &&& area.y <= r.y
            &&& r.x + r.width <= area.x + area.width
            &&& r.y + r.height <= area.y + area.height
        }),
{
    let px = percent_x as int;
    let py = percent_y as int;
    lemma_edges_lie_on_the_axis(area.y as int, area.height as int, (100 - py) / 2, py);
    lemma_edges_lie_on_the_axis(area.x as int, area.width as int, (100 - px) / 2, px);
}

/// An overlay takes its share of the area, to within one cell; the whole
/// share is the whole area.
pub proof fn law_overlays_take_their_share(percent_x: u16, percent_y: u16, area: Area)
    requires
        percent_x <= 100,
        percent_y <= 100,
        area.x + area.width <= u16::MAX,
        area.y + area.height <= u16::MAX,
    ensures
        ({
            let r = centered(percent_x as int, percent_y as int, area);
            &&& -100 <= 100 * r.width - area.width * percent_x <= 100
            &&& -100 <= 100 * r.height - area.height * percent_y <= 100
        }),
        centered(100, 100, area) == area,
{
    lemma_share(area.x as int, area.width as int, percent_x as int);
    lemma_share(area.y as int, area.height as int, percent_y as int);
    lemma_share(area.x as int, area.width as int, 100);
    lemma_share(area.y as int, area.height as int, 100);
}

proof fn lemma_share(start: int, len: int, percent: int)
    requires
        0 <= start,
        0 <= len,
        start + len <= u16::MAX,
        0 <= percent <= 100,
    ensures
        ({
            let before = (100 - percent) / 2;
            let from = part_edge(start, len, before);
            let to = part_edge(start, len, before + percent);
            &&& 0 <= from <= to <= u16::MAX
            &&& -100 <= 100 * (to - from) - len * percent <= 100
            &&& percent == 100 ==> from == start && to == start + len
        }),
{
    let before = (100 - percent) / 2;
    assert(len * (before + percent) == len * before + len * percent) by (nonlinear_arith);
    assert(0 <= len * percent) by (nonlinear_arith)
        requires
            0 <= len,
            0 <= percent,
    ;
    assert(0 <= len * before) by (nonlinear_arith)
        requires
            0 <= len,
            0 <= before,
    ;
    assert(len * (before + percent) <= len * 100) by (nonlinear_arith)
        requires
            0 <= len,
            before + percent <= 100,
    ;
}

} // verus!
