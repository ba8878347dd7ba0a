//! Screen areas and how a layout divides them; the division itself is
//! ratatui's.
use vstd::prelude::*;
use crate::card_widgets::equal_shares;
use ratatui::layout::Constraint as RatatuiConstraint;
use ratatui::layout::Direction as RatatuiDirection;
use ratatui::layout::Layout as RatatuiLayout;
use ratatui::layout::Rect as RatatuiRect;

verus! {

/// The direction in which a layout divides an area.
#[derive(Debug, Clone, Copy, PartialEq, Eq, Structural)]
pub enum Direction {
    Horizontal,
    Vertical,
}

impl Default for Direction {
    /// Areas are stacked vertically unless said otherwise.
    fn default() -> (d: Self)
        ensures
            d == Direction::Vertical,
    {
        Direction::Vertical
    }
}

/// What a layout asks of one of the parts it divides an area into.
#[derive(Debug, Clone, Copy, PartialEq, Eq, Structural)]
pub enum Constraint {
    /// At least this many cells.
    Min(u16),
    /// At most this many cells.
    Max(u16),
    /// This share of the area, as a numerator and a denominator.
    Ratio(u32, u32),
}

/// A rectangle of terminal cells.
#[derive(Debug, Clone, Copy, PartialEq, Eq, Structural)]
pub struct Rect {
    pub x: u16,
    pub y: u16,
    pub width: u16,
    pub height: u16,
}

/// Where a rectangle starts along a direction.
pub open spec fn lead(direction: Direction, r: Rect) -> int {
    match direction {
        Direction::Horizontal => r.x as int,
        Direction::Vertical => r.y as int,
    }
}

/// How far a rectangle reaches along a direction.
pub open spec fn span(direction: Direction, r: Rect) -> int {
    match direction {
        Direction::Horizontal => r.width as int,
        Direction::Vertical => r.height as int,
    }
}

/// Whether `part` covers `area` across the direction: the same column and
/// width when dividing vertically, the same row and height when dividing
/// horizontally.
pub open spec fn spans_across(direction: Direction, part: Rect, area: Rect) -> bool {
    match direction {
        Direction::Horizontal => part.y == area.y && part.height == area.height,
        Direction::Vertical => part.x == area.x && part.width == area.width,
    }
}

/// Whether `parts` divide `area` along `direction`: each part covers the area
/// across the direction and lies inside it along the direction, and the parts
/// follow one another in order without overlapping.
pub open spec fn parts_fit(direction: Direction, parts: Seq<Rect>, area: Rect) -> bool {
    &&& forall|i: int|
        0 <= i < parts.len() ==> {
            &&& spans_across(direction, #[trigger] parts[i], area)
            &&& lead(direction, area) <= lead(direction, parts[i])
            &&& lead(direction, parts[i]) + span(direction, parts[i]) <= lead(direction, area)
                + span(direction, area)
        }
    &&& forall|i: int, j: int|
        0 <= i < j < parts.len() ==> lead(direction, #[trigger] parts[i]) + span(direction, parts[i])
            <= lead(direction, #[trigger] parts[j])
}

/// Whether the area ends within the screen's coordinates along the direction,
/// so that ratatui need not cut its far edge short.
pub open spec fn fits_on_screen(direction: Direction, area: Rect) -> bool {
    lead(direction, area) + span(direction, area) <= u16::MAX
}

/// Whether the parts tile the area along the direction: the first starts where
/// the area starts, each next one starts where the one before ends, and the
/// last ends where the area ends.
pub open spec fn tiles(direction: Direction, parts: Seq<Rect>, area: Rect) -> bool {
    parts.len() > 0 ==> {
        &&& lead(direction, parts[0]) == lead(direction, area)
        &&& forall|i: int|
            0 < i < parts.len() ==> lead(direction, parts[i - 1]) + span(direction, parts[i - 1])
                == lead(direction, #[trigger] parts[i])
        &&& lead(direction, parts.last()) + span(direction, parts.last()) == lead(direction, area)
            + span(direction, area)
    }
}

/// How much of `size` cells a part at most `max` long gets after a part that
/// asks for at least `min`: all it asks where there is room, what the first
/// part leaves otherwise, nothing when the first part cannot have its minimum.
pub open spec fn after_min_share(min: int, max: int, size: int) -> int {
    if size - min >= max {
        max
    } else if size - min >= 0 {
        size - min
    } else {
        0
    }
}

/// Calls ratatui's `Layout::new(direction, constraints).split(area)`. What the
/// source (ratatui 0.28.1: `Layout::try_split`, its required constraints in
/// `configure_area` and `configure_variable_constraints`, and
/// `changes_to_rects`) shows of every outcome is stated: one part per
/// constraint; each part across the whole area in the other direction; every
/// part inside the area along the direction, the parts in order. Where along
/// the direction each part falls is the cassowary solver's answer, which can
/// differ from one call to another where several layouts are equally good;
/// in general nothing is said of it.
///
/// For the two shapes this library asks for, and an area whose far edge is
/// not cut short by `Rect::right`/`Rect::bottom` saturating, the best layout
/// under ratatui's strengths (`mod strengths`: spacers `REQUIRED - 1`, Min and
/// Max bounds `STRONG * 100`, Max size `MEDIUM * 10`, Min fill `MEDIUM`, the
/// last spacer's growth `MEDIUM / 10`, ratios `STRONG / 10`, equal segments
/// `WEAK`) is unique, so every solve gives it, and that is stated:
/// - `[Min(a), Max(b)]`: the first and middle spacers are empty, so the parts
///   tile the area; the second part gets `b` cells where `a` remain for the
///   first, else what is left after `a`, else nothing (`after_min_share`).
/// - `n` parts each `Ratio(1, n)`: each part's solved size is exactly a
///   `1/n` of the area, and the parts tile it; `changes_to_rects` rounds each
///   boundary with the same monotone rounding, so two parts differ by at most
///   one cell.
#[verifier::external_body]
pub(crate) fn split_area(direction: Direction, constraints: &Vec<Constraint>, area: Rect) -> (parts: Vec<Rect>)
    ensures
        parts@.len() == constraints@.len(),
        parts_fit(direction, parts@, area),
        fits_on_screen(direction, area) && constraints@.len() == 2 ==> match (
            constraints@[0],
            constraints@[1],
        ) {
            (Constraint::Min(a), Constraint::Max(b)) => {
                &&& tiles(direction, parts@, area)
                &&& span(direction, parts@[1]) == after_min_share(
                    a as int,
                    b as int,
                    span(direction, area),
                )
            },
            _ => true,
        },
        fits_on_screen(direction, area) && 0 < constraints@.len() <= u32::MAX && constraints@
            == equal_shares(constraints@.len()) ==> {
            &&& tiles(direction, parts@, area)
            &&& forall|i: int, j: int|
                0 <= i < parts@.len() && 0 <= j < parts@.len() ==> span(
                    direction,
                    #[trigger] parts@[i],
                ) <= span(direction, #[trigger] parts@[j]) + 1
        },
{
    let d = match direction {
        Direction::Horizontal => RatatuiDirection::Horizontal,
        Direction::Vertical => RatatuiDirection::Vertical,
    };
    let cs = constraints.iter().map(|c| match *c {
        Constraint::Min(v) => RatatuiConstraint::Min(v),
        Constraint::Max(v) => RatatuiConstraint::Max(v),
        Constraint::Ratio(n, m) => RatatuiConstraint::Ratio(n, m),
    });
    let r = RatatuiRect { x: area.x, y: area.y, width: area.width, height: area.height };
    let parts = RatatuiLayout::new(d, cs).split(r);
    parts.iter().map(|p| Rect { x: p.x, y: p.y, width: p.width, height: p.height }).collect()
}

} // verus!
