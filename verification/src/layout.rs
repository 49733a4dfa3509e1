//! Screen rectangles and the centred popups drawn over them.
use ratatui::layout::{Constraint, Direction, Layout};
use vstd::prelude::*;

verus! {

/// A rectangle of terminal cells.
#[derive(Debug, Clone, Copy, PartialEq, Eq, Structural)]
pub struct Rect {
    pub x: u16,
    pub y: u16,
    pub width: u16,
    pub height: u16,
}

/// The direction in which an area is split.
#[derive(Debug, Clone, Copy, PartialEq, Eq, Structural)]
pub enum Axis {
    /// Into rows, one above the other.
    Vertical,
    /// Into columns, side by side.
    Horizontal,
}

/// The middle of the three parts into which ratatui's layout solver splits
/// `area` along `axis` with the percentages `side`, `middle`, `side`.
pub uninterp spec fn percent_band(axis: Axis, side: u16, middle: u16, area: Rect) -> Rect;

/// Calls ratatui's `Layout::split` on `area` with three `Percentage`
/// constraints (`side`, `middle`, `side`) along `axis` and returns the middle
/// part; what the solver computes is not stated.
#[verifier::external_body]
fn middle_band(axis: Axis, side: u16, middle: u16, area: Rect) -> (r: Rect)
    ensures
        r == percent_band(axis, side, middle, area),
{
    let direction = match axis {
        Axis::Vertical => Direction::Vertical,
        Axis::Horizontal => Direction::Horizontal,
    };
    let parts = Layout::default().direction(direction).constraints(
        [Constraint::Percentage(side), Constraint::Percentage(middle), Constraint::Percentage(side)],
    ).split(ratatui::layout::Rect { x: area.x, y: area.y, width: area.width, height: area.height });
    Rect { x: parts[1].x, y: parts[1].y, width: parts[1].width, height: parts[1].height }
}

/// A popup `percent_x` percent wide and `percent_y` percent high, centred
/// in `area`.
pub fn centered_rect(percent_x: u16, percent_y: u16, area: Rect) -> (r: Rect)
    requires
        percent_x <= 100,
        percent_y <= 100,
    ensures
        r == percent_band(
            Axis::Horizontal,
            ((100 - percent_x) / 2) as u16,
            percent_x,
            percent_band(Axis::Vertical, ((100 - percent_y) / 2) as u16, percent_y, area),
        ),
{
    let rows = middle_band(Axis::Vertical, (100 - percent_y) / 2, percent_y, area);
    middle_band(Axis::Horizontal, (100 - percent_x) / 2, percent_x, rows)
}

} // verus!
