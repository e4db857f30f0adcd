use ratatui::layout as rl;
use vstd::prelude::*;

verus! {

/// A rectangle of terminal cells.
#[derive(Clone, Copy, Debug, PartialEq, Eq, Structural)]
pub struct Area {
    pub x: u16,
    pub y: u16,
    pub width: u16,
    pub height: u16,
}

/// The axis along which an area is cut into pieces.
#[derive(Clone, Copy, Debug, PartialEq, Eq, Structural)]
pub enum Direction {
    Horizontal,
    Vertical,
}

/// The size asked for one piece of a split.
#[derive(Clone, Copy, Debug, PartialEq, Eq, Structural)]
pub enum Constraint {
    /// A share of the area, in percent.
    Percentage(u16),
    /// A fixed number of cells.
    Length(u16),
}

/// Whether `piece` lies inside `area` and keeps `area`'s extent across a cut along
/// `direction`: a vertical cut keeps `x` and `width` and places the piece within the
/// area's rows; a horizontal cut keeps `y` and `height` and places it within its columns.
pub open spec fn piece_of(piece: Area, area: Area, direction: Direction) -> bool {
    match direction {
        Direction::Vertical => {
            &&& piece.x == area.x
            &&& piece.width == area.width
            &&& area.y <= piece.y
            &&& piece.y + piece.height <= area.y + area.height
        },
        Direction::Horizontal => {
            &&& piece.y == area.y
            &&& piece.height == area.height
            &&& area.x <= piece.x
            &&& piece.x + piece.width <= area.x + area.width
        },
    }
}

/// Whether `pieces` is a possible outcome of cutting `area` along `direction` into `count`
/// pieces: one piece per constraint, each a piece of the area.
pub open spec fn is_split_of(pieces: Seq<Area>, area: Area, direction: Direction, count: nat) -> bool {
    &&& pieces.len() == count
    &&& forall|k: int| 0 <= k < pieces.len() ==> piece_of(#[trigger] pieces[k], area, direction)
}

/// Whether `inner` lies inside `outer`.
pub open spec fn inside(inner: Area, outer: Area) -> bool {
    &&& outer.x <= inner.x
    &&& inner.x + inner.width <= outer.x + outer.width
    &&& outer.y <= inner.y
    &&& inner.y + inner.height <= outer.y + outer.height
}

/// Whether `pieces` is one of the answers ratatui's layout solver may give when cutting
/// `area` along `direction` under `constraints`.  The solver may choose among equally
/// good answers, so this is a relation between the arguments and an answer, not a
/// function of the arguments.
pub uninterp spec fn layout_outcome(
    area: Area,
    direction: Direction,
    constraints: Seq<Constraint>,
    pieces: Seq<Area>,
) -> bool;

/// Cuts `area` along `direction` into one piece per constraint, with ratatui's layout
/// solver (`Layout::split` of a default layout: no margin, no spacing).  What is claimed of
/// it holds of every outcome: the pieces are an answer of the solver for exactly these
/// arguments (`layout_outcome`), and, as the solver's source builds them, there is one piece per
/// constraint, each keeping the area's extent across the cut (`changes_to_rects`) and lying
/// inside the area along the cut (every solver variable is required to lie within the area).
/// How the constraints share the area is left to the solver, which may choose among
/// equally good solutions in an order that depends on hash-map iteration, and is not stated;
/// neither is the order of the pieces along the cut, which the solver only prefers.
#[verifier::external_body]
fn split(area: Area, direction: Direction, constraints: &Vec<Constraint>) -> (pieces: Vec<Area>)
    ensures
        layout_outcome(area, direction, constraints@, pieces@),
        is_split_of(pieces@, area, direction, constraints@.len()),
{
    let cs: Vec<rl::Constraint> = constraints.iter().map(|c| match *c {
        Constraint::Percentage(p) => rl::Constraint::Percentage(p),
        Constraint::Length(l) => rl::Constraint::Length(l),
    }).collect();
    let d = match direction {
        Direction::Horizontal => rl::Direction::Horizontal,
        Direction::Vertical => rl::Direction::Vertical,
    };
    let rect = rl::Rect { x: area.x, y: area.y, width: area.width, height: area.height };
    let rects = rl::Layout::default().direction(d).constraints(cs).split(rect);
    rects.iter().map(|r| Area { x: r.x, y: r.y, width: r.width, height: r.height }).collect()
}

/// Three pieces: a margin, the middle share of `percent` percent, and an equal margin.
pub open spec fn centered_constraints(percent: u16) -> Seq<Constraint> {
    let side = ((100 - percent) / 2) as u16;
    seq![Constraint::Percentage(side), Constraint::Percentage(percent), Constraint::Percentage(side)]
}

/// Whether `c` is an answer for the centred cell of `r` taking `percent_x` percent of its
/// width and `percent_y` percent of its height: for some answer `rows` of the solver for
/// `r` cut vertically by `centered_constraints(percent_y)`, and some answer `columns` for
/// the middle row cut horizontally by `centered_constraints(percent_x)`, `c` is the middle
/// column.
pub open spec fn centered_outcome(c: Area, percent_x: u16, percent_y: u16, r: Area) -> bool {
    exists|rows: Seq<Area>, columns: Seq<Area>|
        #![trigger layout_outcome(r, Direction::Vertical, centered_constraints(percent_y), rows), layout_outcome(rows[1], Direction::Horizontal, centered_constraints(percent_x), columns)]
        {
            &&& layout_outcome(r, Direction::Vertical, centered_constraints(percent_y), rows)
            &&& is_split_of(rows, r, Direction::Vertical, 3)
            &&& layout_outcome(
                rows[1],
                Direction::Horizontal,
                centered_constraints(percent_x),
                columns,
            )
            &&& is_split_of(columns, rows[1], Direction::Horizontal, 3)
            &&& c == columns[1]
        }
}

/// A centred cell lies inside the area it was cut from.
pub proof fn lemma_centered_cell_inside(c: Area, percent_x: u16, percent_y: u16, r: Area)
    requires
        centered_outcome(c, percent_x, percent_y, r),
    ensures
        inside(c, r),
{
    let (rows, columns) = choose|rows: Seq<Area>, columns: Seq<Area>|
        {
            &&& layout_outcome(r, Direction::Vertical, centered_constraints(percent_y), rows)
            &&& is_split_of(rows, r, Direction::Vertical, 3)
            &&& layout_outcome(
                rows[1],
                Direction::Horizontal,
                centered_constraints(percent_x),
                columns,
            )
            &&& is_split_of(columns, rows[1], Direction::Horizontal, 3)
            &&& c == columns[1]
        };
    assert(piece_of(rows[1], r, Direction::Vertical));
    assert(piece_of(columns[1], rows[1], Direction::Horizontal));
}

/// A centred split asks for shares of the area, never for fixed sizes: three percentages,
/// the middle one the requested share `percent`, the two margins equal and together taking
/// the rest (all of it, or all but one percent when the rest is odd).
pub proof fn lemma_centered_constraints_are_shares(percent: u16)
    requires
        percent <= 100,
    ensures
        centered_constraints(percent).len() == 3,
        centered_constraints(percent)[1] == Constraint::Percentage(percent),
        centered_constraints(percent)[0] == centered_constraints(percent)[2],
        centered_constraints(percent)[0] matches Constraint::Percentage(side) && (2 * side
            + percent == 100 || 2 * side + percent == 99),
{
}

/// The three constraints centring a share of `percent` percent.
fn centered_split(percent: u16) -> (cs: Vec<Constraint>)
    requires
        percent <= 100,
    ensures
        cs@ == centered_constraints(percent),
{
    let side = (100 - percent) / 2;
    let cs = vec![Constraint::Percentage(side), Constraint::Percentage(percent), Constraint::Percentage(side)];
    assert(cs@ =~= centered_constraints(percent));
    cs
}

/// The centred part of `r` taking `percent_x` percent of its width and `percent_y` percent
/// of its height: `r` is cut into rows of `(100 - percent_y) / 2`, `percent_y` and
/// `(100 - percent_y) / 2` percent, and the middle row into columns of
/// `(100 - percent_x) / 2`, `percent_x` and `(100 - percent_x) / 2` percent; the result is
/// the middle cell, which lies inside `r`.
pub fn centered_rect(percent_x: u16, percent_y: u16, r: Area) -> (c: Area)
    requires
        percent_x <= 100,
        percent_y <= 100,
    ensures
        centered_outcome(c, percent_x, percent_y, r),
        inside(c, r),
{
    let rows = split(r, Direction::Vertical, &centered_split(percent_y));
    let middle_row = rows[1];
    let columns = split(middle_row, Direction::Horizontal, &centered_split(percent_x));
    let c = columns[1];
    proof {
        assert(layout_outcome(r, Direction::Vertical, centered_constraints(percent_y), rows@));
        assert(layout_outcome(
            rows@[1],
            Direction::Horizontal,
            centered_constraints(percent_x),
            columns@,
        ));
        lemma_centered_cell_inside(c, percent_x, percent_y, r);
    }
    c
}

/// Width of the device list, in percent of the screen.
pub const POPUP_WIDTH_PERCENT: u16 = 60;

/// Height of the device list, in percent of the screen.
pub const POPUP_HEIGHT_PERCENT: u16 = 25;

/// Where the pieces of the screen go.
#[derive(Debug, PartialEq, Eq)]
pub struct ScreenPlan {
    /// The spectrum canvas: the whole screen.
    pub canvas: Area,
    /// The device list drawn over the canvas, when it is shown.
    pub popup: Option<Area>,
    /// One row of the device list per input device: row `k` shows device `k`.
    pub device_rows: Vec<Area>,
}

/// One row of one cell per device.
pub open spec fn device_row_constraints(device_count: nat) -> Seq<Constraint> {
    Seq::new(device_count, |k: int| Constraint::Length(1))
}

/// The constraints of the device list: one row of height one per device.
fn device_rows_constraints(device_count: usize) -> (rows: Vec<Constraint>)
    ensures
        rows@ == device_row_constraints(device_count as nat),
{
    let mut rows: Vec<Constraint> = Vec::new();
    for k in 0..device_count
        invariant
            rows@ =~= device_row_constraints(k as nat),
    {
        rows.push(Constraint::Length(1));
    }
    rows
}

/// Marker for the screen drawing of the application.
#[derive(Clone, Copy, Debug, PartialEq, Eq, Structural)]
pub struct UI;

impl UI {
    /// Lays out a screen of size `size`: the canvas takes the whole screen; when the device
    /// list is shown it sits in the centred 60% by 25% cell of the screen (`centered_rect`),
    /// and is cut by the solver under one one-cell `Length` constraint per device into rows,
    /// each spanning the list's width and lying inside it.
    pub fn plan(size: Area, edit_in_device: bool, device_count: usize) -> (p: ScreenPlan)
        ensures
            p.canvas == size,
            edit_in_device ==> (p.popup matches Some(popup) && centered_outcome(
                popup,
                POPUP_WIDTH_PERCENT,
                POPUP_HEIGHT_PERCENT,
                size,
            ) && inside(popup, size) && layout_outcome(
                popup,
                Direction::Vertical,
                device_row_constraints(device_count as nat),
                p.device_rows@,
            ) && is_split_of(p.device_rows@, popup, Direction::Vertical, device_count as nat)),
            !edit_in_device ==> p.popup is None && p.device_rows@.len() == 0,
    {
        if edit_in_device {
            let area = centered_rect(POPUP_WIDTH_PERCENT, POPUP_HEIGHT_PERCENT, size);
            let device_rows = split(area, Direction::Vertical, &device_rows_constraints(device_count));
            ScreenPlan { canvas: size, popup: Some(area), device_rows }
        } else {
            ScreenPlan { canvas: size, popup: None, device_rows: Vec::new() }
        }
    }
}

} // verus!
