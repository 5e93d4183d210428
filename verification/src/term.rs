//! The part of the terminal that graphics and bookmarks work on.
use vstd::prelude::*;

use crate::kitty::state::{KittyState, StateView};

verus! {

/// A cell of the grid. Lines are counted from the top of the visible area;
/// negative lines lie in the scrollback.
#[derive(Debug, Clone, Copy, PartialEq, Eq, Structural)]
pub struct Point {
    /// Line of the cell.
    pub line: i32,
    /// Column of the cell.
    pub column: usize,
}

/// The terminal cursor.
#[derive(Debug)]
pub struct Cursor {
    /// Where the next character is written.
    pub point: Point,
    /// Whether characters are written with the bookmark flag.
    pub bookmark: bool,
}

/// The grid of cells.
#[derive(Debug)]
pub struct Grid {
    /// The cursor.
    pub cursor: Cursor,
    /// For each visible line, from the top, the column of its bookmark.
    pub bookmarks: Vec<Option<usize>>,
}

/// Graphics of the terminal.
#[derive(Debug)]
pub struct Graphics {
    /// State of the kitty graphics protocol.
    pub kitty_state: KittyState,
    /// Width of a cell in pixels.
    pub cell_width: usize,
    /// Height of a cell in pixels.
    pub cell_height: usize,
}

/// The terminal.
#[derive(Debug)]
pub struct Term {
    /// Graphics shown on the grid.
    pub graphics: Graphics,
    /// The grid.
    pub grid: Grid,
}

/// What the terminal holds.
#[verifier::ext_equal]
pub struct TermView {
    pub state: StateView,
    pub cell_width: usize,
    pub cell_height: usize,
    pub cursor: Point,
    pub bookmark: bool,
    pub bookmarks: Seq<Option<usize>>,
}

impl View for Term {
    type V = TermView;

    open spec fn view(&self) -> TermView {
        TermView {
            state: self.graphics.kitty_state@,
            cell_width: self.graphics.cell_width,
            cell_height: self.graphics.cell_height,
            cursor: self.grid.cursor.point,
            bookmark: self.grid.cursor.bookmark,
            bookmarks: self.grid.bookmarks@,
        }
    }
}

} // verus!
