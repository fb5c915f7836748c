use vstd::prelude::*;

use crate::gfx::Color;

verus! {

/// The four colors of a terminal cell, one per quarter block:
/// top left, top right, bottom right, bottom left.
pub type Quadrant = (Color, Color, Color, Color);

/// A quadrant painted in a single color.
pub open spec fn solid(color: Color) -> Quadrant {
    (color, color, color, color)
}

/// One terminal column of a grapheme drawn on the screen.
#[derive(Clone, Debug, PartialEq, Eq)]
pub struct Grapheme {
    /// The grapheme cluster as text.
    pub char: String,
    /// Which column of the grapheme this cell shows, from 0 to `width - 1`.
    pub index: usize,
    /// How many terminal columns the grapheme spans.
    pub width: usize,
    /// The text color.
    pub color: Color,
}

/// The mathematical value of a [`Grapheme`].
pub ghost struct GraphemeView {
    pub char: Seq<char>,
    pub index: usize,
    pub width: usize,
    pub color: Color,
}

impl View for Grapheme {
    type V = GraphemeView;

    open spec fn view(&self) -> GraphemeView {
        GraphemeView { char: self.char@, index: self.index, width: self.width, color: self.color }
    }
}

impl Grapheme {
    /// A copy of the grapheme with the same value.
    pub fn duplicate(&self) -> (copy: Grapheme)
        ensures
            copy@ == self@,
    {
        Grapheme {
            char: self.char.clone(),
            index: self.index,
            width: self.width,
            color: self.color,
        }
    }
}

/// One terminal cell: its position, the colors of its four quarter blocks,
/// and the grapheme drawn over them, if any.
#[derive(Debug, PartialEq, Eq)]
pub struct Cell {
    pub col: u32,
    pub row: u32,
    pub quadrant: Quadrant,
    pub grapheme: Option<Grapheme>,
}

/// The mathematical value of a [`Cell`].
pub ghost struct CellView {
    pub col: u32,
    pub row: u32,
    pub quadrant: Quadrant,
    pub grapheme: Option<GraphemeView>,
}

/// The value of an optional grapheme.
pub open spec fn grapheme_view(g: Option<Grapheme>) -> Option<GraphemeView> {
    match g {
        Some(g) => Some(g@),
        None => None,
    }
}

impl View for Cell {
    type V = CellView;

    open spec fn view(&self) -> CellView {
        CellView {
            col: self.col,
            row: self.row,
            quadrant: self.quadrant,
            grapheme: grapheme_view(self.grapheme),
        }
    }
}

/// A blank black cell at the given position.
pub open spec fn blank_cell(col: u32, row: u32) -> CellView {
    CellView { col, row, quadrant: solid(Color { r: 0, g: 0, b: 0 }), grapheme: None }
}

/// A copy of an optional grapheme with the same value.
pub fn copy_grapheme(g: &Option<Grapheme>) -> (copy: Option<Grapheme>)
    ensures
        grapheme_view(copy) == grapheme_view(*g),
{
    match g {
        Some(g) => Some(g.duplicate()),
        None => None,
    }
}

/// Whether two quadrants hold the same four colors.
pub fn same_quadrant(a: Quadrant, b: Quadrant) -> (same: bool)
    ensures
        same == (a == b),
{
    a.0 == b.0 && a.1 == b.1 && a.2 == b.2 && a.3 == b.3
}

impl Cell {
    /// A blank black cell at column `x` and row `y`.
    pub fn new(x: u32, y: u32) -> (cell: Cell)
        ensures
            cell@ == blank_cell(x, y),
    {
        Cell { col: x, row: y, quadrant: (Color::black(), Color::black(), Color::black(), Color::black()), grapheme: None }
    }

    /// A copy of the cell with the same value.
    pub fn duplicate(&self) -> (copy: Cell)
        ensures
            copy@ == self@,
    {
        Cell { col: self.col, row: self.row, quadrant: self.quadrant, grapheme: copy_grapheme(&self.grapheme) }
    }

    /// Whether two cells hold the same position, colors and grapheme.
    pub fn same_as(&self, other: &Cell) -> (same: bool)
        ensures
            same == (self@ == other@),
    {
        if self.col != other.col || self.row != other.row || !same_quadrant(self.quadrant, other.quadrant) {
            return false;
        }
        match (&self.grapheme, &other.grapheme) {
            (None, None) => true,
            (Some(a), Some(b)) => {
                a.index == b.index && a.width == b.width && a.color == b.color && a.char == b.char
            },
            _ => false,
        }
    }
}

} // verus!
