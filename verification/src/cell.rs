//! The closed set of states that one grid cell can be in.

use vstd::prelude::*;

verus! {

/// One addressable unit of the grid.
///
/// `Life` carries its colour in channels wider than eight bits, so that a
/// perturbed value can be inspected before it is accepted or discarded.
/// `Heat` carries an averaged eight-bit colour.
#[derive(Clone, Copy, Debug, PartialEq, Eq, Structural)]
pub enum Cell {
    Empty,
    Wall,
    Life(i16, i16, i16),
    Heat(u8, u8, u8),
}

impl Cell {
    /// The red, green and blue heat that a cell contributes to a diffusion
    /// sum. Only `Heat` cells contribute.
    pub open spec fn heat(self) -> (int, int, int) {
        match self {
            Cell::Heat(r, g, b) => (r as int, g as int, b as int),
            _ => (0, 0, 0),
        }
    }

    /// The colour of a cell, if it has one.
    pub open spec fn spec_color(self) -> Option<(int, int, int)> {
        match self {
            Cell::Life(r, g, b) => Some((r as int, g as int, b as int)),
            Cell::Heat(r, g, b) => Some((r as int, g as int, b as int)),
            _ => None,
        }
    }

    pub fn is_empty(&self) -> (b: bool)
        ensures
            b == (*self == Cell::Empty),
    {
        matches!(self, Cell::Empty)
    }

    pub fn is_wall(&self) -> (b: bool)
        ensures
            b == (*self == Cell::Wall),
    {
        matches!(self, Cell::Wall)
    }

    pub fn is_life(&self) -> (b: bool)
        ensures
            b == (self is Life),
    {
        matches!(self, Cell::Life(_, _, _))
    }

    pub fn is_heat(&self) -> (b: bool)
        ensures
            b == (self is Heat),
    {
        matches!(self, Cell::Heat(_, _, _))
    }

    /// Extracts the colour of a `Life` or `Heat` cell.
    pub fn color(&self) -> (c: Option<(i16, i16, i16)>)
        ensures
            match c {
                Some(t) => self.spec_color() == Some((t.0 as int, t.1 as int, t.2 as int)),
                None => self.spec_color().is_none(),
            },
    {
        match self {
            Cell::Life(r, g, b) => Some((*r, *g, *b)),
            Cell::Heat(r, g, b) => Some((*r as i16, *g as i16, *b as i16)),
            _ => None,
        }
    }
}

} // verus!
