//! Positions in a text and their document order.
use std::cmp::Ordering;

use vstd::prelude::*;
use vstd::std_specs::cmp::PartialOrdSpecImpl;

verus! {

/// A cursor position: row (line index) and column (character index).
/// Positions compare in document order: by row, then by column.
#[derive(Clone, Copy, PartialEq, Eq, Ord, Debug, Structural)]
pub struct Pos {
    pub row: usize,
    pub col: usize,
}

impl Pos {
    pub fn new(row: usize, col: usize) -> (p: Pos)
        ensures
            p == (Pos { row, col }),
    {
        Pos { row, col }
    }
}

/// Document order: the earlier row comes first, and on one row the earlier
/// column.
pub open spec fn doc_order(a: Pos, b: Pos) -> Ordering {
    if a.row < b.row {
        Ordering::Less
    } else if a.row > b.row {
        Ordering::Greater
    } else if a.col < b.col {
        Ordering::Less
    } else if a.col > b.col {
        Ordering::Greater
    } else {
        Ordering::Equal
    }
}

impl PartialOrd for Pos {
    fn partial_cmp(&self, other: &Pos) -> (r: Option<Ordering>) {
        if self.row < other.row {
            Some(Ordering::Less)
        } else if self.row > other.row {
            Some(Ordering::Greater)
        } else if self.col < other.col {
            Some(Ordering::Less)
        } else if self.col > other.col {
            Some(Ordering::Greater)
        } else {
            Some(Ordering::Equal)
        }
    }
}

impl PartialOrdSpecImpl for Pos {
    open spec fn obeys_partial_cmp_spec() -> bool {
        true
    }

    open spec fn partial_cmp_spec(&self, other: &Pos) -> Option<Ordering> {
        Some(doc_order(*self, *other))
    }
}

} // verus!
