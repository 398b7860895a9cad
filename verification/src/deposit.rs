//! Heat left on the grid by moving agents. Where several agents stand on
//! one cell in one step, the last of them wins: colours are not blended.

use vstd::prelude::*;
use crate::cell::Cell;
use crate::grid::flat;
use crate::grid::Grid;

verus! {

/// The colour that an agent leaves, and the rounded position at which it
/// leaves it.
#[derive(Clone, Copy, Debug)]
pub struct Deposit {
    pub x: usize,
    pub y: usize,
    pub rgb: (u8, u8, u8),
}

impl Deposit {
    /// The flat index of the cell that the deposit goes to, on a grid
    /// `width` cells wide.
    pub open spec fn index(self, width: int) -> int {
        flat(self.x as int, self.y as int, width)
    }

    /// The cell that the deposit leaves.
    pub open spec fn cell(self) -> Cell {
        Cell::Heat(self.rgb.0, self.rgb.1, self.rgb.2)
    }
}

/// Whether every deposit goes to a cell of a grid of `len` cells in rows
/// of `width`.
pub open spec fn deposits_fit(deposits: Seq<Deposit>, width: int, len: int) -> bool {
    forall|k: int| 0 <= k < deposits.len() ==> 0 <= (#[trigger] deposits[k]).index(width) < len
}

/// The cells after the deposits were made one after the other.
pub open spec fn deposited(cells: Seq<Cell>, width: int, deposits: Seq<Deposit>) -> Seq<Cell>
    decreases deposits.len(),
{
    if deposits.len() == 0 {
        cells
    } else {
        deposited(cells, width, deposits.drop_last()).update(
            deposits.last().index(width),
            deposits.last().cell(),
        )
    }
}

/// Deposits move no cell and change only the cells they go to: a cell keeps
/// its state if no deposit goes to it, and otherwise holds what the last
/// deposit that went to it left.
pub proof fn lemma_last_deposit_wins(cells: Seq<Cell>, width: int, deposits: Seq<Deposit>, i: int)
    requires
        0 <= i < cells.len(),
        deposits_fit(deposits, width, cells.len() as int),
    ensures
        deposited(cells, width, deposits).len() == cells.len(),
        (forall|k: int| 0 <= k < deposits.len() ==> (#[trigger] deposits[k]).index(width) != i)
            ==> deposited(cells, width, deposits)[i] == cells[i],
        forall|k: int|
            0 <= k < deposits.len() && (#[trigger] deposits[k]).index(width) == i && (forall|m: int|
                k < m < deposits.len() ==> (#[trigger] deposits[m]).index(width) != i)
                ==> deposited(cells, width, deposits)[i] == deposits[k].cell(),
    decreases deposits.len(),
{
    if deposits.len() > 0 {
        let rest = deposits.drop_last();
        assert forall|k: int| 0 <= k < rest.len() implies 0 <= (#[trigger] rest[k]).index(width)
            < cells.len() by {
            assert(rest[k] == deposits[k]);
        }
        lemma_last_deposit_wins(cells, width, rest, i);
        assert(0 <= deposits[deposits.len() - 1].index(width) < cells.len());
        assert forall|k: int|
            0 <= k < deposits.len() && (#[trigger] deposits[k]).index(width) == i && (forall|m: int|
                k < m < deposits.len() ==> (#[trigger] deposits[m]).index(width)
                    != i) implies deposited(cells, width, deposits)[i] == deposits[k].cell() by {
            if k < deposits.len() - 1 {
                assert(rest[k] == deposits[k]);
                assert(deposits[deposits.len() - 1].index(width) != i);
                assert forall|m: int| k < m < rest.len() implies (#[trigger] rest[m]).index(width)
                    != i by {
                    assert(rest[m] == deposits[m]);
                }
            }
        }
        if forall|k: int| 0 <= k < deposits.len() ==> (#[trigger] deposits[k]).index(width) != i {
            assert forall|k: int| 0 <= k < rest.len() implies (#[trigger] rest[k]).index(width)
                != i by {
                assert(rest[k] == deposits[k]);
            }
            assert(deposits[deposits.len() - 1].index(width) != i);
        }
    }
}

impl Grid {
    /// Makes the deposits one after the other.
    pub fn deposit_all(&mut self, deposits: &Vec<Deposit>)
        requires
            old(self).wf(),
            deposits_fit(deposits@, old(self).spec_width(), old(self).cells().len() as int),
        ensures
            final(self).wf(),
            final(self).same_size(*old(self)),
            final(self).cells() == deposited(old(self).cells(), old(self).spec_width(), deposits@),
    {
        let ghost before = self.cells();
        let ghost width = self.spec_width();
        let ghost height = self.spec_height();
        let mut i: usize = 0;
        while i < deposits.len()
            invariant
                i <= deposits@.len(),
                self.wf(),
                self.spec_width() == width,
                self.spec_height() == height,
                before.len() == self.cells().len(),
                deposits_fit(deposits@, width, before.len() as int),
                self.cells() == deposited(before, width, deposits@.take(i as int)),
            decreases deposits@.len() - i,
        {
            proof {
                assert(deposits@.take(i + 1).drop_last() =~= deposits@.take(i as int));
            }
            let d = deposits[i];
            self.deposit_heat(d.x, d.y, d.rgb);
            i += 1;
        }
        proof {
            assert(deposits@.take(deposits@.len() as int) =~= deposits@);
        }
    }
}

} // verus!
