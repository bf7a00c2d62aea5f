//! An execution trace: a table of field elements with a fixed number of columns,
//! one row per step of the computation.

use vstd::prelude::*;
use crate::field::{Felt, modulus};

verus! {

/// The values of a row of field elements.
pub open spec fn row_values(row: Seq<Felt>) -> Seq<int> {
    Seq::new(row.len(), |j: int| row[j]@)
}

/// A row of eight hash words followed by a flag.
pub open spec fn words_row(words: Seq<u32>, flag: int) -> Seq<int> {
    Seq::new(9, |c: int| if c < 8 { words[c] as int } else { flag })
}

/// A trace table, held row by row; every row has `width` cells.
pub struct ExecutionTrace {
    width: usize,
    rows: Vec<Vec<Felt>>,
}

impl View for ExecutionTrace {
    /// Rows of cell values: `t@[step][column]`.
    type V = Seq<Seq<int>>;

    closed spec fn view(&self) -> Seq<Seq<int>> {
        Seq::new(self.rows@.len(), |i: int| row_values(self.rows@[i]@))
    }
}

impl ExecutionTrace {
    #[verifier::type_invariant]
    spec fn rows_have_width(self) -> bool {
        forall|i: int| 0 <= i < self.rows@.len() ==> #[trigger] self.rows@[i]@.len() == self.width
    }

    /// The number of columns.
    pub closed spec fn spec_width(&self) -> nat {
        self.width as nat
    }

    /// An empty trace with `width` columns.
    pub fn new(width: usize) -> (t: ExecutionTrace)
        ensures
            t@ == Seq::<Seq<int>>::empty(),
            t.spec_width() == width,
    {
        let t = ExecutionTrace { width, rows: Vec::new() };
        assert(t@ =~= Seq::<Seq<int>>::empty());
        t
    }

    /// Appends a row; it must have one cell per column.
    pub fn push_row(&mut self, row: Vec<Felt>)
        requires
            row@.len() == old(self).spec_width(),
        ensures
            final(self)@ == old(self)@.push(row_values(row@)),
            final(self).spec_width() == old(self).spec_width(),
    {
        proof {
            use_type_invariant(&*self);
        }
        let ghost before = self@;
        let mut rows: Vec<Vec<Felt>> = Vec::new();
        std::mem::swap(&mut rows, &mut self.rows);
        rows.push(row);
        self.rows = rows;
        assert(self@ =~= before.push(row_values(row@)));
    }

    /// The number of columns.
    pub fn width(&self) -> (w: usize)
        ensures
            w == self.spec_width(),
    {
        self.width
    }

    /// The number of rows (steps).
    pub fn length(&self) -> (n: usize)
        ensures
            n == self@.len(),
    {
        self.rows.len()
    }

    /// The cell in `column` at `step`.
    pub fn get(&self, column: usize, step: usize) -> (v: Felt)
        requires
            step < self@.len(),
            column < self.spec_width(),
        ensures
            v@ == self@[step as int][column as int],
    {
        proof {
            use_type_invariant(self);
        }
        self.rows[step][column]
    }
}

/// The cells of a row of eight hash words followed by a flag.
pub(crate) fn digest_row(words: &[u32; 8], flag: Felt) -> (row: Vec<Felt>)
    ensures
        row_values(row@) == words_row(words@, flag@),
        row@.len() == 9,
{
    let mut row: Vec<Felt> = Vec::new();
    let mut i: usize = 0;
    while i < 8
        invariant
            0 <= i <= 8,
            words@.len() == 8,
            row@.len() == i,
            forall|j: int| 0 <= j < i ==> #[trigger] row@[j]@ == words@[j] as int,
        decreases 8 - i,
    {
        proof {
            vstd::arithmetic::div_mod::lemma_small_mod(words@[i as int] as nat, modulus() as nat);
        }
        row.push(Felt::new(words[i] as u128));
        i = i + 1;
    }
    row.push(flag);
    assert(row_values(row@) =~= words_row(words@, flag@));
    row
}

} // verus!
