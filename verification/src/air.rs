//! What the three statements share: boundary assertions on a trace and the
//! conditions under which a trace meets its constraints.

use vstd::prelude::*;
use crate::field::Felt;

verus! {

/// The number of rows of every trace built here (winterfell's smallest trace length).
pub const TRACE_LENGTH: usize = 8;

/// An assertion that the cell in `column` at `step` holds `value`.
#[derive(Clone, Copy, Debug)]
pub struct BoundaryAssertion {
    pub column: usize,
    pub step: usize,
    pub value: Felt,
}

impl View for BoundaryAssertion {
    /// `(column, step, value)`.
    type V = (int, int, int);

    open spec fn view(&self) -> (int, int, int) {
        (self.column as int, self.step as int, self.value@)
    }
}

/// The views of a sequence of assertions.
pub open spec fn assertion_views(asserts: Seq<BoundaryAssertion>) -> Seq<(int, int, int)> {
    Seq::new(asserts.len(), |k: int| asserts[k]@)
}

/// The assertion `(column, step, value)` holds in the rows `trace`.
pub open spec fn assertion_holds(trace: Seq<Seq<int>>, a: (int, int, int)) -> bool {
    &&& 0 <= a.1 < trace.len()
    &&& 0 <= a.0 < trace[a.1].len()
    &&& trace[a.1][a.0] == a.2
}

/// Every assertion of `asserts` holds in `trace`.
pub open spec fn assertions_hold(trace: Seq<Seq<int>>, asserts: Seq<(int, int, int)>) -> bool {
    forall|k: int| 0 <= k < asserts.len() ==> assertion_holds(trace, #[trigger] asserts[k])
}

/// Every row of `trace` has `width` cells, each a canonical field value.
pub open spec fn canonical_rows(trace: Seq<Seq<int>>, width: int) -> bool {
    forall|s: int|
        0 <= s < trace.len() ==> {
            &&& #[trigger] trace[s].len() == width
            &&& forall|c: int| 0 <= c < width ==> 0 <= #[trigger] trace[s][c] < crate::field::modulus()
        }
}

/// Every value of `out` is zero.
pub open spec fn all_zero(out: Seq<int>) -> bool {
    forall|i: int| 0 <= i < out.len() ==> #[trigger] out[i] == 0
}

/// Every pair of consecutive rows of `trace` makes `transition` evaluate to zeros.
pub open spec fn transitions_hold(
    trace: Seq<Seq<int>>,
    transition: spec_fn(Seq<int>, Seq<int>) -> Seq<int>,
) -> bool {
    forall|s: int|
        0 <= s < trace.len() - 1 ==> all_zero(#[trigger] transition(trace[s], trace[s + 1]))
}

} // verus!
