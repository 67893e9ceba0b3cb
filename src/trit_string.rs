use vstd::prelude::*;

use crate::trit::Trit;

verus! {

/// A sequence of trits of any length.
pub struct TritString {
    values: Vec<Trit>,
}

impl View for TritString {
    type V = Seq<Trit>;

    closed spec fn view(&self) -> Seq<Trit> {
        self.values@
    }
}

impl TritString {
    /// Every trit of the sequence is well formed.
    pub open spec fn wf(&self) -> bool {
        forall|i: int| 0 <= i < self@.len() ==> (#[trigger] self@[i]).wf()
    }

    /// The sequence that holds `values`, in order.
    pub fn new(values: Vec<Trit>) -> (r: TritString)
        ensures
            r@ == values@,
    {
        TritString { values }
    }

    /// The trits, in order.
    pub fn values(&self) -> (r: &Vec<Trit>)
        ensures
            r@ == self@,
    {
        &self.values
    }

    /// `or` at each position. Where the lengths differ, the longer operand is
    /// cut to the length of the shorter one: the result has that length.
    pub fn bit_or(&self, other: &TritString) -> (r: TritString)
        requires
            self.wf(),
            other.wf(),
        ensures
            r.wf(),
            r@.len() == if self@.len() <= other@.len() {
                self@.len()
            } else {
                other@.len()
            },
            forall|i: int| 0 <= i < r@.len() ==> #[trigger] r@[i] == self@[i].spec_or(other@[i]),
    {
        let n: usize = if self.values.len() <= other.values.len() {
            self.values.len()
        } else {
            other.values.len()
        };
        let mut values: Vec<Trit> = Vec::with_capacity(n);
        let mut i: usize = 0;
        while i < n
            invariant
                0 <= i <= n,
                n <= self@.len(),
                n <= other@.len(),
                self.wf(),
                other.wf(),
                values@.len() == i,
                forall|j: int| 0 <= j < i ==> (#[trigger] values@[j]).wf(),
                forall|j: int| 0 <= j < i ==> #[trigger] values@[j] == self@[j].spec_or(other@[j]),
            decreases n - i,
        {
            values.push(self.values[i].or(&other.values[i]));
            i = i + 1;
        }
        TritString { values }
    }
}

} // verus!
