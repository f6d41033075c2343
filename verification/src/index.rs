use vstd::prelude::*;

verus! {

/// A position in a list of a known length. Moving past an end of the list
/// leads to its other end.
#[derive(Clone, Copy, Debug)]
pub struct Index {
    index: usize,
    length: usize,
}

/// An `Index` as plain values.
pub struct IndexView {
    /// The position.
    pub index: nat,
    /// The length of the list.
    pub length: nat,
}

impl IndexView {
    /// The position is in the list, or zero in an empty list.
    pub open spec fn wf(self) -> bool {
        if self.length == 0 {
            self.index == 0
        } else {
            self.index < self.length
        }
    }

    /// The position one step up or down, around the ends of the list.
    pub open spec fn increment(self, up: bool) -> IndexView {
        if self.length == 0 {
            self
        } else if up {
            IndexView { index: (self.index + 1) % self.length, ..self }
        } else {
            IndexView { index: ((self.index + self.length - 1) % (self.length as int)) as nat, ..self }
        }
    }
}

impl View for Index {
    type V = IndexView;

    closed spec fn view(&self) -> IndexView {
        IndexView { index: self.index as nat, length: self.length as nat }
    }
}

impl Index {
    #[verifier::type_invariant]
    spec fn well_formed(&self) -> bool {
        self@.wf()
    }

    /// The position `index` in a list of `length` items, or the start of the
    /// list where `index` is not in it.
    pub fn new(index: usize, length: usize) -> (made: Index)
        ensures
            made@.length == length,
            made@.index == if index < length {
                index
            } else {
                0
            },
            made@.wf(),
    {
        Index { index: if index < length {
            index
        } else {
            0
        }, length }
    }

    /// The position.
    pub fn get(&self) -> (index: usize)
        ensures
            index == self@.index,
            self@.wf(),
    {
        proof {
            use_type_invariant(self);
        }
        self.index
    }

    /// The length of the list.
    pub fn get_length(&self) -> (length: usize)
        ensures
            length == self@.length,
    {
        self.length
    }

    /// Moves to `index` if the list has such a position, and says whether it
    /// has.
    pub fn set(&mut self, index: usize) -> (moved: bool)
        ensures
            moved == (index < old(self)@.length),
            final(self)@ == if moved {
                IndexView { index: index as nat, ..old(self)@ }
            } else {
                old(self)@
            },
    {
        if index < self.length {
            *self = Index { index, length: self.length };
            true
        } else {
            false
        }
    }

    /// Moves one step up or down, around the ends of the list.
    pub fn increment(&mut self, up: bool)
        ensures
            final(self)@ == old(self)@.increment(up),
            final(self)@.wf(),
    {
        proof {
            use_type_invariant(&*self);
        }
        if self.length == 0 {
            return ;
        }
        let index = if up {
            if self.index == self.length - 1 {
                0
            } else {
                self.index + 1
            }
        } else {
            if self.index == 0 {
                self.length - 1
            } else {
                self.index - 1
            }
        };
        proof {
            let i = self.index as int;
            let n = self.length as int;
            if up {
                if i == n - 1 {
                    assert((i + 1) % n == 0) by (nonlinear_arith)
                        requires
                            i + 1 == n,
                            n > 0,
                    ;
                } else {
                    assert((i + 1) % n == i + 1) by (nonlinear_arith)
                        requires
                            0 <= i + 1 < n,
                    ;
                }
            } else {
                if i == 0 {
                    assert((i + n - 1) % n == n - 1) by (nonlinear_arith)
                        requires
                            i == 0,
                            n > 0,
                    ;
                } else {
                    assert((i + n - 1) % n == i - 1) by (nonlinear_arith)
                        requires
                            0 < i < n,
                    ;
                }
            }
        }
        *self = Index { index, length: self.length };
    }
}

} // verus!
