//! A container of one or more values that remembers whether it holds exactly
//! one.

use vstd::prelude::*;
use crate::error::{CodecError, ErrorKind, FailureKind, Failure};

verus! {

/// One value, or a sequence of values.
///
/// On the wire a single value stands bare and a sequence stands in an array. A
/// well-formed container holds a sequence only where it has two or more items,
/// so that each number of items has exactly one form.
#[derive(Debug, PartialEq)]
pub enum FoldedSlice<T> {
    One(Box<T>),
    Many(Vec<T>),
}

/// `core::slice::from_ref` gives a slice of length one that holds the
/// referenced value.
pub assume_specification<T>[ core::slice::from_ref::<T> ](s: &T) -> (r: &[T])
    ensures
        r@ == seq![*s],
;

impl<T> View for FoldedSlice<T> {
    type V = Seq<T>;

    /// The items that the container holds, in order.
    open spec fn view(&self) -> Seq<T> {
        match self {
            FoldedSlice::One(value) => seq![**value],
            FoldedSlice::Many(values) => values@,
        }
    }
}

impl<T> FoldedSlice<T> {
    /// Whether the container has the one form that belongs to its number of
    /// items: a single value for one item, a sequence for two or more.
    pub open spec fn wf(&self) -> bool {
        match self {
            FoldedSlice::One(_) => true,
            FoldedSlice::Many(values) => values.len() >= 2,
        }
    }

    /// A container of exactly one value.
    pub fn from_one(value: T) -> (r: FoldedSlice<T>)
        ensures
            r == FoldedSlice::One(Box::new(value)),
            r.wf(),
            r@ == seq![value],
    {
        FoldedSlice::One(Box::new(value))
    }

    /// A container of the given values, in their order. A sequence of one item
    /// becomes the single-value form. An empty sequence is refused, because no
    /// form stands for it.
    pub fn from_many(many: Vec<T>) -> (r: Result<FoldedSlice<T>, CodecError>)
        ensures
            match r {
                Ok(folded) => {
                    &&& many.len() > 0
                    &&& folded.wf()
                    &&& folded@ == many@
                    &&& folded is One <==> many.len() == 1
                },
                Err(e) => many.len() == 0 && e@ == Failure::at_root(FailureKind::EmptyCollection),
            },
    {
        let mut many = many;
        if many.len() == 0 {
            Err(CodecError::at_root(ErrorKind::EmptyCollection))
        } else if many.len() == 1 {
            let ghost before = many@;
            let value = many.pop().unwrap();
            let folded = FoldedSlice::One(Box::new(value));
            assert(folded@ =~= before);
            Ok(folded)
        } else {
            Ok(FoldedSlice::Many(many))
        }
    }

    /// The items as one slice, whichever form holds them.
    pub fn as_slice(&self) -> (r: &[T])
        ensures
            r@ == self@,
    {
        match self {
            FoldedSlice::One(value) => core::slice::from_ref(&**value),
            FoldedSlice::Many(values) => values.as_slice(),
        }
    }

    /// The number of items.
    pub fn len(&self) -> (r: usize)
        ensures
            r == self@.len(),
            self.wf() ==> r >= 1,
    {
        match self {
            FoldedSlice::One(_) => 1,
            FoldedSlice::Many(values) => values.len(),
        }
    }
}

} // verus!
