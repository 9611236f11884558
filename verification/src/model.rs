//! What the parser's values stand for in contracts.
//!
//! The grammar is stated over the bytes of the text. A text stands for its
//! bytes, a list for the sequence of what its items stand for, a number for
//! itself.

use crate::errors::{Failure, FailureModel};
use vstd::prelude::*;
use vstd::string::*;

verus! {

/// A value with a model over bytes and mathematical sequences.
pub trait Model {
    type M;

    spec fn model(&self) -> Self::M;
}

impl<'a> Model for &'a str {
    type M = Seq<u8>;

    open spec fn model(&self) -> Seq<u8> {
        self.spec_bytes()
    }
}

impl Model for () {
    type M = ();

    open spec fn model(&self) -> () {
        ()
    }
}

impl Model for bool {
    type M = bool;

    open spec fn model(&self) -> bool {
        *self
    }
}

impl Model for u8 {
    type M = u8;

    open spec fn model(&self) -> u8 {
        *self
    }
}

impl Model for u16 {
    type M = u16;

    open spec fn model(&self) -> u16 {
        *self
    }
}

impl Model for u32 {
    type M = u32;

    open spec fn model(&self) -> u32 {
        *self
    }
}

impl Model for u64 {
    type M = u64;

    open spec fn model(&self) -> u64 {
        *self
    }
}

impl<T: Model> Model for Option<T> {
    type M = Option<T::M>;

    open spec fn model(&self) -> Option<T::M> {
        match self {
            Some(v) => Some(v.model()),
            None => None,
        }
    }
}

impl<T: Model> Model for Vec<T> {
    type M = Seq<T::M>;

    open spec fn model(&self) -> Seq<T::M> {
        Seq::new(self@.len(), |i: int| self@[i].model())
    }
}

impl<A: Model, B: Model> Model for (A, B) {
    type M = (A::M, B::M);

    open spec fn model(&self) -> (A::M, B::M) {
        (self.0.model(), self.1.model())
    }
}

impl<A: Model, B: Model, C: Model> Model for (A, B, C) {
    type M = (A::M, B::M, C::M);

    open spec fn model(&self) -> (A::M, B::M, C::M) {
        (self.0.model(), self.1.model(), self.2.model())
    }
}

impl Model for Failure {
    type M = FailureModel;

    open spec fn model(&self) -> FailureModel {
        self@
    }
}

impl<T: Model, E: Model> Model for Result<T, E> {
    type M = Result<T::M, E::M>;

    open spec fn model(&self) -> Result<T::M, E::M> {
        match self {
            Ok(v) => Ok(v.model()),
            Err(e) => Err(e.model()),
        }
    }
}

/// What a parser makes of a text: the bytes it left unread and the value it
/// found, or a failure.
pub type Outcome<T> = Result<(Seq<u8>, T), FailureModel>;

/// What an executable parser returns.
pub type Parsed<'a, T> = Result<(&'a str, T), Failure>;

/// True when a successful `result` leaves no more unread than `input` held.
pub open spec fn fits<'a, T>(input: &'a str, result: Parsed<'a, T>) -> bool {
    result matches Ok((rest, _)) ==> rest.spec_bytes().len() <= input.spec_bytes().len()
}

/// True when a successful `result` leaves less unread than `input` held.
pub open spec fn advances<'a, T>(input: &'a str, result: Parsed<'a, T>) -> bool {
    result matches Ok((rest, _)) ==> rest.spec_bytes().len() < input.spec_bytes().len()
}

/// The model of a list grows with the list.
pub proof fn lemma_model_push<T: Model>(before: Vec<T>, after: Vec<T>, item: T)
    requires
        after@ == before@.push(item),
    ensures
        after.model() == before.model().push(item.model()),
{
    assert(after.model() =~= before.model().push(item.model()));
}

/// An empty list stands for the empty sequence.
pub proof fn lemma_model_empty<T: Model>(list: Vec<T>)
    requires
        list@.len() == 0,
    ensures
        list.model() == Seq::<T::M>::empty(),
{
    assert(list.model() =~= Seq::<T::M>::empty());
}

} // verus!
