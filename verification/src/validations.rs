//! Validators: steps that turn an input into an output, and their chaining.

use vstd::prelude::*;
use core::marker::PhantomData;

verus! {

/// A step that turns an input into an output.
pub trait Validation: Sized {
    type Input;

    type Output;

    /// The inputs that the step takes.
    spec fn accepts(&self, i: Self::Input) -> bool;

    /// Whether `o` can be what the step makes of `i`.
    spec fn yields(&self, i: Self::Input, o: Self::Output) -> bool;

    /// Makes an output of the input `i`.
    fn run(&self, i: Self::Input) -> (o: Self::Output)
        requires
            self.accepts(i),
        ensures
            self.yields(i, o),
    ;
}

/// A validator that is a function and needs nothing else.
#[verifier::reject_recursive_types(I)]
#[verifier::reject_recursive_types(O)]
#[verifier::reject_recursive_types(F)]
pub struct PureValidator<I, O, F: Fn(I) -> O> {
    func: F,
    id: PhantomData<I>,
    od: PhantomData<O>,
}

impl<I, O, F: Fn(I) -> O> PureValidator<I, O, F> {
    /// The function that the validator applies.
    pub closed spec fn func(self) -> F {
        self.func
    }

    /// The validator that applies `func`.
    pub fn new(func: F) -> (r: Self)
        ensures
            r.func() == func,
    {
        PureValidator { func, id: PhantomData, od: PhantomData }
    }

    /// The validator that applies the closure `f`.
    pub fn from_closure(f: F) -> (r: Self)
        ensures
            r.func() == f,
    {
        Self::new(f)
    }

    /// The validator that hands what this one makes on to `other`.
    pub fn cons<'a, V2>(&'a self, other: &'a V2) -> (r: ConsV<'a, Self, V2>) where
        V2: Validation<Input = O>,

        ensures
            r.v1 == self,
            r.v2 == other,
    {
        ConsV { v1: self, v2: other }
    }
}

impl<I, O, F: Fn(I) -> O> Validation for PureValidator<I, O, F> {
    type Input = I;

    type Output = O;

    open spec fn accepts(&self, i: I) -> bool {
        call_requires(self.func(), (i,))
    }

    open spec fn yields(&self, i: I, o: O) -> bool {
        call_ensures(self.func(), (i,), o)
    }

    fn run(&self, i: I) -> (o: O) {
        let f = &self.func;
        f(i)
    }
}

/// Two validators in a row: what the first makes is the input of the
/// second.
pub struct ConsV<'a, V1, V2> {
    pub v1: &'a V1,
    pub v2: &'a V2,
}

impl<'a, V1, V2> ConsV<'a, V1, V2> where
    V1: Validation,
    V2: Validation<Input = V1::Output>,
 {
    /// The validator that hands what this chain makes on to `other`.
    pub fn cons<'b, V3>(&'b self, other: &'b V3) -> (r: ConsV<'b, Self, V3>) where
        V3: Validation<Input = V2::Output>,

        ensures
            r.v1 == self,
            r.v2 == other,
    {
        ConsV { v1: self, v2: other }
    }
}

impl<'a, V1, V2> Validation for ConsV<'a, V1, V2> where
    V1: Validation,
    V2: Validation<Input = V1::Output>,
 {
    type Input = V1::Input;

    type Output = V2::Output;

    /// The first validator takes the input, and the second takes whatever
    /// the first can make of it.
    open spec fn accepts(&self, i: V1::Input) -> bool {
        &&& self.v1.accepts(i)
        &&& forall|mid: V1::Output| self.v1.yields(i, mid) ==> self.v2.accepts(mid)
    }

    /// The output is what the second validator makes of something that the
    /// first makes of the input.
    open spec fn yields(&self, i: V1::Input, o: V2::Output) -> bool {
        exists|mid: V1::Output| self.v1.yields(i, mid) && self.v2.yields(mid, o)
    }

    fn run(&self, i: V1::Input) -> (o: V2::Output) {
        let r1 = self.v1.run(i);
        let r2 = self.v2.run(r1);
        r2
    }
}

} // verus!
