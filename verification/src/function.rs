//! Functions as values: what a filter is given to do the arithmetic on
//! pixels and weights.

use vstd::prelude::*;

verus! {

/// A pure function from `A` to `R`, defined on part of `A`.
///
/// A filter that is built from such a function writes what `result` names,
/// so that what it computes can be stated exactly.
pub trait Function<A, R> {
    /// Whether the function can be applied to `args`.
    spec fn defined(&self, args: A) -> bool;

    /// What the function makes of `args`.
    spec fn result(&self, args: A) -> R;

    /// Apply the function.
    fn apply(&self, args: A) -> (result: R)
        requires
            self.defined(args),
        ensures
            result == self.result(args),
    ;
}

/// A Rust function or closure of one argument, as a `Function`.  It is
/// defined where it can be called and its contract allows one result only,
/// and its result is the one that its contract allows.  The contract of a
/// Rust function says which results are allowed, not that there is one: a
/// caller that needs the value of a result implements `Function` on a type
/// of its own.
pub struct Unary<F>(pub F);

/// A Rust function or closure of two arguments, as a `Function` of a pair.
pub struct Binary<F>(pub F);

/// A Rust function or closure of three arguments, as a `Function` of a
/// triple.
pub struct Ternary<F>(pub F);

impl<A, R, F: Fn(A) -> R> Function<A, R> for Unary<F> {
    open spec fn defined(&self, args: A) -> bool {
        &&& self.0.requires((args,))
        &&& forall|r: R, s: R| self.0.ensures((args,), r) && self.0.ensures((args,), s) ==> r == s
    }

    open spec fn result(&self, args: A) -> R {
        choose|r: R| self.0.ensures((args,), r)
    }

    fn apply(&self, args: A) -> (result: R)
        ensures
            self.0.ensures((args,), result),
    {
        (self.0)(args)
    }
}

impl<A, B, R, F: Fn(A, B) -> R> Function<(A, B), R> for Binary<F> {
    open spec fn defined(&self, args: (A, B)) -> bool {
        &&& self.0.requires(args)
        &&& forall|r: R, s: R| self.0.ensures(args, r) && self.0.ensures(args, s) ==> r == s
    }

    open spec fn result(&self, args: (A, B)) -> R {
        choose|r: R| self.0.ensures(args, r)
    }

    fn apply(&self, args: (A, B)) -> (result: R)
        ensures
            self.0.ensures(args, result),
    {
        (self.0)(args.0, args.1)
    }
}

impl<A, B, C, R, F: Fn(A, B, C) -> R> Function<(A, B, C), R> for Ternary<F> {
    open spec fn defined(&self, args: (A, B, C)) -> bool {
        &&& self.0.requires(args)
        &&& forall|r: R, s: R| self.0.ensures(args, r) && self.0.ensures(args, s) ==> r == s
    }

    open spec fn result(&self, args: (A, B, C)) -> R {
        choose|r: R| self.0.ensures(args, r)
    }

    fn apply(&self, args: (A, B, C)) -> (result: R)
        ensures
            self.0.ensures(args, result),
    {
        (self.0)(args.0, args.1, args.2)
    }
}

/// When a function of one argument is defined as a `Function`, and what its
/// result then is: it is defined on `args` where it can be called on them
/// and its contract allows one result only, and its result is whatever its
/// contract allows.
pub proof fn lemma_unary<A, R, F: Fn(A) -> R>(f: Unary<F>, args: A)
    requires
        f.0.requires((args,)),
        forall|r: R, s: R| f.0.ensures((args,), r) && f.0.ensures((args,), s) ==> r == s,
    ensures
        f.defined(args),
        forall|r: R| f.0.ensures((args,), r) ==> f.result(args) == r,
{
}

/// When a function of two arguments is defined as a `Function`, and what
/// its result then is.
pub proof fn lemma_binary<A, B, R, F: Fn(A, B) -> R>(f: Binary<F>, args: (A, B))
    requires
        f.0.requires(args),
        forall|r: R, s: R| f.0.ensures(args, r) && f.0.ensures(args, s) ==> r == s,
    ensures
        f.defined(args),
        forall|r: R| f.0.ensures(args, r) ==> f.result(args) == r,
{
}

/// When a function of three arguments is defined as a `Function`, and what
/// its result then is.
pub proof fn lemma_ternary<A, B, C, R, F: Fn(A, B, C) -> R>(f: Ternary<F>, args: (A, B, C))
    requires
        f.0.requires(args),
        forall|r: R, s: R| f.0.ensures(args, r) && f.0.ensures(args, s) ==> r == s,
    ensures
        f.defined(args),
        forall|r: R| f.0.ensures(args, r) ==> f.result(args) == r,
{
}

} // verus!
