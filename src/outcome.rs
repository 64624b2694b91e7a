//! The three-way result that every guard and converter returns.
use vstd::prelude::*;

verus! {

/// What a guard makes of its input: a value, a hard error, or a
/// declination that lets the next candidate route try.
#[derive(Debug, Clone, PartialEq, Eq)]
pub enum Outcome<T, E> {
    Success(T),
    Failure(E),
    Forward,
}

impl<T, E> Outcome<T, E> {
    pub open spec fn spec_is_forward(&self) -> bool {
        self is Forward
    }

    /// Whether the guard declined.
    #[verifier::when_used_as_spec(spec_is_forward)]
    pub fn is_forward(&self) -> (r: bool)
        ensures
            r == (self is Forward),
    {
        match self {
            Outcome::Forward => true,
            _ => false,
        }
    }

    /// Whether the guard produced a value.
    pub fn is_success(&self) -> (r: bool)
        ensures
            r == (self is Success),
    {
        match self {
            Outcome::Success(_) => true,
            _ => false,
        }
    }
}

} // verus!
