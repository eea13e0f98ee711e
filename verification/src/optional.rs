//! An optional configuration value with an optional candidate set and an
//! optional default, checked at resolution time.

use crate::err::Error;
use vstd::prelude::*;
use vstd::std_specs::cmp::PartialEqSpec;

verus! {

/// An optional configuration value: the value itself, the candidate set it
/// must be drawn from, and the default that replaces it when absent.
#[derive(Debug)]
pub struct Optional<T> {
    val: Option<T>,
    possible_val: Option<Vec<T>>,
    default_val: Option<T>,
}

impl<T> Optional<T> {
    /// The held value.
    pub closed spec fn spec_val(self) -> Option<T> {
        self.val
    }

    /// The candidate set, if one was given.
    pub closed spec fn spec_possible(self) -> Option<Seq<T>> {
        match self.possible_val {
            Some(v) => Some(v@),
            None => None,
        }
    }

    /// The default, if one was given.
    pub closed spec fn spec_default(self) -> Option<T> {
        self.default_val
    }
}

impl<T: PartialEq> Optional<T> {
    /// Succeeds unless a value and a candidate set are both present and the
    /// value equals no candidate.
    pub fn check(&self) -> (r: Result<(), Error>)
        ensures
            T::obeys_eq_spec() ==> ((r is Ok) <==> (self.spec_val() is None
                || self.spec_possible() is None || (exists|i: int|
                0 <= i < self.spec_possible()->Some_0.len() && (
                #[trigger] self.spec_possible()->Some_0[i]).eq_spec(&self.spec_val()->Some_0)))),
            r is Err ==> r->Err_0 == Error::InvalidParameter(0u32),
    {
        if let Some(val) = &self.val {
            if let Some(vec) = &self.possible_val {
                let n = vec.len();
                let mut i: usize = 0;
                while i < n
                    invariant
                        n == vec@.len(),
                        0 <= i <= n,
                        self.spec_val() == Some(*val),
                        self.spec_possible() == Some(vec@),
                        T::obeys_eq_spec() ==> forall|j: int|
                            0 <= j < i ==> !(#[trigger] vec@[j]).eq_spec(val),
                    decreases n - i,
                {
                    if vec[i] == *val {
                        proof {
                            if T::obeys_eq_spec() {
                                assert(self.spec_possible()->Some_0[i as int].eq_spec(
                                    &self.spec_val()->Some_0,
                                ));
                            }
                        }
                        return Ok(());
                    }
                    i = i + 1;
                }
                return Err(Error::InvalidParameter(0));
            }
        }
        Ok(())
    }

    /// Wraps a present value with no candidate set and no default.
    pub fn new(val: T) -> (r: Self)
        ensures
            r.spec_val() == Some(val),
            r.spec_possible() is None,
            r.spec_default() is None,
    {
        Self { val: Some(val), possible_val: None, default_val: None }
    }

    /// Attaches the candidate set the value must be drawn from.
    pub fn possible(self, vec: Vec<T>) -> (r: Self)
        ensures
            r.spec_val() == self.spec_val(),
            r.spec_possible() == Some(vec@),
            r.spec_default() == self.spec_default(),
    {
        Self { possible_val: Some(vec), ..self }
    }

    /// Attaches the default that replaces an absent value.
    pub fn default(self, val: T) -> (r: Self)
        ensures
            r.spec_val() == self.spec_val(),
            r.spec_possible() == self.spec_possible(),
            r.spec_default() == Some(val),
    {
        Self { default_val: Some(val), ..self }
    }
}

} // verus!
