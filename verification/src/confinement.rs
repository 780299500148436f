//! Collections whose number of items is held within declared bounds.

use amplify::confinement::Confined;
use vstd::prelude::*;

verus! {

/// Why a collection does not fit its confinement.
#[derive(PartialEq, Eq, Copy, Clone, Debug, Structural)]
pub enum ConfinementError {
    /// The collection holds fewer items than the declared minimum.
    Undersize { len: usize, min_len: usize },
    /// The collection holds more items than the declared maximum.
    Oversize { len: usize, max_len: usize },
    /// An index lies outside the collection.
    OutOfBoundary { index: usize, len: usize },
}

/// The verdict on a collection of `len` items confined to `min_len ..= max_len`:
/// `None` where it fits, else the error that names the bound it breaks.
/// The lower bound is tested first.
pub open spec fn confinement_failure(len: usize, min_len: usize, max_len: usize) -> Option<
    ConfinementError,
> {
    if len < min_len {
        Some(ConfinementError::Undersize { len, min_len })
    } else if len > max_len {
        Some(ConfinementError::Oversize { len, max_len })
    } else {
        None
    }
}

/// Passes a vector through `amplify::confinement::Confined::try_from` and
/// `Confined::release`. Trusted: the vector comes back unchanged where its
/// length lies within the bounds, and otherwise the error is the one that
/// `confinement_failure` names.
#[verifier::external_body]
fn confine_vec<T, const MIN_LEN: usize, const MAX_LEN: usize>(items: Vec<T>) -> (r: Result<
    Vec<T>,
    ConfinementError,
>)
    ensures
        confinement_failure(items.len(), MIN_LEN, MAX_LEN) is None ==> r is Ok && r->Ok_0 == items,
        confinement_failure(items.len(), MIN_LEN, MAX_LEN) is Some ==> r is Err && Some(r->Err_0)
            == confinement_failure(items.len(), MIN_LEN, MAX_LEN),
{
    match Confined::<Vec<T>, MIN_LEN, MAX_LEN>::try_from(items) {
        Ok(confined) => Ok(confined.release()),
        Err(amplify::confinement::Error::Undersize { len, min_len }) => Err(
            ConfinementError::Undersize { len, min_len },
        ),
        Err(amplify::confinement::Error::Oversize { len, max_len }) => Err(
            ConfinementError::Oversize { len, max_len },
        ),
        Err(amplify::confinement::Error::OutOfBoundary { index, len }) => Err(
            ConfinementError::OutOfBoundary { index, len },
        ),
    }
}

/// A vector that holds at least `MIN_LEN` and at most `MAX_LEN` items.
pub struct ConfinedVec<T, const MIN_LEN: usize, const MAX_LEN: usize> {
    items: Vec<T>,
}

impl<T, const MIN_LEN: usize, const MAX_LEN: usize> ConfinedVec<T, MIN_LEN, MAX_LEN> {
    #[verifier::type_invariant]
    spec fn within_bounds(&self) -> bool {
        MIN_LEN <= self.items@.len() <= MAX_LEN
    }

    /// The items, in order.
    pub closed spec fn view(&self) -> Seq<T> {
        self.items@
    }

    /// Confines `items`, or says which bound their number breaks.
    pub fn try_from(items: Vec<T>) -> (r: Result<Self, ConfinementError>)
        ensures
            confinement_failure(items.len(), MIN_LEN, MAX_LEN) is None ==> r is Ok && r->Ok_0@
                == items@,
            confinement_failure(items.len(), MIN_LEN, MAX_LEN) is Some ==> r is Err && Some(
                r->Err_0,
            ) == confinement_failure(items.len(), MIN_LEN, MAX_LEN),
    {
        match confine_vec::<T, MIN_LEN, MAX_LEN>(items) {
            Ok(items) => Ok(ConfinedVec { items }),
            Err(e) => Err(e),
        }
    }

    /// The number of items.
    pub fn len(&self) -> (n: usize)
        ensures
            n == self@.len(),
            MIN_LEN <= n <= MAX_LEN,
    {
        proof {
            use_type_invariant(self);
        }
        self.items.len()
    }

    /// The items as a slice.
    pub fn as_slice(&self) -> (s: &[T])
        ensures
            s@ == self@,
            MIN_LEN <= s@.len() <= MAX_LEN,
    {
        proof {
            use_type_invariant(self);
        }
        self.items.as_slice()
    }

    /// Gives up the confinement and returns the vector.
    pub fn into_inner(self) -> (items: Vec<T>)
        ensures
            items@ == self@,
            MIN_LEN <= items@.len() <= MAX_LEN,
    {
        proof {
            use_type_invariant(&self);
        }
        self.items
    }
}

} // verus!
