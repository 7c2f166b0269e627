//! A string container for callers that hold a secret across calls and wipe
//! it on demand.
use vstd::prelude::*;
use crate::models::wipe;

verus! {

/// A string that is wiped when released or on request.
pub struct ZeroizedString {
    inner: String,
}

impl View for ZeroizedString {
    type V = Seq<char>;

    closed spec fn view(&self) -> Seq<char> {
        self.inner@
    }
}

impl ZeroizedString {
    /// A container holding a copy of `data`.
    pub fn new(data: &str) -> (r: ZeroizedString)
        ensures
            r@ == data@,
    {
        ZeroizedString { inner: data.to_owned() }
    }

    /// A copy of the held text.
    pub fn get_value(&self) -> (r: String)
        ensures
            r@ == self@,
    {
        self.inner.clone()
    }

    /// Wipes the held text; the container is empty afterwards.
    pub fn zeroize(&mut self)
        ensures
            final(self)@ == Seq::<char>::empty(),
        opens_invariants none
        no_unwind
    {
        wipe(&mut self.inner);
    }
}

impl Drop for ZeroizedString {
    fn drop(&mut self)
        opens_invariants none
        no_unwind
    {
        self.zeroize();
    }
}

} // verus!
