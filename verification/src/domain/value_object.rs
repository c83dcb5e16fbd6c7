use vstd::prelude::*;

verus! {

/// A value object is built validated or not at all: `Self` never exists in an
/// invalid state, which is why `new` is the only public way in.
pub trait ValueObject: Sized {
    type Raw;

    type Error;

    fn new(raw: Self::Raw) -> Result<Self, Self::Error>;
}

} // verus!
