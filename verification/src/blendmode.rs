use vstd::prelude::*;

verus! {

/// A blendmode for use with layers: wraps the backend's blend description `B`.
#[derive(Copy, Clone)]
pub struct BlendMode<B>(B);

impl<B: Copy> BlendMode<B> {
    /// The wrapped blend description.
    pub closed spec fn value(self) -> B {
        self.0
    }

    /// Wraps a backend blend description.
    pub fn new(blend: B) -> (r: Self)
        ensures
            r.value() == blend,
    {
        BlendMode(blend)
    }

    /// Replaces this blendmode with `other`.
    pub fn set(&mut self, other: BlendMode<B>)
        ensures
            final(self).value() == other.value(),
    {
        self.0 = other.0;
    }
}

/// Returns the backend blend description of a blendmode.
pub fn inner<B: Copy>(blendmode: &BlendMode<B>) -> (r: B)
    ensures
        r == blendmode.value(),
{
    blendmode.0
}

/// Returns the backend blend description of a blendmode, as [`inner`] does.
pub fn access_blendmode<B: Copy>(blendmode: &BlendMode<B>) -> (r: B)
    ensures
        r == blendmode.value(),
{
    blendmode.0
}

} // verus!
