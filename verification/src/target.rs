use vstd::prelude::*;

verus! {

/// What a render target draws to: a display with its current frame, if one is
/// prepared, or a framebuffer texture.
pub enum TargetInfo<D, F, T> {
    Display(D, Option<F>),
    Framebuffer(T),
}

/// A target to render to.
pub struct Target<D, F, T>(TargetInfo<D, F, T>);

impl<D, F, T> Target<D, F, T> {
    /// What the target draws to.
    pub closed spec fn info(&self) -> TargetInfo<D, F, T> {
        self.0
    }

    /// Creates a target from its description.
    pub fn new(info: TargetInfo<D, F, T>) -> (r: Self)
        ensures
            r.info() == info,
    {
        Target(info)
    }

    /// Returns true if this target is a texture.
    pub fn is_texture(&self) -> (r: bool)
        ensures
            r == (self.info() is Framebuffer),
    {
        match &self.0 {
            TargetInfo::Framebuffer(_) => true,
            _ => false,
        }
    }

    /// Returns true if this target is a display.
    pub fn is_display(&self) -> (r: bool)
        ensures
            r == (self.info() is Display),
    {
        match &self.0 {
            TargetInfo::Display(_, _) => true,
            _ => false,
        }
    }
}

/// Locks the target for rendering: gives exclusive access to what the target draws to,
/// as long as the returned reference lives. While it lives the target is borrowed, so a
/// second lock of the same target cannot be taken.
pub fn lock<D, F, T>(target: &mut Target<D, F, T>) -> (r: &mut TargetInfo<D, F, T>)
    ensures
        *r == old(target).info(),
        final(target).info() == *final(r),
{
    &mut target.0
}

/// Whether `after` is what preparing `before` gives, with `draw` making the frame.
pub open spec fn prepared<D, F, T, G: FnOnce(&D) -> F>(
    before: TargetInfo<D, F, T>,
    after: TargetInfo<D, F, T>,
    draw: G,
) -> bool {
    match before {
        TargetInfo::Display(d, None) => exists|f: F|
            draw.ensures((&d,), f) && after == TargetInfo::<D, F, T>::Display(d, Some(f)),
        _ => after == before,
    }
}

/// Prepares the target for drawing: a display target without a frame gets the frame
/// that `draw` makes for its display; any other target is left as it is.
pub fn prepare<D, F, T, G: FnOnce(&D) -> F>(target: &mut Target<D, F, T>, draw: G)
    requires
        old(target).info() matches TargetInfo::Display(d, None) ==> draw.requires((&d,)),
    ensures
        prepared(old(target).info(), final(target).info(), draw),
{
    match &mut target.0 {
        TargetInfo::Display(display, frame) => {
            if frame.is_none() {
                let f = draw(&*display);
                *frame = Some(f);
            }
        },
        _ => {},
    }
}

/// Removes the frame from a display target and returns it; other targets yield `None`.
pub fn take<D, F, T>(target: &mut Target<D, F, T>) -> (r: Option<F>)
    ensures
        match old(target).info() {
            TargetInfo::Display(d, f) => r == f && final(target).info()
                == TargetInfo::<D, F, T>::Display(d, None),
            TargetInfo::Framebuffer(t) => r is None && final(target).info() == old(target).info(),
        },
{
    match &mut target.0 {
        TargetInfo::Display(_, frame) => frame.take(),
        _ => None,
    }
}

/// Preparing twice is preparing once: after a first prepare a display target holds a frame,
/// and a second prepare keeps that frame (no new frame is made); other targets stay as they are.
pub proof fn lemma_prepare_twice<D, F, T, G1: FnOnce(&D) -> F, G2: FnOnce(&D) -> F>(
    first: TargetInfo<D, F, T>,
    second: TargetInfo<D, F, T>,
    third: TargetInfo<D, F, T>,
    draw1: G1,
    draw2: G2,
)
    requires
        prepared(first, second, draw1),
        prepared(second, third, draw2),
    ensures
        third == second,
        first is Display ==> second matches TargetInfo::Display(_, Some(_)),
{
}

} // verus!
