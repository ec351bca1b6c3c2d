use vstd::prelude::*;

verus! {

/// A 4x4 matrix.
pub type Mat4<T> = [[T; 4]; 4];

/// A stack of 4x4 matrices; it always holds at least one matrix, the current one on top.
pub struct Mat4Stack<T>(Vec<Mat4<T>>);

impl<T: Copy> Mat4Stack<T> {
    /// The matrices on the stack, bottom first.
    pub closed spec fn matrices(&self) -> Seq<Mat4<T>> {
        self.0@
    }

    /// The stack holds at least one matrix.
    pub open spec fn wf(&self) -> bool {
        self.matrices().len() >= 1
    }

    /// The current (top) matrix.
    pub open spec fn top(&self) -> Mat4<T> {
        self.matrices().last()
    }

    /// Creates a new matrix stack holding the given matrix.
    pub fn new(matrix: Mat4<T>) -> (r: Mat4Stack<T>)
        ensures
            r.wf(),
            r.matrices() == seq![matrix],
    {
        Mat4Stack(vec![matrix])
    }

    /// Pushes a copy of the current matrix on the stack and returns a reference to it.
    pub fn push(&mut self) -> (r: &mut Mat4<T>)
        requires
            old(self).wf(),
        ensures
            *r == old(self).top(),
            final(self).wf(),
            final(self).matrices() == old(self).matrices().push(*final(r)),
    {
        let last = self.0[self.0.len() - 1];
        self.0.push(last);
        let n = self.0.len();
        &mut self.0[n - 1]
    }

    /// Removes the top matrix from the stack and returns a reference to the new current matrix.
    pub fn pop(&mut self) -> (r: &mut Mat4<T>)
        requires
            old(self).wf(),
            old(self).matrices().len() >= 2,
        ensures
            *r == old(self).matrices()[old(self).matrices().len() - 2],
            final(self).wf(),
            final(self).matrices() == old(self).matrices().drop_last().drop_last().push(*final(r)),
    {
        self.0.pop();
        let n = self.0.len();
        &mut self.0[n - 1]
    }

    /// Returns the current matrix.
    pub fn deref(&self) -> (r: &Mat4<T>)
        requires
            self.wf(),
        ensures
            *r == self.top(),
    {
        &self.0[self.0.len() - 1]
    }

    /// Returns the current matrix for modification.
    pub fn deref_mut(&mut self) -> (r: &mut Mat4<T>)
        requires
            old(self).wf(),
        ensures
            *r == old(self).top(),
            final(self).wf(),
            final(self).matrices() == old(self).matrices().drop_last().push(*final(r)),
    {
        let n = self.0.len();
        &mut self.0[n - 1]
    }
}

/// Accessors for a point in 2d space.
pub trait Point2Trait<T> {
    spec fn spec_x(&self) -> T;

    spec fn spec_y(&self) -> T;

    fn x(&self) -> (r: T)
        ensures
            r == self.spec_x(),
    ;

    fn y(&self) -> (r: T)
        ensures
            r == self.spec_y(),
    ;

    fn as_array(&self) -> (r: [T; 2])
        ensures
            r@ == seq![self.spec_x(), self.spec_y()],
    ;
}

impl<T: Copy> Point2Trait<T> for (T, T) {
    open spec fn spec_x(&self) -> T {
        self.0
    }

    open spec fn spec_y(&self) -> T {
        self.1
    }

    fn x(&self) -> (r: T) {
        self.0
    }

    fn y(&self) -> (r: T) {
        self.1
    }

    fn as_array(&self) -> (r: [T; 2]) {
        let r = [self.0, self.1];
        assert(r@ =~= seq![self.0, self.1]);
        r
    }
}

/// Corner accessors for a rectangle given by two points.
pub trait RectTrait<T> {
    spec fn corners(&self) -> ((T, T), (T, T));

    fn top_left(&self) -> (r: (T, T))
        ensures
            r == ((self.corners().0).0, (self.corners().0).1),
    ;

    fn top_right(&self) -> (r: (T, T))
        ensures
            r == ((self.corners().1).0, (self.corners().0).1),
    ;

    fn bottom_left(&self) -> (r: (T, T))
        ensures
            r == ((self.corners().0).0, (self.corners().1).1),
    ;

    fn bottom_right(&self) -> (r: (T, T))
        ensures
            r == ((self.corners().1).0, (self.corners().1).1),
    ;

    fn as_array(&self) -> (r: [T; 4])
        ensures
            r@ == seq![
                (self.corners().0).0,
                (self.corners().0).1,
                (self.corners().1).0,
                (self.corners().1).1,
            ],
    ;
}

impl<T: Copy> RectTrait<T> for ((T, T), (T, T)) {
    open spec fn corners(&self) -> ((T, T), (T, T)) {
        *self
    }

    fn top_left(&self) -> (r: (T, T)) {
        ((self.0).0, (self.0).1)
    }

    fn top_right(&self) -> (r: (T, T)) {
        ((self.1).0, (self.0).1)
    }

    fn bottom_left(&self) -> (r: (T, T)) {
        ((self.0).0, (self.1).1)
    }

    fn bottom_right(&self) -> (r: (T, T)) {
        ((self.1).0, (self.1).1)
    }

    fn as_array(&self) -> (r: [T; 4]) {
        let r = [(self.0).0, (self.0).1, (self.1).0, (self.1).1];
        assert(r@ =~= seq![(self.0).0, (self.0).1, (self.1).0, (self.1).1]);
        r
    }
}

/// Pushing a copy of the current matrix and popping it again restores the stack,
/// whatever was done to the pushed copy.
pub proof fn lemma_push_pop_restores<T>(before: Seq<Mat4<T>>, pushed: Mat4<T>)
    requires
        before.len() >= 1,
    ensures
        ({
            let after_push = before.push(pushed);
            let top = after_push[after_push.len() - 2];
            after_push.drop_last().drop_last().push(top) == before
        }),
{
    let after_push = before.push(pushed);
    assert(after_push.drop_last().drop_last().push(after_push[after_push.len() - 2]) =~= before);
}

} // verus!
