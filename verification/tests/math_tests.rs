use radiant_rs::math::{Mat4, Mat4Stack, Point2Trait, RectTrait};

fn identity() -> Mat4<i32> {
    [[1, 0, 0, 0], [0, 1, 0, 0], [0, 0, 1, 0], [0, 0, 0, 1]]
}

#[test]
fn stack_push_copies_and_pop_restores() {
    let mut stack = Mat4Stack::new(identity());
    {
        let top = stack.push();
        assert_eq!(*top, identity());
        top[3][0] = 5;
    }
    assert_eq!(stack.deref()[3][0], 5);
    {
        let top = stack.pop();
        assert_eq!(*top, identity());
    }
    assert_eq!(*stack.deref(), identity());
    stack.deref_mut()[0][0] = 2;
    assert_eq!(stack.deref()[0][0], 2);
}

#[test]
fn point_accessors() {
    let p = (3, 4);
    assert_eq!(p.x(), 3);
    assert_eq!(p.y(), 4);
    assert_eq!(Point2Trait::as_array(&p), [3, 4]);
}

#[test]
fn rect_corners() {
    let r = ((1, 2), (5, 7));
    assert_eq!(r.top_left(), (1, 2));
    assert_eq!(r.top_right(), (5, 2));
    assert_eq!(r.bottom_left(), (1, 7));
    assert_eq!(r.bottom_right(), (5, 7));
    assert_eq!(RectTrait::as_array(&r), [1, 2, 5, 7]);
}
