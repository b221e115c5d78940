use rasterbuf::shapes::{Circle, Line, Rect, Vec2};

#[test]
fn rect_construction_and_accessors() {
    let r = Rect::new(75, 75, 360, 360);
    assert_eq!(r.get_pos().x, 75);
    assert_eq!(r.get_pos().y, 75);
    assert_eq!(r.get_size().x, 360);
    assert_eq!(r.get_size().y, 360);
    let n = Rect::null();
    assert_eq!(n.get_pos().x, 0);
    assert_eq!(n.get_size().y, 0);
}

#[test]
fn rect_setters_replace_fields() {
    let mut r = Rect::null();
    r.set_pos(3, 4);
    r.set_width(10);
    r.set_height(20);
    assert_eq!((r.x, r.y, r.width, r.height), (3, 4, 10, 20));
    r.resize(7, 8);
    assert_eq!((r.width, r.height), (7, 8));
}

#[test]
fn rect_set_xy_translates_both_coordinates() {
    let mut r = Rect::new(5, 6, 1, 1);
    r.set_xy(2, 3);
    assert_eq!((r.x, r.y), (7, 9));
}

#[test]
fn rect_move_by_offsets_y_from_the_new_x() {
    let mut r = Rect::new(5, 6, 1, 1);
    r.move_by(2, 3);
    assert_eq!(r.x, 7);
    // The vertical coordinate is offset from the updated horizontal one.
    assert_eq!(r.y, 10);
}

#[test]
fn rect_scaling_divides_before_multiplying() {
    let mut r = Rect::new(0, 0, 10, 7);
    r.scale_by(3, 2);
    assert_eq!((r.width, r.height), (15, 9));
    let mut s = Rect::new(0, 0, 10, 7);
    s.scale_width(3, 2);
    assert_eq!((s.width, s.height), (15, 7));
    let mut t = Rect::new(0, 0, 10, 7);
    t.scale_height(3, 2);
    assert_eq!((t.width, t.height), (10, 9));
}

#[test]
fn circle_accessors_and_setters() {
    let mut c = Circle::new(256, 256, 255);
    assert_eq!(c.get_radius(), 255);
    assert_eq!(c.get_pos().x, 256);
    assert_eq!(c.get_pos().y, 256);
    c.set_radius(10);
    c.set_pos(1, 2);
    assert_eq!((c.x, c.y, c.radius), (1, 2, 10));
}

#[test]
fn points_and_lines_hold_their_ends() {
    let p = Vec2::new(3u32, 4u32);
    assert_eq!((p.x, p.y), (3, 4));
    let l = Line::between(Vec2::new(1u32, 2u32), Vec2::new(3u32, 4u32));
    assert_eq!((l.from.x, l.from.y, l.to.x, l.to.y), (1, 2, 3, 4));
}
