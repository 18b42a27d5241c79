use kurve::display::{GameColor, Pixel, HEIGHT, WIDTH};
use kurve::fixed::{from_pixels, times_one_and_a_half, to_nearest_pixel, whole_part, HALF, ONE, UNIT};
use kurve::geometry::{floor_sqrt, to_coord, AABBox, Coord, Point, TrigTable, Vector2D};

fn trig_entries() -> Vec<Vector2D> {
    let mut entries = Vec::new();
    for d in 0..360 {
        let a = (d as f64) * core::f64::consts::PI / 180.0;
        entries.push(Vector2D {
            x: libm::round(libm::cos(a) * 65536.0) as i64,
            y: libm::round(libm::sin(a) * 65536.0) as i64,
        });
    }
    entries
}

fn trig_table() -> TrigTable {
    TrigTable::new(trig_entries()).unwrap()
}

#[test]
fn vector_add_and_sub() {
    let a = Vector2D { x: 3 * ONE, y: -2 * ONE };
    let b = Vector2D { x: ONE / 2, y: 5 * ONE };
    assert_eq!(a + b, Vector2D { x: 3 * ONE + ONE / 2, y: 3 * ONE });
    assert_eq!(a - b, Vector2D { x: 3 * ONE - ONE / 2, y: -7 * ONE });
}

#[test]
fn vector_scale_rounds_toward_zero() {
    let v = Vector2D { x: 2 * ONE, y: -3 * ONE };
    assert_eq!(v * (ONE / 2), Vector2D { x: ONE, y: -(ONE + ONE / 2) });
    let w = Vector2D { x: 3, y: -3 };
    assert_eq!(w * (ONE / 2), Vector2D { x: 1, y: -1 });
}

#[test]
fn vector_dot_is_exact() {
    let a = Vector2D { x: 3, y: 4 };
    let b = Vector2D { x: -2, y: 5 };
    assert_eq!(a.dot(b), 14);
    assert_eq!(a.dot(a), 25);
}

#[test]
fn vector_length_of_three_four_five() {
    let v = Vector2D { x: 3 * ONE, y: 4 * ONE };
    assert_eq!(v.length(), 5 * UNIT);
    assert_eq!((Vector2D { x: 0, y: 0 }).length(), 0);
    assert_eq!((Vector2D { x: 1, y: 1 }).length(), 1);
    assert_eq!((Vector2D { x: 2, y: 2 }).length(), 2);
}

#[test]
fn vector_distance() {
    let a = Vector2D { x: 10 * ONE, y: 10 * ONE };
    let b = Vector2D { x: 13 * ONE, y: 14 * ONE };
    assert_eq!(a.distance(b), 5 * UNIT);
    assert_eq!(b.distance(a), 5 * UNIT);
    assert_eq!(a.distance(a), 0);
}

#[test]
fn vector_normalized() {
    let v = Vector2D { x: 3 * ONE, y: 4 * ONE };
    assert_eq!(v.normalized(), Vector2D { x: 39321, y: 52428 });
    let w = Vector2D { x: -7 * ONE, y: 0 };
    assert_eq!(w.normalized(), Vector2D { x: -ONE, y: 0 });
}

#[test]
fn vector_rotate_quarter_turns() {
    let trig = trig_table();
    let v = Vector2D { x: ONE, y: 0 };
    assert_eq!(v.rotate(0, &trig), Vector2D { x: ONE, y: 0 });
    assert_eq!(v.rotate(90, &trig), Vector2D { x: 0, y: ONE });
    assert_eq!(v.rotate(180, &trig), Vector2D { x: -ONE, y: 0 });
    assert_eq!(v.rotate(270, &trig), Vector2D { x: 0, y: -ONE });
    assert_eq!(v.rotate(360, &trig), Vector2D { x: ONE, y: 0 });
    assert_eq!(v.rotate(450, &trig), Vector2D { x: 0, y: ONE });
}

#[test]
fn vector_rotate_applies_the_matrix() {
    let trig = trig_table();
    let v = Vector2D { x: 10 * ONE, y: 20 * ONE };
    let u = trig.unit(30);
    assert_eq!(u, Vector2D { x: 56756, y: 32768 });
    let turned = v.rotate(30, &trig);
    assert_eq!(turned.x, (56756 * 10 * ONE - 32768 * 20 * ONE) / ONE);
    assert_eq!(turned.y, (32768 * 10 * ONE + 56756 * 20 * ONE) / ONE);
}

#[test]
fn vector_from_pixels() {
    assert_eq!(Vector2D::from_pixels(3, -2), Vector2D { x: 3 * ONE, y: -2 * ONE });
}

#[test]
fn trig_table_wants_one_entry_per_degree() {
    let mut short = trig_entries();
    short.pop();
    assert!(TrigTable::new(short).is_none());
    let mut long = trig_entries();
    long.push(Vector2D { x: 0, y: 0 });
    assert!(TrigTable::new(long).is_none());
    assert!(TrigTable::new(Vec::new()).is_none());
    assert!(TrigTable::new(trig_entries()).is_some());
}

#[test]
fn trig_table_wants_unit_vectors() {
    let mut big = trig_entries();
    big[17] = Vector2D { x: ONE + 1, y: 0 };
    assert!(TrigTable::new(big).is_none());
    let mut low = trig_entries();
    low[359] = Vector2D { x: 0, y: -ONE - 1 };
    assert!(TrigTable::new(low).is_none());
    let mut long = trig_entries();
    long[5] = Vector2D { x: -ONE, y: ONE };
    assert!(TrigTable::new(long).is_none());
    let mut short = trig_entries();
    short[9] = Vector2D { x: 0, y: 0 };
    assert!(TrigTable::new(short).is_none());
    let mut near = trig_entries();
    near[0] = Vector2D { x: ONE, y: 362 };
    assert!(TrigTable::new(near).is_some());
    let mut far = trig_entries();
    far[0] = Vector2D { x: ONE, y: 363 };
    assert!(TrigTable::new(far).is_none());
    let mut under = trig_entries();
    under[0] = Vector2D { x: ONE - 1, y: 0 };
    assert!(TrigTable::new(under).is_some());
    let mut below = trig_entries();
    below[0] = Vector2D { x: ONE - 2, y: 0 };
    assert!(TrigTable::new(below).is_none());
}

#[test]
fn trig_table_unit_wraps_the_angle() {
    let trig = trig_table();
    assert_eq!(trig.unit(0), Vector2D { x: ONE, y: 0 });
    assert_eq!(trig.unit(725), trig.unit(5));
}

#[test]
fn floor_sqrt_values() {
    assert_eq!(floor_sqrt(0), 0);
    assert_eq!(floor_sqrt(1), 1);
    assert_eq!(floor_sqrt(3), 1);
    assert_eq!(floor_sqrt(4), 2);
    assert_eq!(floor_sqrt(99), 9);
    assert_eq!(floor_sqrt(100), 10);
    assert_eq!(floor_sqrt(u64::MAX), 4294967295);
}

#[test]
fn point_add() {
    let p = Point { x: 5, y: 7 } + Point { x: 1, y: 2 };
    assert_eq!((p.x, p.y), (6, 9));
}

#[test]
fn point_add_vector_drops_the_fraction() {
    let v = Vector2D { x: ONE + ONE / 2, y: ONE / 4 };
    let p = Point { x: 5, y: 5 } + v;
    assert_eq!((p.x, p.y), (6, 5));
    let q = v + Point { x: 5, y: 5 };
    assert_eq!((q.x, q.y), (6, 5));
    let back = Point { x: 5, y: 5 } + Vector2D { x: -(ONE / 2), y: -5 * ONE };
    assert_eq!((back.x, back.y), (4, 0));
}

#[test]
fn coord_from_tuple() {
    assert_eq!(to_coord((3, -4)), Coord { x: 3, y: -4 });
    assert_eq!(Coord::new(1, 2), Coord { x: 1, y: 2 });
}

#[test]
fn aabbox_inside_includes_the_corners() {
    let b = AABBox::new(Coord::new(10, 20), Coord::new(30, 40));
    assert!(b.inside(Coord::new(10, 20)));
    assert!(b.inside(Coord::new(30, 40)));
    assert!(b.inside(Coord::new(20, 30)));
    assert!(!b.inside(Coord::new(9, 30)));
    assert!(!b.inside(Coord::new(31, 30)));
    assert!(!b.inside(Coord::new(20, 19)));
    assert!(!b.inside(Coord::new(20, 41)));
}

#[test]
fn fixed_point_helpers() {
    assert_eq!(from_pixels(3), 3 * UNIT);
    assert_eq!(to_nearest_pixel(4 * UNIT + HALF), 5);
    assert_eq!(to_nearest_pixel(4 * UNIT + HALF - 1), 4);
    assert_eq!(to_nearest_pixel(0), 0);
    assert_eq!(to_nearest_pixel(u64::MAX), u32::MAX);
    assert_eq!(whole_part(3 * (ONE as i128) + 5), 3);
    assert_eq!(whole_part(-3 * (ONE as i128) - 5), -3);
    assert_eq!(times_one_and_a_half(3 * UNIT), 4 * UNIT + HALF);
    assert_eq!(times_one_and_a_half(3), 4);
    assert_eq!(times_one_and_a_half(u64::MAX), u64::MAX);
}

#[test]
fn colour_from_byte_and_default() {
    assert_eq!(GameColor::from(7u8), GameColor { value: 7 });
    assert_eq!(GameColor::default(), GameColor { value: 0 });
}

#[test]
fn pixel_on_screen() {
    let c = GameColor { value: 1 };
    assert!((Pixel { x: 0, y: 0, color: c }).on_screen());
    assert!((Pixel { x: WIDTH as u32 - 1, y: HEIGHT as u32 - 1, color: c }).on_screen());
    assert!(!(Pixel { x: WIDTH as u32, y: 0, color: c }).on_screen());
    assert!(!(Pixel { x: 0, y: HEIGHT as u32, color: c }).on_screen());
}
