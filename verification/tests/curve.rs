use kurve::border::Border;
use kurve::buffs::{BigBuffSprite, Buff, EffectKind, FastPlayerBuffSprite, Pickup, PlayerBuff};
use kurve::display::{DrawCommand, GameColor, BLUE, RED, YELLOW};
use kurve::fixed::{ONE, UNIT};
use kurve::geometry::{Coord, TrigTable, Vector2D};
use kurve::player::{Collide, CollideSelf, Curve, PlayerInput};

fn trig_table() -> TrigTable {
    let mut entries = Vec::new();
    for d in 0..360 {
        let a = (d as f64) * core::f64::consts::PI / 180.0;
        entries.push(Vector2D {
            x: libm::round(libm::cos(a) * 65536.0) as i64,
            y: libm::round(libm::sin(a) * 65536.0) as i64,
        });
    }
    TrigTable::new(entries).unwrap()
}

fn curve_at(x: i32, y: i32, angle: u32) -> Curve {
    Curve::new(GameColor { value: RED }, Vector2D::from_pixels(x, y), 3, angle)
}

/// A curve whose trail is one straight segment from (100, 100) to (150, 100).
fn straight_trail(trig: &TrigTable) -> Curve {
    let mut c = curve_at(100, 100, 0);
    for _ in 0..50 {
        c.act(PlayerInput::Neither, trig);
    }
    c
}

#[test]
fn new_curve_has_one_segment() {
    let c = curve_at(100, 120, 45);
    assert_eq!(c.position(), Vector2D { x: 100 * ONE, y: 120 * ONE });
    assert_eq!(c.trace_len(), 1);
    assert_eq!(c.buff_count(), 0);
    assert_eq!(c.effective_speed(), UNIT);
    assert_eq!(c.effective_radius(), 3 * UNIT);
    assert_eq!(c.effective_color(), GameColor { value: RED });
    assert_eq!(c.turn_rate(), 5);
}

#[test]
fn new_curve_never_hits_itself() {
    for radius in [1u32, 2, 3, 50] {
        let c = Curve::new(GameColor { value: BLUE }, Vector2D::from_pixels(50, 50), radius, 0);
        assert!(!c.collides());
    }
}

#[test]
fn act_moves_one_pixel_along_the_heading() {
    let trig = trig_table();
    let mut right = curve_at(100, 100, 0);
    right.act(PlayerInput::Neither, &trig);
    assert_eq!(right.position(), Vector2D { x: 101 * ONE, y: 100 * ONE });
    let mut down = curve_at(100, 100, 90);
    down.act(PlayerInput::Both, &trig);
    assert_eq!(down.position(), Vector2D { x: 100 * ONE, y: 101 * ONE });
    let mut left = curve_at(100, 100, 180);
    left.act(PlayerInput::Neither, &trig);
    assert_eq!(left.position(), Vector2D { x: 99 * ONE, y: 100 * ONE });
    let mut slanted = curve_at(100, 100, 30);
    slanted.act(PlayerInput::Neither, &trig);
    assert_eq!(slanted.position(), Vector2D { x: 100 * ONE + 56756, y: 100 * ONE + 32768 });
}

#[test]
fn act_turns_before_it_moves() {
    let trig = trig_table();
    let mut c = curve_at(100, 100, 85);
    c.act(PlayerInput::Right, &trig);
    assert_eq!(c.position(), Vector2D { x: 100 * ONE, y: 101 * ONE });
    let mut d = curve_at(100, 100, 5);
    d.act(PlayerInput::Left, &trig);
    assert_eq!(d.position(), Vector2D { x: 101 * ONE, y: 100 * ONE });
    let mut e = curve_at(100, 100, 0);
    e.act(PlayerInput::Left, &trig);
    assert_eq!(e.position(), Vector2D { x: 100 * ONE + 65287, y: 100 * ONE - 5712 });
}

#[test]
fn act_with_speed_effect_moves_farther() {
    let trig = trig_table();
    let mut c = curve_at(100, 100, 0);
    c.add_buff(PlayerBuff::new(EffectKind::Fast, 10));
    c.act(PlayerInput::Neither, &trig);
    assert_eq!(c.position(), Vector2D { x: 102 * ONE, y: 100 * ONE });
    let mut d = curve_at(100, 100, 0);
    d.add_buff(PlayerBuff::new(EffectKind::Slow, 10));
    d.act(PlayerInput::Neither, &trig);
    assert_eq!(d.position(), Vector2D { x: 100 * ONE + ONE / 2, y: 100 * ONE });
}

#[test]
fn act_with_changed_direction_turns_the_other_way() {
    let trig = trig_table();
    let mut c = curve_at(100, 100, 0);
    c.add_buff(PlayerBuff::new(EffectKind::ChangeDirection, 10));
    c.act(PlayerInput::Right, &trig);
    let mut d = curve_at(100, 100, 0);
    d.act(PlayerInput::Left, &trig);
    assert_eq!(c.position(), d.position());
}

#[test]
fn straight_run_keeps_one_segment() {
    let trig = trig_table();
    let c = straight_trail(&trig);
    assert_eq!(c.position(), Vector2D { x: 150 * ONE, y: 100 * ONE });
    assert_eq!(c.trace_len(), 1);
}

#[test]
fn turn_starts_a_segment_only_after_a_long_one() {
    let trig = trig_table();
    let mut c = curve_at(100, 100, 0);
    c.act(PlayerInput::Right, &trig);
    assert_eq!(c.trace_len(), 1);
    c.act(PlayerInput::Right, &trig);
    assert_eq!(c.trace_len(), 1);
    c.act(PlayerInput::Right, &trig);
    assert_eq!(c.trace_len(), 1);
    c.act(PlayerInput::Right, &trig);
    assert_eq!(c.trace_len(), 2);
    c.act(PlayerInput::Both, &trig);
    c.act(PlayerInput::Neither, &trig);
    c.act(PlayerInput::Neither, &trig);
    c.act(PlayerInput::Neither, &trig);
    assert_eq!(c.trace_len(), 2);
    c.act(PlayerInput::Left, &trig);
    assert_eq!(c.trace_len(), 3);
}

#[test]
fn leaving_the_field_comes_back_on_the_far_side() {
    let trig = trig_table();
    let mut right = curve_at(470, 100, 0);
    right.act(PlayerInput::Neither, &trig);
    assert_eq!(right.position(), Vector2D { x: 11 * ONE, y: 100 * ONE });
    assert_eq!(right.trace_len(), 2);
    let mut left = curve_at(10, 100, 180);
    left.act(PlayerInput::Neither, &trig);
    assert_eq!(left.position(), Vector2D { x: 470 * ONE, y: 100 * ONE });
    assert_eq!(left.trace_len(), 2);
    let mut down = curve_at(100, 262, 90);
    down.act(PlayerInput::Neither, &trig);
    assert_eq!(down.position(), Vector2D { x: 100 * ONE, y: 11 * ONE });
    assert_eq!(down.trace_len(), 2);
    let mut up = curve_at(100, 10, 270);
    up.act(PlayerInput::Neither, &trig);
    assert_eq!(up.position(), Vector2D { x: 100 * ONE, y: 262 * ONE });
    assert_eq!(up.trace_len(), 2);
    let mut inside = curve_at(469, 100, 0);
    inside.act(PlayerInput::Neither, &trig);
    assert_eq!(inside.position(), Vector2D { x: 470 * ONE, y: 100 * ONE });
    assert_eq!(inside.trace_len(), 1);
}

#[test]
fn clear_trace_leaves_the_head() {
    let trig = trig_table();
    let mut c = curve_at(100, 100, 0);
    for _ in 0..20 {
        c.act(PlayerInput::Right, &trig);
    }
    let pos = c.position();
    c.clear_trace();
    assert_eq!(c.trace_len(), 1);
    assert_eq!(c.position(), pos);
    assert!(!c.collides());
}

#[test]
fn head_beside_a_trail() {
    let trig = trig_table();
    let trail = straight_trail(&trig);
    assert!(curve_at(125, 100, 0).collides_with(&trail));
    assert!(curve_at(125, 105, 0).collides_with(&trail));
    assert!(curve_at(125, 95, 0).collides_with(&trail));
    assert!(!curve_at(125, 106, 0).collides_with(&trail));
    assert!(!curve_at(125, 94, 0).collides_with(&trail));
    assert!(!curve_at(125, 120, 0).collides_with(&trail));
    let near = Curve::new(
        GameColor { value: RED },
        Vector2D { x: 125 * ONE, y: 106 * ONE - 1 },
        3,
        0,
    );
    assert!(near.collides_with(&trail));
}

#[test]
fn head_beyond_the_end_of_a_trail() {
    let trig = trig_table();
    let trail = straight_trail(&trig);
    assert!(curve_at(155, 100, 0).collides_with(&trail));
    assert!(!curve_at(156, 100, 0).collides_with(&trail));
    assert!(curve_at(95, 100, 0).collides_with(&trail));
    assert!(!curve_at(94, 100, 0).collides_with(&trail));
    assert!(curve_at(153, 104, 0).collides_with(&trail));
    assert!(!curve_at(154, 105, 0).collides_with(&trail));
}

#[test]
fn thick_head_reaches_farther() {
    let trig = trig_table();
    let trail = straight_trail(&trig);
    let mut big = curve_at(125, 107, 0);
    assert!(!big.collides_with(&trail));
    BigBuffSprite::new(Coord::new(0, 0)).apply_player(&mut big, true);
    assert!(big.collides_with(&trail));
    let mut far = curve_at(125, 108, 0);
    far.add_buff(PlayerBuff::new(EffectKind::Big, 5));
    assert!(!far.collides_with(&trail));
    let mut small = curve_at(125, 105, 0);
    small.add_buff(PlayerBuff::new(EffectKind::Small, 5));
    assert!(!small.collides_with(&trail));
}

#[test]
fn trail_without_length_is_never_hit() {
    let fresh = curve_at(100, 100, 0);
    assert!(!curve_at(100, 100, 90).collides_with(&fresh));
    assert!(!curve_at(101, 100, 90).collides_with(&fresh));
}

#[test]
fn hit_is_one_sided() {
    let trig = trig_table();
    let trail = straight_trail(&trig);
    let head = curve_at(125, 103, 0);
    assert!(head.collides_with(&trail));
    assert!(!trail.collides_with(&head));
}

#[test]
fn curves_that_cross_hit_each_other() {
    let trig = trig_table();
    let mut a = curve_at(240, 136, 0);
    let mut b = curve_at(240, 136, 180);
    for _ in 0..470 {
        a.act(PlayerInput::Neither, &trig);
        b.act(PlayerInput::Neither, &trig);
    }
    assert!(a.collides_with(&b));
    assert!(b.collides_with(&a));
}

#[test]
fn circle_runs_into_its_own_trail() {
    let trig = trig_table();
    let mut c = curve_at(200, 100, 0);
    let mut first_hit = 0;
    for tick in 1..=100 {
        c.act(PlayerInput::Right, &trig);
        if c.collides() && first_hit == 0 {
            first_hit = tick;
        }
    }
    assert!(first_hit > 40);
    assert!(first_hit <= 72);
}

#[test]
fn straight_run_does_not_hit_itself() {
    let trig = trig_table();
    let mut c = curve_at(20, 100, 0);
    for _ in 0..400 {
        c.act(PlayerInput::Neither, &trig);
        assert!(!c.collides());
    }
}

#[test]
fn head_at_the_border() {
    let mut border = Border::new();
    border.active = true;
    assert!(!curve_at(240, 136, 0).collides_with(&border));
    assert!(!curve_at(14, 14, 0).collides_with(&border));
    assert!(curve_at(13, 14, 0).collides_with(&border));
    assert!(curve_at(14, 13, 0).collides_with(&border));
    assert!(!curve_at(465, 257, 0).collides_with(&border));
    assert!(curve_at(466, 257, 0).collides_with(&border));
    assert!(curve_at(465, 258, 0).collides_with(&border));
    assert!(curve_at(5, 5, 0).collides_with(&border));
    let mut big = curve_at(14, 100, 0);
    assert!(!big.collides_with(&border));
    big.add_buff(PlayerBuff::new(EffectKind::Big, 5));
    assert!(big.collides_with(&border));
}

#[test]
fn head_near_a_pickup() {
    let pickup = Pickup::Fast(FastPlayerBuffSprite::new(Coord::new(100, 100)));
    assert!(curve_at(100, 100, 0).collides_with(&pickup));
    assert!(curve_at(113, 100, 0).collides_with(&pickup));
    assert!(!curve_at(114, 100, 0).collides_with(&pickup));
    assert!(curve_at(100, 87, 0).collides_with(&pickup));
    assert!(!curve_at(100, 86, 0).collides_with(&pickup));
    assert!(curve_at(105, 112, 0).collides_with(&pickup));
    assert!(!curve_at(106, 112, 0).collides_with(&pickup));
    assert!(curve_at(100, 100, 0).reaches(Coord::new(113, 100)));
    let mut big = curve_at(114, 100, 0);
    big.add_buff(PlayerBuff::new(EffectKind::Big, 5));
    assert!(!big.collides_with(&pickup));
}

#[test]
fn draw_shows_the_head() {
    let trig = trig_table();
    let mut c = curve_at(100, 120, 30);
    let mut display = Vec::new();
    c.draw(&mut display);
    assert_eq!(
        display,
        vec![DrawCommand::Disc {
            center: Coord::new(100, 120),
            radius: 3,
            color: GameColor { value: RED },
        }]
    );
    c.act(PlayerInput::Neither, &trig);
    c.add_buff(PlayerBuff::new(EffectKind::Big, 5));
    c.add_buff(PlayerBuff::new(EffectKind::Color, 5));
    c.draw(&mut display);
    assert_eq!(
        display[1],
        DrawCommand::Disc {
            center: Coord::new(100, 120),
            radius: 5,
            color: GameColor { value: YELLOW },
        }
    );
    c.add_buff(PlayerBuff::new(EffectKind::Small, 5));
    c.draw(&mut display);
    assert_eq!(
        display[2],
        DrawCommand::Disc {
            center: Coord::new(100, 120),
            radius: 2,
            color: GameColor { value: YELLOW },
        }
    );
}
