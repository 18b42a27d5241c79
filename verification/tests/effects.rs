use kurve::border::Border;
use kurve::buffs::{
    age_buffs, fold_color, fold_radius, fold_rotation, fold_speed, BigBuffSprite,
    BorderBuffSprite, Buff, ChangeDirBuffSprite, ClearBuffSprite, ColorBuffSprite,
    DrunkenBuffSprite, EffectKind, FastPlayerBuffSprite, Pickup, PlayerBuff, SlowBuffSprite,
    SmallBuffSprite, BASE_TURN_RATE,
};
use kurve::display::{DrawCommand, GameColor, Icon, BLACK, BLUE, GREEN, RED, WHITE, YELLOW};
use kurve::fixed::{HALF, UNIT};
use kurve::geometry::{Coord, TrigTable, Vector2D};
use kurve::player::{Curve, PlayerInput};

fn trig_table() -> TrigTable {
    let mut entries = Vec::new();
    for d in 0..360 {
        let a = (d as f64) * core::f64::consts::PI / 180.0;
        entries.push(Vector2D {
            x: libm::round(libm::cos(a) * 65536.0) as i64,
            y: libm::round(libm::sin(a) * 65536.0) as i64,
        });
    }
    TrigTable::new(entries).unwrap()
}

fn curve() -> Curve {
    Curve::new(GameColor { value: RED }, Vector2D::from_pixels(100, 100), 3, 0)
}

fn buff(effect: EffectKind) -> PlayerBuff {
    PlayerBuff::new(effect, effect.duration())
}

#[test]
fn effect_durations() {
    assert_eq!(EffectKind::Fast.duration(), 1800);
    assert_eq!(EffectKind::Slow.duration(), 1000);
    assert_eq!(EffectKind::ChangeDirection.duration(), 500);
    assert_eq!(EffectKind::Big.duration(), 1800);
    assert_eq!(EffectKind::Small.duration(), 1800);
    assert_eq!(EffectKind::Color.duration(), 3600);
    assert_eq!(EffectKind::Drunken.duration(), 600);
}

#[test]
fn speed_channel() {
    assert_eq!(EffectKind::Fast.change_speed(0, UNIT), 2 * UNIT);
    assert_eq!(EffectKind::Fast.change_speed(0, u64::MAX - 1), u64::MAX);
    assert_eq!(EffectKind::Slow.change_speed(0, UNIT), HALF);
    assert_eq!(EffectKind::Slow.change_speed(0, 3), 1);
    assert_eq!(EffectKind::Big.change_speed(9, UNIT), UNIT);
    assert_eq!(EffectKind::Drunken.change_speed(9, UNIT), UNIT);
}

#[test]
fn radius_channel() {
    assert_eq!(EffectKind::Big.change_radius(0, 3 * UNIT), 4 * UNIT + HALF);
    assert_eq!(EffectKind::Small.change_radius(0, 3 * UNIT), UNIT + HALF);
    assert_eq!(EffectKind::Big.change_radius(0, u64::MAX), u64::MAX);
    assert_eq!(EffectKind::Fast.change_radius(0, 3 * UNIT), 3 * UNIT);
}

#[test]
fn rotation_channel() {
    assert_eq!(EffectKind::ChangeDirection.change_rotation(0, 5), 355);
    assert_eq!(EffectKind::ChangeDirection.change_rotation(0, 0), 0);
    assert_eq!(EffectKind::ChangeDirection.change_rotation(0, 355), 5);
    assert_eq!(EffectKind::Drunken.change_rotation(0, 5), 10);
    assert_eq!(EffectKind::Drunken.change_rotation(3, 5), 7);
    assert_eq!(EffectKind::Drunken.change_rotation(9, 5), 1);
    assert_eq!(EffectKind::Drunken.change_rotation(10, 5), 10);
    assert_eq!(EffectKind::Drunken.change_rotation(9, 2), 358);
    assert_eq!(EffectKind::Drunken.change_rotation(0, 358), 3);
    assert_eq!(EffectKind::Fast.change_rotation(4, 5), 5);
}

#[test]
fn colour_channel_cycles_the_palette() {
    let c = |v: u32| GameColor { value: v };
    assert_eq!(EffectKind::Color.change_color(0, c(RED)), c(YELLOW));
    assert_eq!(EffectKind::Color.change_color(0, c(YELLOW)), c(BLUE));
    assert_eq!(EffectKind::Color.change_color(0, c(BLUE)), c(GREEN));
    assert_eq!(EffectKind::Color.change_color(0, c(GREEN)), c(YELLOW));
    assert_eq!(EffectKind::Color.change_color(0, c(WHITE)), c(YELLOW));
    assert_eq!(EffectKind::Big.change_color(0, c(RED)), c(RED));
}

#[test]
fn folds_apply_oldest_first() {
    let fast_slow = vec![buff(EffectKind::Fast), buff(EffectKind::Slow)];
    let slow_fast = vec![buff(EffectKind::Slow), buff(EffectKind::Fast)];
    assert_eq!(fold_speed(&fast_slow, UNIT), UNIT);
    assert_eq!(fold_speed(&slow_fast, UNIT), UNIT + HALF);
    let big_small = vec![buff(EffectKind::Big), buff(EffectKind::Small)];
    let small_big = vec![buff(EffectKind::Small), buff(EffectKind::Big)];
    assert_eq!(fold_radius(&big_small, 5), 3);
    assert_eq!(fold_radius(&small_big, 5), 3);
    assert_eq!(fold_radius(&big_small, 3), 2);
    assert_eq!(fold_radius(&small_big, 3), 1);
    assert_eq!(fold_speed(&Vec::new(), UNIT), UNIT);
}

#[test]
fn fold_rotation_keeps_within_a_turn() {
    let mut drunk = buff(EffectKind::Drunken);
    drunk.elapsed = 7;
    let turn_drunk = vec![buff(EffectKind::ChangeDirection), drunk];
    assert_eq!(fold_rotation(&turn_drunk, BASE_TURN_RATE), 353);
    let drunk_turn = vec![drunk, buff(EffectKind::ChangeDirection)];
    assert_eq!(fold_rotation(&drunk_turn, BASE_TURN_RATE), 357);
    let twice = vec![buff(EffectKind::ChangeDirection), buff(EffectKind::ChangeDirection)];
    assert_eq!(fold_rotation(&twice, BASE_TURN_RATE), 5);
    assert_eq!(fold_rotation(&Vec::new(), BASE_TURN_RATE), 5);
}

#[test]
fn fold_colour_applies_each_colour_effect() {
    let two = vec![buff(EffectKind::Color), buff(EffectKind::Fast), buff(EffectKind::Color)];
    assert_eq!(fold_color(&two, GameColor { value: RED }), GameColor { value: BLUE });
}

#[test]
fn fast_then_big_composes_in_order() {
    let mut c = curve();
    c.add_buff(buff(EffectKind::Fast));
    c.add_buff(buff(EffectKind::Big));
    assert_eq!(c.effective_speed(), 2 * UNIT);
    assert_eq!(c.effective_radius(), 4 * UNIT + HALF);
    let mut d = curve();
    d.add_buff(buff(EffectKind::Color));
    d.add_buff(buff(EffectKind::Fast));
    d.add_buff(buff(EffectKind::ChangeDirection));
    d.add_buff(buff(EffectKind::Big));
    d.add_buff(buff(EffectKind::Drunken));
    assert_eq!(d.effective_speed(), c.effective_speed());
    assert_eq!(d.effective_radius(), c.effective_radius());
}

#[test]
fn age_buffs_drops_what_ran_out() {
    let list = vec![
        PlayerBuff { timeout: 2, elapsed: 0, effect: EffectKind::Fast },
        PlayerBuff { timeout: 0, elapsed: 9, effect: EffectKind::Slow },
        PlayerBuff { timeout: 1, elapsed: 4, effect: EffectKind::Big },
    ];
    let aged = age_buffs(&list);
    assert_eq!(
        aged,
        vec![
            PlayerBuff { timeout: 1, elapsed: 1, effect: EffectKind::Fast },
            PlayerBuff { timeout: 0, elapsed: 5, effect: EffectKind::Big },
        ]
    );
    let again = age_buffs(&aged);
    assert_eq!(again, vec![PlayerBuff { timeout: 0, elapsed: 2, effect: EffectKind::Fast }]);
    assert_eq!(age_buffs(&again), Vec::new());
}

#[test]
fn buff_with_timeout_n_lasts_n_ticks() {
    let trig = trig_table();
    for n in [0u32, 1, 5, 37] {
        let mut c = curve();
        c.add_buff(PlayerBuff::new(EffectKind::Slow, n));
        for _ in 0..n {
            assert_eq!(c.buff_count(), 1);
            assert_eq!(c.effective_speed(), HALF);
            c.act(PlayerInput::Neither, &trig);
        }
        assert_eq!(c.buff_count(), 1);
        c.act(PlayerInput::Neither, &trig);
        assert_eq!(c.buff_count(), 0);
        assert_eq!(c.effective_speed(), UNIT);
    }
}

#[test]
fn fast_pickup_doubles_speed_for_1800_ticks() {
    let trig = trig_table();
    let mut c = curve();
    assert_eq!(c.effective_speed(), UNIT);
    FastPlayerBuffSprite::new(Coord::new(100, 100)).apply_player(&mut c, true);
    assert_eq!(c.effective_speed(), 2 * UNIT);
    for _ in 0..1800 {
        c.act(PlayerInput::Neither, &trig);
        assert_eq!(c.effective_speed(), 2 * UNIT);
    }
    c.act(PlayerInput::Neither, &trig);
    assert_eq!(c.effective_speed(), UNIT);
    assert_eq!(c.buff_count(), 0);
}

#[test]
fn pickups_for_the_collector() {
    let at = Coord::new(50, 60);
    let mut c = curve();
    FastPlayerBuffSprite::new(at).apply_player(&mut c, false);
    SlowBuffSprite::new(at).apply_player(&mut c, false);
    BigBuffSprite::new(at).apply_player(&mut c, false);
    SmallBuffSprite::new(at).apply_player(&mut c, false);
    ColorBuffSprite::new(at).apply_player(&mut c, false);
    assert_eq!(c.buff_count(), 0);
    SlowBuffSprite::new(at).apply_player(&mut c, true);
    assert_eq!(c.effective_speed(), HALF);
    BigBuffSprite::new(at).apply_player(&mut c, true);
    assert_eq!(c.effective_radius(), 4 * UNIT + HALF);
    SmallBuffSprite::new(at).apply_player(&mut c, true);
    assert_eq!(c.effective_radius(), 2 * UNIT + HALF / 2);
    ColorBuffSprite::new(at).apply_player(&mut c, true);
    assert_eq!(c.effective_color(), GameColor { value: YELLOW });
    assert_eq!(c.buff_count(), 4);
    assert_eq!(c.turn_rate(), 5);
}

#[test]
fn pickups_for_the_others() {
    let at = Coord::new(50, 60);
    let mut c = curve();
    ChangeDirBuffSprite::new(at).apply_player(&mut c, true);
    DrunkenBuffSprite::new(at).apply_player(&mut c, true);
    assert_eq!(c.buff_count(), 0);
    assert_eq!(c.turn_rate(), 5);
    ChangeDirBuffSprite::new(at).apply_player(&mut c, false);
    assert_eq!(c.turn_rate(), 355);
    let mut d = curve();
    DrunkenBuffSprite::new(at).apply_player(&mut d, false);
    assert_eq!(d.turn_rate(), 10);
    let trig = trig_table();
    d.act(PlayerInput::Neither, &trig);
    assert_eq!(d.turn_rate(), 9);
}

#[test]
fn clear_pickup_wipes_the_trail() {
    let trig = trig_table();
    let mut c = curve();
    for _ in 0..10 {
        c.act(PlayerInput::Right, &trig);
    }
    assert!(c.trace_len() > 1);
    let sprite = ClearBuffSprite::new(Coord::new(1, 1));
    assert!(sprite.clear_screen());
    sprite.apply_player(&mut c, false);
    assert_eq!(c.trace_len(), 1);
    assert_eq!(c.buff_count(), 0);
    assert!(!FastPlayerBuffSprite::new(Coord::new(1, 1)).clear_screen());
    assert!(!BorderBuffSprite::new(Coord::new(1, 1)).clear_screen());
}

#[test]
fn border_pickup_toggles_the_border() {
    let mut border = Border::new();
    border.drawn = true;
    let sprite = BorderBuffSprite::new(Coord::new(1, 1));
    sprite.apply_border(&mut border);
    assert!(border.active);
    assert!(!border.drawn);
    border.drawn = true;
    sprite.apply_border(&mut border);
    assert!(!border.active);
    assert!(!border.drawn);
    let mut c = curve();
    sprite.apply_player(&mut c, true);
    assert_eq!(c.buff_count(), 0);
    let mut other = Border::new();
    other.drawn = true;
    FastPlayerBuffSprite::new(Coord::new(1, 1)).apply_border(&mut other);
    ClearBuffSprite::new(Coord::new(1, 1)).apply_border(&mut other);
    assert!(!other.active);
    assert!(other.drawn);
}

#[test]
fn pickup_draws_its_icon_where_it_lies() {
    let at = Coord::new(40, 50);
    assert_eq!(FastPlayerBuffSprite::new(at).draw(), DrawCommand::Sprite { icon: Icon::Fast, pos: at });
    assert_eq!(ClearBuffSprite::new(at).draw(), DrawCommand::Sprite { icon: Icon::Clear, pos: at });
    assert_eq!(
        ChangeDirBuffSprite::new(at).draw(),
        DrawCommand::Sprite { icon: Icon::ChangeDirection, pos: at }
    );
    assert_eq!(SlowBuffSprite::new(at).draw(), DrawCommand::Sprite { icon: Icon::Slow, pos: at });
    assert_eq!(BigBuffSprite::new(at).draw(), DrawCommand::Sprite { icon: Icon::Big, pos: at });
    assert_eq!(SmallBuffSprite::new(at).draw(), DrawCommand::Sprite { icon: Icon::Small, pos: at });
    assert_eq!(ColorBuffSprite::new(at).draw(), DrawCommand::Sprite { icon: Icon::Color, pos: at });
    assert_eq!(BorderBuffSprite::new(at).draw(), DrawCommand::Sprite { icon: Icon::Border, pos: at });
    assert_eq!(DrunkenBuffSprite::new(at).draw(), DrawCommand::Sprite { icon: Icon::Border, pos: at });
}

#[test]
fn pickup_box_is_ten_pixels_wide() {
    let at = Coord::new(40, 50);
    assert_eq!(SlowBuffSprite::new(at).aabb(), (at, Coord::new(50, 60)));
    assert_eq!(SlowBuffSprite::new(at).get_pos(), at);
    let any = Pickup::Big(BigBuffSprite::new(at));
    assert_eq!(any.aabb(), (at, Coord::new(50, 60)));
    assert_eq!(any.get_pos(), at);
    assert_eq!(any.draw(), DrawCommand::Sprite { icon: Icon::Big, pos: at });
    assert!(!any.clear_screen());
    assert!(Pickup::Clear(ClearBuffSprite::new(at)).clear_screen());
}

#[test]
fn any_pickup_does_what_its_kind_does() {
    let at = Coord::new(40, 50);
    let mut c = curve();
    Pickup::Fast(FastPlayerBuffSprite::new(at)).apply_player(&mut c, true);
    assert_eq!(c.effective_speed(), 2 * UNIT);
    Pickup::ChangeDir(ChangeDirBuffSprite::new(at)).apply_player(&mut c, false);
    assert_eq!(c.turn_rate(), 355);
    let mut border = Border::new();
    Pickup::Border(BorderBuffSprite::new(at)).apply_border(&mut border);
    assert!(border.active);
    Pickup::Slow(SlowBuffSprite::new(at)).apply_border(&mut border);
    assert!(border.active);
}

#[test]
fn border_draws_once() {
    let mut border = Border::new();
    assert_eq!(border.top_left, Coord::new(10, 10));
    assert_eq!(border.bottom_right, Coord::new(469, 261));
    assert!(!border.active);
    assert!(!border.drawn);
    let mut display = Vec::new();
    border.draw(&mut display);
    assert_eq!(
        display,
        vec![DrawCommand::Outline {
            top_left: Coord::new(10, 10),
            bottom_right: Coord::new(469, 261),
            color: GameColor { value: BLACK },
        }]
    );
    assert!(border.drawn);
    border.draw(&mut display);
    assert_eq!(display.len(), 1);
    border.active = true;
    border.drawn = false;
    border.draw(&mut display);
    assert_eq!(
        display[1],
        DrawCommand::Outline {
            top_left: Coord::new(10, 10),
            bottom_right: Coord::new(469, 261),
            color: GameColor { value: WHITE },
        }
    );
}
