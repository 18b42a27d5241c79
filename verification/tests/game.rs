use kurve::buffs::Buff;
use kurve::display::{DrawCommand, GameColor, Icon, BLACK, BLUE, GREEN, RED, WHITE, YELLOW};
use kurve::fixed::{ONE, UNIT};
use kurve::geometry::{AABBox, Coord, TrigTable, Vector2D};
use kurve::game::{player_select, BuffDraw, Game, GameState, InputRegion, Player, StartDraw};
use kurve::player::PlayerInput;

fn trig_table() -> TrigTable {
    let mut entries = Vec::new();
    for d in 0..360 {
        let a = (d as f64) * core::f64::consts::PI / 180.0;
        entries.push(Vector2D {
            x: libm::round(libm::cos(a) * 65536.0) as i64,
            y: libm::round(libm::sin(a) * 65536.0) as i64,
        });
    }
    TrigTable::new(entries).unwrap()
}

fn colors() -> Vec<GameColor> {
    vec![
        GameColor { value: BLUE },
        GameColor { value: GREEN },
        GameColor { value: RED },
        GameColor { value: YELLOW },
    ]
}

/// The draw that starts a curve on the pixel `(x, y)`.
fn start_at(x: u32, y: u32, angle: u32) -> StartDraw {
    StartDraw { x: x - 10, y: y - 10, angle }
}

/// The draw that puts a pickup of kind `variant` on the pixel `(x, y)`.
fn pickup_at(x: u32, y: u32, variant: u32) -> BuffDraw {
    BuffDraw { interval: 299, x: x - 10, y: y - 10, variant }
}

fn pixel(x: i64, y: i64) -> Vector2D {
    Vector2D { x: x * ONE, y: y * ONE }
}

/// Two players far apart, heading right and down.
fn quiet_game() -> Game {
    Game::new(&colors()[..2], &[start_at(100, 100, 0), start_at(300, 200, 90)])
}

#[test]
fn new_game_places_the_players() {
    let game = Game::new(
        &colors()[..3],
        &[
            StartDraw { x: 90, y: 126, angle: 0 },
            StartDraw { x: 460 + 5, y: 252 + 7, angle: 725 },
            StartDraw { x: 459, y: 251, angle: 359 },
        ],
    );
    assert_eq!(game.players.len(), 3);
    assert_eq!(game.players[0].curve().position(), pixel(100, 136));
    assert_eq!(game.players[1].curve().position(), pixel(15, 17));
    assert_eq!(game.players[2].curve().position(), pixel(469, 261));
    for p in &game.players {
        assert_eq!(p.score, 0);
        assert!(!p.lost);
        assert_eq!(p.curve().trace_len(), 1);
        assert_eq!(p.curve().effective_radius(), 3 * UNIT);
        assert_eq!(p.curve().effective_speed(), UNIT);
    }
    assert_eq!(game.players[0].curve().effective_color(), GameColor { value: BLUE });
    assert_eq!(game.players[2].curve().effective_color(), GameColor { value: RED });
    assert_eq!(game.pickups().len(), 0);
    assert!(!game.border().active);
    assert!(!game.border().drawn);
    assert_eq!(game.active_players(), 3);
}

#[test]
fn new_game_heads_where_the_draw_says() {
    let trig = trig_table();
    let mut game = Game::new(&colors()[..2], &[start_at(100, 100, 725), start_at(300, 200, 270)]);
    let mut display = Vec::new();
    game.step(pickup_at(400, 30, 3), &trig, &mut display, &[], 1);
    assert_eq!(
        game.players[0].curve().position(),
        Vector2D { x: 100 * ONE + 65287, y: 100 * ONE + 5712 }
    );
    assert_eq!(game.players[1].curve().position(), pixel(300, 199));
}

#[test]
fn input_region_is_active_under_a_finger() {
    let region = InputRegion::new(AABBox::new(Coord::new(10, 10), Coord::new(20, 20)));
    assert!(!region.is_active(&[]));
    assert!(!region.is_active(&[Coord::new(5, 5), Coord::new(21, 15)]));
    assert!(region.is_active(&[Coord::new(5, 5), Coord::new(20, 10)]));
    assert!(region.is_active(&[Coord::new(15, 15)]));
}

#[test]
fn player_input_from_two_buttons() {
    let left = AABBox::new(Coord::new(0, 0), Coord::new(10, 10));
    let right = AABBox::new(Coord::new(20, 0), Coord::new(30, 10));
    let player = Player::new(GameColor { value: RED }, start_at(100, 100, 0), left, right);
    assert_eq!(player.get_player_input(&[]), PlayerInput::Neither);
    assert_eq!(player.get_player_input(&[Coord::new(5, 5)]), PlayerInput::Left);
    assert_eq!(player.get_player_input(&[Coord::new(25, 5)]), PlayerInput::Right);
    assert_eq!(
        player.get_player_input(&[Coord::new(25, 5), Coord::new(5, 5)]),
        PlayerInput::Both
    );
    assert_eq!(player.get_player_input(&[Coord::new(15, 5)]), PlayerInput::Neither);
}

#[test]
fn player_acts_on_its_buttons() {
    let trig = trig_table();
    let left = AABBox::new(Coord::new(0, 0), Coord::new(10, 10));
    let right = AABBox::new(Coord::new(20, 0), Coord::new(30, 10));
    let mut player = Player::new(GameColor { value: RED }, start_at(100, 100, 5), left, right);
    player.act(&[Coord::new(5, 5)], &trig);
    assert_eq!(player.curve().position(), pixel(101, 100));
    player.act(&[Coord::new(5, 5), Coord::new(25, 5)], &trig);
    assert_eq!(player.curve().position(), pixel(102, 100));
    player.lost = true;
    player.act(&[], &trig);
    assert_eq!(player.curve().position(), pixel(102, 100));
    player.reset(start_at(50, 60, 90));
    assert!(!player.lost);
    assert_eq!(player.curve().position(), pixel(50, 60));
    assert_eq!(player.curve().trace_len(), 1);
    player.act(&[], &trig);
    assert_eq!(player.curve().position(), pixel(50, 61));
    player.clear_trace();
    assert_eq!(player.curve().trace_len(), 1);
    let mut display = Vec::new();
    player.draw(&mut display);
    assert_eq!(
        display,
        vec![DrawCommand::Disc {
            center: Coord::new(50, 61),
            radius: 3,
            color: GameColor { value: RED },
        }]
    );
}

#[test]
fn players_steer_from_their_corners() {
    let trig = trig_table();
    let draws = [
        start_at(100, 50, 5),
        start_at(200, 50, 5),
        start_at(300, 50, 5),
        start_at(400, 50, 5),
    ];
    let turned_left = |who: usize, touch: Coord| {
        let mut game = Game::new(&colors(), &draws);
        let mut display = Vec::new();
        game.step(pickup_at(20, 250, 3), &trig, &mut display, &[touch], 1);
        let y = game.players[who].curve().position().y;
        (y == 50 * ONE, y > 50 * ONE + 10000)
    };
    assert_eq!(turned_left(0, Coord::new(400, 200)), (true, false));
    assert_eq!(turned_left(0, Coord::new(400, 100)), (false, true));
    assert_eq!(turned_left(1, Coord::new(50, 50)), (true, false));
    assert_eq!(turned_left(1, Coord::new(50, 200)), (false, true));
    assert_eq!(turned_left(2, Coord::new(300, 50)), (true, false));
    assert_eq!(turned_left(2, Coord::new(200, 50)), (false, true));
    assert_eq!(turned_left(3, Coord::new(200, 200)), (true, false));
    assert_eq!(turned_left(3, Coord::new(300, 200)), (false, true));
}

#[test]
fn step_spawns_a_pickup_when_its_clock_runs_out() {
    let trig = trig_table();
    let mut game = quiet_game();
    let mut display = Vec::new();
    let draw = BuffDraw { interval: 1000, x: 460 + 390, y: 252 + 20, variant: 8 + 3 };
    assert_eq!(game.step(draw, &trig, &mut display, &[], 1), GameState::Playing);
    assert_eq!(game.pickups().len(), 1);
    assert_eq!(game.pickups()[0].get_pos(), Coord::new(400, 30));
    assert_eq!(game.pickups()[0].draw(), DrawCommand::Sprite { icon: Icon::Slow, pos: Coord::new(400, 30) });
    game.step(pickup_at(50, 50, 0), &trig, &mut display, &[], 60);
    assert_eq!(game.pickups().len(), 1);
    game.step(pickup_at(50, 50, 0), &trig, &mut display, &[], 40);
    assert_eq!(game.pickups().len(), 1);
    game.step(pickup_at(50, 250, 0), &trig, &mut display, &[], 1);
    assert_eq!(game.pickups().len(), 2);
    assert_eq!(game.pickups()[1].get_pos(), Coord::new(50, 250));
}

#[test]
fn step_spawns_every_kind_but_the_swaying_one() {
    let trig = trig_table();
    let icons = [
        Icon::Fast,
        Icon::Clear,
        Icon::ChangeDirection,
        Icon::Slow,
        Icon::Color,
        Icon::Big,
        Icon::Small,
        Icon::Border,
    ];
    for variant in 0..16u32 {
        let mut game = quiet_game();
        let mut display = Vec::new();
        game.step(pickup_at(400, 30, variant), &trig, &mut display, &[], 1);
        assert_eq!(
            game.pickups()[0].draw(),
            DrawCommand::Sprite { icon: icons[(variant % 8) as usize], pos: Coord::new(400, 30) }
        );
    }
}

#[test]
fn step_moves_the_curves_when_the_move_clock_runs_out() {
    let trig = trig_table();
    let mut game = quiet_game();
    let mut display = Vec::new();
    let far = pickup_at(400, 30, 3);
    game.step(far, &trig, &mut display, &[], 1);
    assert_eq!(game.players[0].curve().position(), pixel(101, 100));
    assert_eq!(game.players[1].curve().position(), pixel(300, 201));
    let shown = display.len();
    game.step(far, &trig, &mut display, &[], 3);
    assert_eq!(game.players[0].curve().position(), pixel(101, 100));
    assert_eq!(display.len(), shown);
    game.step(far, &trig, &mut display, &[], 1);
    assert_eq!(game.players[0].curve().position(), pixel(102, 100));
    game.step(far, &trig, &mut display, &[], 2);
    game.step(far, &trig, &mut display, &[], 1);
    assert_eq!(game.players[0].curve().position(), pixel(102, 100));
    game.step(far, &trig, &mut display, &[], 4);
    assert_eq!(game.players[0].curve().position(), pixel(103, 100));
    game.step(far, &trig, &mut display, &[], 4);
    assert_eq!(game.players[0].curve().position(), pixel(104, 100));
    assert_eq!(game.players[1].curve().position(), pixel(300, 204));
}

#[test]
fn step_draws_pickups_heads_and_border() {
    let trig = trig_table();
    let mut game = quiet_game();
    let mut display = Vec::new();
    game.step(pickup_at(400, 30, 5), &trig, &mut display, &[], 1);
    let outline = DrawCommand::Outline {
        top_left: Coord::new(10, 10),
        bottom_right: Coord::new(469, 261),
        color: GameColor { value: BLACK },
    };
    assert_eq!(
        display,
        vec![
            DrawCommand::Sprite { icon: Icon::Big, pos: Coord::new(400, 30) },
            DrawCommand::Disc {
                center: Coord::new(101, 100),
                radius: 3,
                color: GameColor { value: BLUE },
            },
            DrawCommand::Disc {
                center: Coord::new(300, 201),
                radius: 3,
                color: GameColor { value: GREEN },
            },
            outline,
        ]
    );
    assert!(game.border().drawn);
    display.clear();
    game.step(pickup_at(400, 30, 5), &trig, &mut display, &[], 4);
    assert_eq!(display.len(), 3);
    assert_eq!(display[0], DrawCommand::Sprite { icon: Icon::Big, pos: Coord::new(400, 30) });
}

#[test]
fn step_with_one_player_left_is_finished() {
    let trig = trig_table();
    let mut game = quiet_game();
    let mut display = Vec::new();
    game.step(pickup_at(400, 30, 3), &trig, &mut display, &[], 1);
    game.players[1].lost = true;
    let shown = display.clone();
    let positions = (game.players[0].curve().position(), game.players[1].curve().position());
    for dt in [1usize, 3, 4, 1000] {
        let state =
            game.step(pickup_at(50, 50, 7), &trig, &mut display, &[Coord::new(400, 200)], dt);
        assert_eq!(state, GameState::Finished);
        assert_eq!(display, shown);
        assert_eq!(game.pickups().len(), 1);
        assert_eq!(
            (game.players[0].curve().position(), game.players[1].curve().position()),
            positions
        );
        assert_eq!((game.players[0].score, game.players[1].score), (0, 0));
        assert_eq!((game.players[0].lost, game.players[1].lost), (false, true));
        assert_eq!(game.players[0].curve().trace_len(), 1);
        assert!(!game.border().active);
        assert_eq!(game.active_players(), 1);
    }
    game.players[0].lost = true;
    assert_eq!(
        game.step(pickup_at(50, 50, 7), &trig, &mut display, &[], 4),
        GameState::Finished
    );
    assert_eq!(display, shown);
}

#[test]
fn one_player_alone_is_finished_at_once() {
    let trig = trig_table();
    let mut game = Game::new(&colors()[..1], &[start_at(100, 100, 0)]);
    let mut display = Vec::new();
    assert_eq!(
        game.step(pickup_at(400, 30, 3), &trig, &mut display, &[], 4),
        GameState::Finished
    );
    assert_eq!(game.pickups().len(), 0);
    assert_eq!(display.len(), 0);
    assert_eq!(game.players[0].curve().position(), pixel(100, 100));
}

#[test]
fn crash_gives_points_to_those_still_in() {
    let trig = trig_table();
    let mut game = Game::new(
        &colors()[..3],
        &[start_at(210, 110, 0), start_at(210, 110, 180), start_at(60, 210, 90)],
    );
    let mut display = Vec::new();
    let state = game.step(pickup_at(400, 30, 3), &trig, &mut display, &[], 1);
    assert_eq!(state, GameState::Playing);
    assert_eq!(game.players[0].lost, true);
    assert_eq!(game.players[1].lost, true);
    assert_eq!(game.players[2].lost, false);
    assert_eq!(game.players[0].score, 0);
    assert_eq!(game.players[1].score, 1);
    assert_eq!(game.players[2].score, 2);
    assert_eq!(display.len(), 3);
    assert_eq!(
        display[1],
        DrawCommand::Disc {
            center: Coord::new(60, 211),
            radius: 3,
            color: GameColor { value: RED },
        }
    );
    assert_eq!(
        game.step(pickup_at(400, 30, 3), &trig, &mut display, &[], 4),
        GameState::Finished
    );
    assert_eq!(
        (game.players[0].score, game.players[1].score, game.players[2].score),
        (0, 1, 2)
    );
}

#[test]
fn head_in_a_trail_loses_and_the_trail_does_not() {
    let trig = trig_table();
    let mut game = Game::new(
        &colors()[..3],
        &[start_at(100, 100, 0), start_at(120, 130, 270), start_at(300, 200, 0)],
    );
    let mut display = Vec::new();
    let far = pickup_at(400, 30, 3);
    let mut ticks = 0;
    while !game.players[1].lost && ticks < 40 {
        assert_eq!(game.step(far, &trig, &mut display, &[], 4), GameState::Playing);
        ticks += 1;
    }
    assert_eq!(ticks, 25);
    assert_eq!(game.players[1].curve().position(), pixel(120, 105));
    assert!(!game.players[0].lost);
    assert!(!game.players[2].lost);
    assert_eq!(
        (game.players[0].score, game.players[1].score, game.players[2].score),
        (1, 0, 1)
    );
    for _ in 0..10 {
        game.step(far, &trig, &mut display, &[], 4);
    }
    assert_eq!(game.players[1].curve().position(), pixel(120, 105));
    assert_eq!(
        (game.players[0].score, game.players[1].score, game.players[2].score),
        (1, 0, 1)
    );
    assert!(!game.players[0].lost);
}

#[test]
fn lost_player_keeps_its_score_when_others_crash() {
    let trig = trig_table();
    let mut game = Game::new(
        &colors(),
        &[
            start_at(210, 110, 0),
            start_at(210, 110, 180),
            start_at(60, 210, 90),
            start_at(400, 60, 90),
        ],
    );
    game.players[2].lost = true;
    game.players[2].score = 7;
    let mut display = Vec::new();
    game.step(pickup_at(400, 230, 3), &trig, &mut display, &[], 1);
    assert_eq!(
        (
            game.players[0].score,
            game.players[1].score,
            game.players[2].score,
            game.players[3].score
        ),
        (0, 1, 7, 2)
    );
    assert!(game.players[2].lost);
    assert_eq!(game.players[2].curve().position(), pixel(60, 210));
}

#[test]
fn fast_pickup_goes_to_the_one_who_takes_it() {
    let trig = trig_table();
    let mut game = quiet_game();
    let mut display = Vec::new();
    game.step(pickup_at(100, 100, 0), &trig, &mut display, &[], 1);
    assert_eq!(game.pickups().len(), 0);
    assert_eq!(game.players[0].curve().effective_speed(), 2 * UNIT);
    assert_eq!(game.players[0].curve().buff_count(), 1);
    assert_eq!(game.players[1].curve().buff_count(), 0);
    assert_eq!(
        display[0],
        DrawCommand::Fill {
            top_left: Coord::new(100, 100),
            bottom_right: Coord::new(110, 110),
            color: GameColor { value: BLACK },
        }
    );
    assert_eq!(display.len(), 4);
    game.step(pickup_at(400, 30, 3), &trig, &mut display, &[], 4);
    assert_eq!(game.players[0].curve().position(), pixel(103, 100));
}

#[test]
fn pickup_out_of_reach_stays() {
    let trig = trig_table();
    let mut game = quiet_game();
    let mut display = Vec::new();
    game.step(pickup_at(115, 100, 0), &trig, &mut display, &[], 1);
    assert_eq!(game.pickups().len(), 1);
    assert_eq!(game.players[0].curve().buff_count(), 0);
    game.step(pickup_at(400, 30, 3), &trig, &mut display, &[], 4);
    assert_eq!(game.pickups().len(), 0);
    assert_eq!(game.players[0].curve().buff_count(), 1);
}

#[test]
fn swap_pickup_goes_to_everyone_else() {
    let trig = trig_table();
    let mut game = Game::new(
        &colors()[..3],
        &[start_at(100, 100, 0), start_at(300, 200, 90), start_at(200, 50, 0)],
    );
    let mut display = Vec::new();
    game.step(pickup_at(300, 200, 2), &trig, &mut display, &[], 1);
    assert_eq!(game.pickups().len(), 0);
    assert_eq!(game.players[0].curve().turn_rate(), 355);
    assert_eq!(game.players[1].curve().turn_rate(), 5);
    assert_eq!(game.players[2].curve().turn_rate(), 355);
}

#[test]
fn first_player_in_reach_takes_the_pickup() {
    let trig = trig_table();
    let mut game = Game::new(&colors()[..2], &[start_at(100, 100, 90), start_at(120, 100, 90)]);
    let mut display = Vec::new();
    game.step(pickup_at(110, 101, 5), &trig, &mut display, &[], 1);
    assert_eq!(game.pickups().len(), 0);
    assert_eq!(game.players[0].curve().buff_count(), 1);
    assert_eq!(game.players[1].curve().buff_count(), 0);
}

#[test]
fn clear_pickup_wipes_the_field() {
    let trig = trig_table();
    let mut game = quiet_game();
    let mut display = Vec::new();
    let far = pickup_at(400, 30, 3);
    let left = Coord::new(400, 200);
    for _ in 0..8 {
        game.step(far, &trig, &mut display, &[left], 4);
    }
    assert!(game.players[0].curve().trace_len() > 1);
    assert!(game.border().drawn);
    let at = game.players[1].curve().position();
    assert_eq!(at, pixel(300, 208));
    display.clear();
    let on_head = pickup_at((at.x / ONE) as u32, (at.y / ONE) as u32, 1);
    game.step(on_head, &trig, &mut display, &[], 300);
    assert_eq!(game.players[0].curve().trace_len(), 1);
    assert_eq!(game.players[1].curve().trace_len(), 1);
    assert_eq!(game.pickups().len(), 1);
    assert_eq!(
        display[1],
        DrawCommand::Fill {
            top_left: Coord::new(10, 10),
            bottom_right: Coord::new(470, 262),
            color: GameColor { value: BLACK },
        }
    );
    assert_eq!(display.len(), 6);
    assert!(game.border().drawn);
    assert!(!game.border().active);
}

#[test]
fn border_switched_off_stops_nobody() {
    let trig = trig_table();
    let mut game = Game::new(&colors()[..2], &[start_at(11, 100, 90), start_at(300, 200, 90)]);
    let mut display = Vec::new();
    for _ in 0..50 {
        assert_eq!(
            game.step(pickup_at(400, 30, 3), &trig, &mut display, &[], 4),
            GameState::Playing
        );
    }
    assert_eq!(game.players[0].curve().position(), pixel(11, 150));
    assert!(!game.players[0].lost);
    assert!(!game.players[1].lost);
    assert_eq!((game.players[0].score, game.players[1].score), (0, 0));
}

#[test]
fn border_switched_on_stops_who_touches_it() {
    let trig = trig_table();
    let mut game = Game::new(&colors()[..2], &[start_at(11, 100, 90), start_at(300, 200, 90)]);
    let mut display = Vec::new();
    game.step(pickup_at(300, 200, 7), &trig, &mut display, &[], 1);
    assert!(game.border().active);
    assert!(game.players[0].lost);
    assert!(!game.players[1].lost);
    assert_eq!((game.players[0].score, game.players[1].score), (0, 1));
    assert_eq!(
        display[display.len() - 1],
        DrawCommand::Outline {
            top_left: Coord::new(10, 10),
            bottom_right: Coord::new(469, 261),
            color: GameColor { value: WHITE },
        }
    );
    assert_eq!(display.len(), 3);
}

#[test]
fn new_round_keeps_the_scores() {
    let trig = trig_table();
    let mut game = Game::new(
        &colors()[..3],
        &[start_at(210, 110, 0), start_at(210, 110, 180), start_at(300, 200, 90)],
    );
    let mut display = Vec::new();
    game.step(pickup_at(300, 200, 7), &trig, &mut display, &[], 1);
    assert!(game.border().active);
    game.step(pickup_at(400, 30, 3), &trig, &mut display, &[], 4);
    assert_eq!(game.pickups().len(), 0);
    game.new_game(&[start_at(50, 60, 0), start_at(70, 80, 90), start_at(90, 100, 180)]);
    assert_eq!(
        (game.players[0].score, game.players[1].score, game.players[2].score),
        (0, 1, 2)
    );
    assert_eq!(
        (game.players[0].lost, game.players[1].lost, game.players[2].lost),
        (false, false, false)
    );
    assert_eq!(game.players[0].curve().position(), pixel(50, 60));
    assert_eq!(game.players[1].curve().position(), pixel(70, 80));
    assert_eq!(game.players[2].curve().position(), pixel(90, 100));
    assert_eq!(game.players[2].curve().buff_count(), 0);
    assert_eq!(game.players[0].curve().effective_color(), GameColor { value: BLUE });
    assert_eq!(game.pickups().len(), 0);
    assert!(!game.border().active);
    assert!(!game.border().drawn);
    assert_eq!(game.active_players(), 3);
    display.clear();
    assert_eq!(
        game.step(pickup_at(400, 30, 3), &trig, &mut display, &[], 1),
        GameState::Playing
    );
    assert_eq!(game.pickups().len(), 1);
    assert_eq!(game.players[0].curve().position(), pixel(51, 60));
}

#[test]
fn start_screen_asks_for_one_to_four_players() {
    assert_eq!(player_select(0), 1);
    assert_eq!(player_select(119), 1);
    assert_eq!(player_select(120), 2);
    assert_eq!(player_select(239), 2);
    assert_eq!(player_select(240), 3);
    assert_eq!(player_select(359), 3);
    assert_eq!(player_select(360), 4);
    assert_eq!(player_select(479), 4);
    assert_eq!(player_select(100_000), 4);
}

#[test]
fn winner_is_the_last_player_still_in() {
    let mut game = Game::new(
        &colors()[..3],
        &[start_at(100, 100, 0), start_at(300, 200, 90), start_at(200, 50, 0)],
    );
    assert_eq!(game.winner(), Some(2));
    game.players[2].lost = true;
    assert_eq!(game.winner(), Some(1));
    game.players[0].lost = true;
    assert_eq!(game.winner(), Some(1));
    game.players[1].lost = true;
    assert_eq!(game.winner(), None);
    assert_eq!(game.active_players(), 0);
}

#[test]
fn pickup_is_due_when_its_clock_has_run_out() {
    let trig = trig_table();
    let mut game = quiet_game();
    let mut display = Vec::new();
    assert!(!game.pickup_due(0));
    assert!(game.pickup_due(1));
    game.step(BuffDraw { interval: 310, x: 390, y: 20, variant: 3 }, &trig, &mut display, &[], 1);
    assert!(!game.pickup_due(10));
    assert!(game.pickup_due(11));
    game.step(pickup_at(50, 50, 0), &trig, &mut display, &[], 4);
    assert!(!game.pickup_due(6));
    assert!(game.pickup_due(7));
    game.players[0].lost = true;
    assert!(!game.pickup_due(7));
}

#[test]
fn trail_is_never_empty() {
    let trig = trig_table();
    let mut game = Game::new(&colors()[..2], &[start_at(100, 100, 0), start_at(465, 200, 0)]);
    let mut display = Vec::new();
    let left = Coord::new(400, 200);
    for tick in 0..60u32 {
        let draw = BuffDraw { interval: 0, x: 90 + tick, y: 90, variant: tick };
        game.step(draw, &trig, &mut display, &[left], 4);
        for p in &game.players {
            assert!(p.curve().trace_len() >= 1);
        }
    }
    assert!(game.players[1].curve().trace_len() >= 2);
}
