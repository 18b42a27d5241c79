//! The game: players, the pickups that lie on the field, the border, and the
//! step that moves all of it on.
//!
//! Chance and the screen stay outside. Whoever calls hands in the random
//! numbers that a call may use and gets back, in a list, what to draw.

use crate::border::Border;
use crate::buffs::{
    icon_corner, icon_fits, BigBuffSprite, BorderBuffSprite, Buff, ChangeDirBuffSprite,
    ClearBuffSprite, ColorBuffSprite, FastPlayerBuffSprite, Pickup, SlowBuffSprite,
    SmallBuffSprite,
};
use crate::display::{DrawCommand, GameColor, BLACK, WIDTH};
use crate::fixed::{ONE, UNIT};
use crate::geometry::{AABBox, Coord, TrigTable, Vector2D, FULL_TURN};
use crate::player::{
    Collide, CollideSelf, Curve, CurveView, PlayerInput, Segment, PAD_LEFT, PAD_TOP,
};
use crate::sequences::lemma_take_step;
use vstd::prelude::*;

verus! {

/// Radius in pixels of every curve's trail.
pub const CURVE_RADIUS: u32 = 3;

/// A new pickup appears within this many ticks of the last.
pub const MAX_TT_BUFF: u32 = 300;

/// Ticks between two moves of the curves.
pub const UPDATE_INTERVAL: usize = 3;

/// Width of the field in pixels: the screen without the pads.
pub const FIELD_WIDTH: u32 = 460;

/// Height of the field in pixels.
pub const FIELD_HEIGHT: u32 = 252;

/// The field's far corner. Wiping the screen fills the field up to here.
pub const FIELD_END_X: i32 = 470;

pub const FIELD_END_Y: i32 = 262;

// Buttons and random numbers

/// A part of the touch screen that works as a button.
#[derive(Copy, Clone)]
pub struct InputRegion {
    sensitive_rect: AABBox,
}

/// One of `touches` lies in `rect`.
pub open spec fn touched(rect: AABBox, touches: Seq<Coord>) -> bool {
    exists|i: int| 0 <= i < touches.len() && rect.contains(#[trigger] touches[i])
}

impl InputRegion {
    pub closed spec fn rect(&self) -> AABBox {
        self.sensitive_rect
    }

    pub fn new(boxx: AABBox) -> (region: InputRegion)
        ensures
            region.rect() == boxx,
    {
        InputRegion { sensitive_rect: boxx }
    }

    /// Whether a finger is on the button.
    pub fn is_active(&self, touches: &[Coord]) -> (active: bool)
        ensures
            active == touched(self.rect(), touches@),
    {
        let mut i: usize = 0;
        while i < touches.len()
            invariant
                i <= touches.len(),
                forall|k: int| 0 <= k < i ==> !self.rect().contains(#[trigger] touches@[k]),
            decreases touches.len() - i,
        {
            if self.sensitive_rect.inside(touches[i]) {
                return true;
            }
            i += 1;
        }
        false
    }
}

/// What the two buttons of a player ask for.
pub open spec fn resolve_input(left: bool, right: bool) -> PlayerInput {
    if left && right {
        PlayerInput::Both
    } else if left {
        PlayerInput::Left
    } else if right {
        PlayerInput::Right
    } else {
        PlayerInput::Neither
    }
}

/// Three random numbers: where a curve starts and where it heads.
#[derive(Copy, Clone)]
pub struct StartDraw {
    pub x: u32,
    pub y: u32,
    pub angle: u32,
}

/// Four random numbers: when the next pickup appears, where, and of what
/// kind.
#[derive(Copy, Clone)]
pub struct BuffDraw {
    pub interval: u32,
    pub x: u32,
    pub y: u32,
    pub variant: u32,
}

/// The pixel of the field that two random numbers pick.
pub open spec fn field_pixel(x: u32, y: u32) -> Coord {
    Coord { x: (PAD_LEFT + x % FIELD_WIDTH) as i32, y: (PAD_TOP + y % FIELD_HEIGHT) as i32 }
}

/// The position of the pixel `at`.
pub open spec fn position_of(at: Coord) -> Vector2D {
    Vector2D { x: (at.x * ONE) as i64, y: (at.y * ONE) as i64 }
}

/// The pickup that four random numbers pick.
pub open spec fn drawn_pickup(draw: BuffDraw) -> Pickup {
    let pos = field_pixel(draw.x, draw.y);
    match draw.variant % 8 {
        0 => Pickup::Fast(FastPlayerBuffSprite::at(pos)),
        1 => Pickup::Clear(ClearBuffSprite::at(pos)),
        2 => Pickup::ChangeDir(ChangeDirBuffSprite::at(pos)),
        3 => Pickup::Slow(SlowBuffSprite::at(pos)),
        4 => Pickup::Color(ColorBuffSprite::at(pos)),
        5 => Pickup::Big(BigBuffSprite::at(pos)),
        6 => Pickup::Small(SmallBuffSprite::at(pos)),
        _ => Pickup::Border(BorderBuffSprite::at(pos)),
    }
}

/// The curve that three random numbers pick.
pub open spec fn drawn_curve(color: GameColor, draw: StartDraw) -> CurveView {
    let start = position_of(field_pixel(draw.x, draw.y));
    CurveView {
        pos: start,
        color,
        heading: draw.angle % FULL_TURN,
        radius: CURVE_RADIUS,
        speed: UNIT,
        buffs: Seq::empty(),
        trace: seq![Segment { start, end: start, radius: CURVE_RADIUS }],
    }
}

/// Picks a pixel of the field.
fn rand_pos(x: u32, y: u32) -> (at: Coord)
    ensures
        at == field_pixel(x, y),
{
    Coord::new(PAD_LEFT + (x % FIELD_WIDTH) as i32, PAD_TOP + (y % FIELD_HEIGHT) as i32)
}

/// Picks a pickup.
fn new_rand_buff(draw: BuffDraw) -> (pickup: Pickup)
    ensures
        pickup == drawn_pickup(draw),
        icon_fits(pickup.position()),
{
    let pos_coord = rand_pos(draw.x, draw.y);
    match draw.variant % 8 {
        0 => Pickup::Fast(FastPlayerBuffSprite::new(pos_coord)),
        1 => Pickup::Clear(ClearBuffSprite::new(pos_coord)),
        2 => Pickup::ChangeDir(ChangeDirBuffSprite::new(pos_coord)),
        3 => Pickup::Slow(SlowBuffSprite::new(pos_coord)),
        4 => Pickup::Color(ColorBuffSprite::new(pos_coord)),
        5 => Pickup::Big(BigBuffSprite::new(pos_coord)),
        6 => Pickup::Small(SmallBuffSprite::new(pos_coord)),
        _ => Pickup::Border(BorderBuffSprite::new(pos_coord)),
    }
}

/// Picks a curve.
fn new_rand_curve(color: GameColor, draw: StartDraw) -> (curve: Curve)
    ensures
        curve.wf(),
        curve@ == drawn_curve(color, draw),
{
    let at = rand_pos(draw.x, draw.y);
    Curve::new(color, Vector2D::from_pixels(at.x, at.y), CURVE_RADIUS, draw.angle % FULL_TURN)
}

// Players

/// One player: a curve, two buttons, and the score.
pub struct Player {
    pub score: u32,
    pub lost: bool,
    curve: Curve,
    color: GameColor,
    input_left: InputRegion,
    input_right: InputRegion,
}

/// What a player is, as plain values.
pub struct PlayerView {
    pub score: u32,
    pub lost: bool,
    pub curve: CurveView,
    pub color: GameColor,
    pub input_left: AABBox,
    pub input_right: AABBox,
}

impl PlayerView {
    pub open spec fn wf(self) -> bool {
        self.curve.wf()
    }

    /// What the player asks for while fingers are on `touches`.
    pub open spec fn input(self, touches: Seq<Coord>) -> PlayerInput {
        resolve_input(touched(self.input_left, touches), touched(self.input_right, touches))
    }

    pub open spec fn with_curve(self, curve: CurveView) -> PlayerView {
        PlayerView {
            score: self.score,
            lost: self.lost,
            curve,
            color: self.color,
            input_left: self.input_left,
            input_right: self.input_right,
        }
    }

    /// The player one tick later. A player who is out stays put.
    pub open spec fn act(self, touches: Seq<Coord>, trig: Seq<Vector2D>) -> PlayerView {
        if self.lost {
            self
        } else {
            self.with_curve(self.curve.act(self.input(touches), trig))
        }
    }

    /// The player at the start of a round, with the score kept.
    pub open spec fn reset(self, draw: StartDraw) -> PlayerView {
        PlayerView {
            score: self.score,
            lost: false,
            curve: drawn_curve(self.color, draw),
            color: self.color,
            input_left: self.input_left,
            input_right: self.input_right,
        }
    }

    /// The player out of the round.
    pub open spec fn out(self) -> PlayerView {
        PlayerView {
            score: self.score,
            lost: true,
            curve: self.curve,
            color: self.color,
            input_left: self.input_left,
            input_right: self.input_right,
        }
    }

    /// The player with one point more.
    pub open spec fn scored(self) -> PlayerView {
        PlayerView {
            score: (self.score + 1) as u32,
            lost: self.lost,
            curve: self.curve,
            color: self.color,
            input_left: self.input_left,
            input_right: self.input_right,
        }
    }
}

impl View for Player {
    type V = PlayerView;

    closed spec fn view(&self) -> PlayerView {
        PlayerView {
            score: self.score,
            lost: self.lost,
            curve: self.curve@,
            color: self.color,
            input_left: self.input_left.rect(),
            input_right: self.input_right.rect(),
        }
    }
}

impl Player {
    pub open spec fn wf(&self) -> bool {
        self@.wf()
    }

    /// A player with no points whose curve starts where `draw` says.
    pub fn new(color: GameColor, draw: StartDraw, input_left: AABBox, input_right: AABBox) -> (player:
        Player)
        ensures
            player.wf(),
            player@ == (PlayerView {
                score: 0,
                lost: false,
                curve: drawn_curve(color, draw),
                color,
                input_left,
                input_right,
            }),
    {
        Player {
            score: 0,
            lost: false,
            color,
            curve: new_rand_curve(color, draw),
            input_left: InputRegion::new(input_left),
            input_right: InputRegion::new(input_right),
        }
    }

    pub fn clear_trace(&mut self)
        requires
            old(self).wf(),
        ensures
            final(self).wf(),
            final(self)@ == old(self)@.with_curve(old(self)@.curve.cleared()),
    {
        self.curve.clear_trace();
    }

    /// Puts the player back into the game with a new curve. The score stays.
    pub fn reset(&mut self, draw: StartDraw)
        ensures
            final(self).wf(),
            final(self)@ == old(self)@.reset(draw),
    {
        self.curve = new_rand_curve(self.color, draw);
        self.lost = false;
    }

    /// What the player asks for while fingers are on `touches`: a turn to the
    /// side of the one button that is pressed, none with both or neither.
    pub fn get_player_input(&self, touches: &[Coord]) -> (input: PlayerInput)
        ensures
            input == self@.input(touches@),
    {
        let push_left = self.input_left.is_active(touches);
        let push_right = self.input_right.is_active(touches);
        match (push_left, push_right) {
            (true, true) => PlayerInput::Both,
            (true, false) => PlayerInput::Left,
            (false, true) => PlayerInput::Right,
            (false, false) => PlayerInput::Neither,
        }
    }

    /// Lets one tick pass for the player's curve, steered by the fingers on
    /// `touches`. Does nothing for a player who is out.
    pub fn act(&mut self, touches: &[Coord], trig: &TrigTable)
        requires
            old(self).wf(),
            trig.wf(),
        ensures
            final(self).wf(),
            final(self)@ == old(self)@.act(touches@, trig.entries@),
    {
        if self.lost {
            return ;
        }
        let input = self.get_player_input(touches);
        self.curve.act(input, trig);
    }

    /// The player's curve.
    pub fn curve(&self) -> (curve: &Curve)
        ensures
            curve@ == self@.curve,
    {
        &self.curve
    }

    /// Draws the player's curve.
    pub fn draw(&self, display: &mut Vec<DrawCommand>)
        requires
            self.wf(),
        ensures
            final(display)@ == old(display)@.push(self@.curve.disc()),
    {
        self.curve.draw(display);
    }
}

/// Whether a round is still on.
#[derive(Debug, Clone, Copy, PartialEq, Eq, Structural)]
pub enum GameState {
    Playing,
    Finished,
}

/// The button that turns the curve of player `i` to the left. Players share
/// the four corners of the screen in turn.
pub open spec fn left_region(i: int) -> AABBox {
    if i % 4 == 0 {
        AABBox { top_left: Coord { x: 360, y: 136 }, bottom_right: Coord { x: 480, y: 272 } }
    } else if i % 4 == 1 {
        AABBox { top_left: Coord { x: 0, y: 0 }, bottom_right: Coord { x: 120, y: 136 } }
    } else if i % 4 == 2 {
        AABBox { top_left: Coord { x: 240, y: 0 }, bottom_right: Coord { x: 360, y: 136 } }
    } else {
        AABBox { top_left: Coord { x: 120, y: 136 }, bottom_right: Coord { x: 240, y: 272 } }
    }
}

/// The button that turns the curve of player `i` to the right.
pub open spec fn right_region(i: int) -> AABBox {
    if i % 4 == 0 {
        AABBox { top_left: Coord { x: 360, y: 0 }, bottom_right: Coord { x: 480, y: 136 } }
    } else if i % 4 == 1 {
        AABBox { top_left: Coord { x: 0, y: 136 }, bottom_right: Coord { x: 120, y: 272 } }
    } else if i % 4 == 2 {
        AABBox { top_left: Coord { x: 120, y: 0 }, bottom_right: Coord { x: 240, y: 136 } }
    } else {
        AABBox { top_left: Coord { x: 240, y: 136 }, bottom_right: Coord { x: 360, y: 272 } }
    }
}

/// The two buttons of player `i`, left first.
fn input_regions(i: usize) -> (regions: (AABBox, AABBox))
    ensures
        regions.0 == left_region(i as int),
        regions.1 == right_region(i as int),
{
    match i % 4 {
        0 => (
            AABBox::new(Coord::new(360, 136), Coord::new(480, 272)),
            AABBox::new(Coord::new(360, 0), Coord::new(480, 136)),
        ),
        1 => (
            AABBox::new(Coord::new(0, 0), Coord::new(120, 136)),
            AABBox::new(Coord::new(0, 136), Coord::new(120, 272)),
        ),
        2 => (
            AABBox::new(Coord::new(240, 0), Coord::new(360, 136)),
            AABBox::new(Coord::new(120, 0), Coord::new(240, 136)),
        ),
        _ => (
            AABBox::new(Coord::new(120, 136), Coord::new(240, 272)),
            AABBox::new(Coord::new(240, 136), Coord::new(360, 272)),
        ),
    }
}

/// Number of players that a touch at column `x` of the start screen asks
/// for: one for each quarter of the screen up to and with the one touched.
pub open spec fn players_asked_for(x: usize) -> usize {
    if x < 120 {
        1
    } else if x < 240 {
        2
    } else if x < 360 {
        3
    } else {
        4
    }
}

/// Reads the number of players off a touch on the start screen.
pub fn player_select(x: usize) -> (count: usize)
    ensures
        count == players_asked_for(x),
{
    if x < WIDTH / 4 {
        1
    } else if x < WIDTH / 2 {
        2
    } else if x < 3 * WIDTH / 4 {
        3
    } else {
        4
    }
}

// Counting who is in

/// Number of players that are still in the round.
pub open spec fn active_count(players: Seq<PlayerView>) -> nat
    decreases players.len(),
{
    if players.len() == 0 {
        0
    } else if players.last().lost {
        active_count(players.drop_last())
    } else {
        active_count(players.drop_last()) + 1
    }
}

/// Every score can still take a point from each player who may yet drop out.
pub open spec fn scores_have_room(players: Seq<PlayerView>, droppers: nat) -> bool {
    forall|i: int| 0 <= i < players.len() ==> (#[trigger] players[i]).score + droppers <= u32::MAX
}

/// The bitmap of every pickup ends on a pixel that can be named.
pub open spec fn pickups_fit(buffs: Seq<Pickup>) -> bool {
    forall|k: int| 0 <= k < buffs.len() ==> icon_fits((#[trigger] buffs[k]).position())
}

/// The players as plain values.
pub open spec fn views(players: Seq<Player>) -> Seq<PlayerView> {
    Seq::new(players.len(), |i: int| players[i]@)
}

/// Players of whom the same are out have the same number still in.
pub proof fn lemma_active_count_same(s: Seq<PlayerView>, t: Seq<PlayerView>)
    requires
        s.len() == t.len(),
        forall|j: int| 0 <= j < s.len() ==> s[j].lost == t[j].lost,
    ensures
        active_count(s) == active_count(t),
    decreases s.len(),
{
    if s.len() > 0 {
        lemma_active_count_same(s.drop_last(), t.drop_last());
    }
}

/// When one player drops out, one fewer is in.
pub proof fn lemma_active_count_out(s: Seq<PlayerView>, t: Seq<PlayerView>, k: int)
    requires
        s.len() == t.len(),
        0 <= k < s.len(),
        forall|j: int| 0 <= j < s.len() && j != k ==> s[j].lost == t[j].lost,
        !s[k].lost,
        t[k].lost,
    ensures
        active_count(t) + 1 == active_count(s),
    decreases s.len(),
{
    if k == s.len() - 1 {
        lemma_active_count_same(s.drop_last(), t.drop_last());
    } else {
        lemma_active_count_out(s.drop_last(), t.drop_last(), k);
    }
}

/// A player who is in is counted.
pub proof fn lemma_one_active(s: Seq<PlayerView>, a: int)
    requires
        0 <= a < s.len(),
        !s[a].lost,
    ensures
        active_count(s) >= 1,
    decreases s.len(),
{
    if a < s.len() - 1 {
        lemma_one_active(s.drop_last(), a);
    }
}

/// Two players who are in are both counted.
pub proof fn lemma_two_active(s: Seq<PlayerView>, a: int, b: int)
    requires
        0 <= a < b < s.len(),
        !s[a].lost,
        !s[b].lost,
    ensures
        active_count(s) >= 2,
    decreases s.len(),
{
    if b == s.len() - 1 {
        lemma_one_active(s.drop_last(), a);
    } else {
        lemma_two_active(s.drop_last(), a, b);
    }
}

/// No more players are in than there are.
pub proof fn lemma_active_count_bound(s: Seq<PlayerView>)
    ensures
        active_count(s) <= s.len(),
    decreases s.len(),
{
    if s.len() > 0 {
        lemma_active_count_bound(s.drop_last());
    }
}

// The game and how a round starts

/// The whole game.
pub struct Game {
    pub players: Vec<Player>,
    buffs: Vec<Pickup>,
    tt_update: usize,
    tt_new_buff: usize,
    border: Border,
}

/// What a game is, as plain values.
pub struct GameView {
    pub players: Seq<PlayerView>,
    /// The pickups on the field, oldest first.
    pub buffs: Seq<Pickup>,
    /// Ticks until the curves move next.
    pub tt_update: usize,
    /// Ticks until the next pickup appears.
    pub tt_new_buff: usize,
    pub border: Border,
}

impl View for Game {
    type V = GameView;

    closed spec fn view(&self) -> GameView {
        GameView {
            players: views(self.players@),
            buffs: self.buffs@,
            tt_update: self.tt_update,
            tt_new_buff: self.tt_new_buff,
            border: self.border,
        }
    }
}

impl GameView {
    pub open spec fn wf(self) -> bool {
        &&& self.players.len() > 0
        &&& forall|i: int| 0 <= i < self.players.len() ==> (#[trigger] self.players[i]).wf()
        &&& scores_have_room(self.players, active_count(self.players))
        &&& pickups_fit(self.buffs)
    }

    /// The game at the start of a round: every player back in with a new
    /// curve and the old score, no pickups, both clocks at zero, the border
    /// switched off. A border that was on has to be drawn anew.
    pub open spec fn new_game(self, draws: Seq<StartDraw>) -> GameView {
        GameView {
            players: Seq::new(self.players.len(), |i: int| self.players[i].reset(draws[i])),
            buffs: Seq::empty(),
            tt_update: 0,
            tt_new_buff: 0,
            border: Border {
                top_left: self.border.top_left,
                bottom_right: self.border.bottom_right,
                active: false,
                drawn: self.border.drawn && !self.border.active,
            },
        }
    }

    /// The game after `dt` ticks of the pickup clock: when the clock runs
    /// out, the pickup that `draw` picks appears and the clock starts anew.
    pub open spec fn spawn(self, draw: BuffDraw, dt: usize) -> GameView {
        if dt > self.tt_new_buff {
            GameView {
                tt_new_buff: (draw.interval % MAX_TT_BUFF) as usize,
                buffs: self.buffs.push(drawn_pickup(draw)),
                ..self
            }
        } else {
            GameView { tt_new_buff: (self.tt_new_buff - dt) as usize, ..self }
        }
    }

    /// The game after every player who is in has made a move.
    pub open spec fn moved(self, touches: Seq<Coord>, trig: Seq<Vector2D>) -> GameView {
        GameView {
            players: Seq::new(self.players.len(), |i: int| self.players[i].act(touches, trig)),
            ..self
        }
    }
}

impl Game {
    pub open spec fn wf(&self) -> bool {
        self@.wf()
    }

    /// In a game that is well formed every player is.
    proof fn lemma_players_wf(&self)
        requires
            self.wf(),
        ensures
            forall|k: int| 0 <= k < self.players@.len() ==> (#[trigger] self.players@[k]).wf(),
    {
        assert forall|k: int| 0 <= k < self.players@.len() implies (#[trigger] self.players@[k]).wf() by {
            assert(self@.players[k].wf());
        }
    }

    /// A game for one player of each colour in `player_colors`, with curves
    /// where `draws` says.
    pub fn new(player_colors: &[GameColor], draws: &[StartDraw]) -> (game: Game)
        requires
            0 < player_colors@.len() <= u32::MAX,
            draws@.len() == player_colors@.len(),
        ensures
            game.wf(),
            game@ == (GameView {
                players: Seq::new(
                    player_colors@.len(),
                    |i: int|
                        PlayerView {
                            score: 0,
                            lost: false,
                            curve: drawn_curve(player_colors@[i], draws@[i]),
                            color: player_colors@[i],
                            input_left: left_region(i),
                            input_right: right_region(i),
                        },
                ),
                buffs: Seq::empty(),
                tt_update: 0,
                tt_new_buff: 0,
                border: (Border {
                    top_left: Coord { x: 10, y: 10 },
                    bottom_right: Coord { x: 469, y: 261 },
                    active: false,
                    drawn: false,
                }),
            }),
    {
        let buffs: Vec<Pickup> = Vec::new();
        let mut players: Vec<Player> = Vec::new();
        let mut i: usize = 0;
        while i < player_colors.len()
            invariant
                i <= player_colors@.len(),
                draws@.len() == player_colors@.len(),
                players@.len() == i,
                forall|k: int|
                    0 <= k < i ==> (#[trigger] players@[k])@ == (PlayerView {
                        score: 0,
                        lost: false,
                        curve: drawn_curve(player_colors@[k], draws@[k]),
                        color: player_colors@[k],
                        input_left: left_region(k),
                        input_right: right_region(k),
                    }) && players@[k].wf(),
            decreases player_colors@.len() - i,
        {
            let regions = input_regions(i);
            players.push(Player::new(player_colors[i], draws[i], regions.0, regions.1));
            i += 1;
        }
        let game = Game { players, buffs, tt_update: 0, tt_new_buff: 0, border: Border::new() };
        proof {
            lemma_active_count_bound(game@.players);
            assert(game@.players =~= Seq::new(
                player_colors@.len(),
                |i: int|
                    PlayerView {
                        score: 0,
                        lost: false,
                        curve: drawn_curve(player_colors@[i], draws@[i]),
                        color: player_colors@[i],
                        input_left: left_region(i),
                        input_right: right_region(i),
                    },
            ));
            assert(game@.buffs =~= Seq::empty());
        }
        game
    }

    /// Starts a new round. Scores stay.
    pub fn new_game(&mut self, draws: &[StartDraw])
        requires
            old(self)@.players.len() > 0,
            draws@.len() == old(self)@.players.len(),
            scores_have_room(old(self)@.players, old(self)@.players.len()),
        ensures
            final(self).wf(),
            final(self)@ == old(self)@.new_game(draws@),
    {
        self.tt_update = 0;
        self.tt_new_buff = 0;
        let mut i: usize = 0;
        while i < self.players.len()
            invariant
                i <= self.players@.len(),
                self.players@.len() == old(self).players@.len(),
                draws@.len() == self.players@.len(),
                self.border == old(self).border,
                self.tt_update == 0,
                self.tt_new_buff == 0,
                forall|k: int|
                    0 <= k < i ==> (#[trigger] self.players@[k])@ == old(self).players@[k]@.reset(
                        draws@[k],
                    ) && self.players@[k].wf(),
                forall|k: int| i <= k < self.players@.len() ==> self.players@[k] == old(self).players@[k],
            decreases self.players@.len() - i,
        {
            self.players[i].reset(draws[i]);
            i += 1;
        }
        self.buffs.clear();
        if self.border.active {
            self.border.active = false;
            self.border.drawn = false;
        }
        proof {
            lemma_active_count_bound(self@.players);
            assert(self@.players =~= old(self)@.new_game(draws@).players);
            assert(self@.buffs =~= Seq::empty());
        }
    }

    /// Lets `dt` ticks pass for the pickup clock.
    fn update_buffs(&mut self, draw: BuffDraw, dt: usize)
        requires
            old(self).wf(),
        ensures
            final(self).wf(),
            final(self)@ == old(self)@.spawn(draw, dt),
    {
        if dt > self.tt_new_buff {
            self.tt_new_buff = (draw.interval % MAX_TT_BUFF) as usize;
            self.buffs.push(new_rand_buff(draw));
            assert forall|k: int| 0 <= k < self@.buffs.len() implies icon_fits(
                (#[trigger] self@.buffs[k]).position(),
            ) by {
                if k < old(self)@.buffs.len() {
                    assert(self@.buffs[k] == old(self)@.buffs[k]);
                }
            }
        } else {
            self.tt_new_buff -= dt;
        }
    }

    /// Lets every player make a move.
    fn act(&mut self, touches: &[Coord], trig: &TrigTable)
        requires
            old(self).wf(),
            trig.wf(),
        ensures
            final(self).wf(),
            final(self)@ == old(self)@.moved(touches@, trig.entries@),
    {
        let mut i: usize = 0;
        proof {
            self.lemma_players_wf();
        }
        while i < self.players.len()
            invariant
                i <= self.players@.len(),
                trig.wf(),
                self.players@.len() == old(self).players@.len(),
                self.buffs == old(self).buffs,
                self.border == old(self).border,
                self.tt_update == old(self).tt_update,
                self.tt_new_buff == old(self).tt_new_buff,
                forall|k: int|
                    0 <= k < i ==> (#[trigger] self.players@[k])@ == old(self).players@[k]@.act(
                        touches@,
                        trig.entries@,
                    ),
                forall|k: int| 0 <= k < self.players@.len() ==> (#[trigger] self.players@[k]).wf(),
                forall|k: int| i <= k < self.players@.len() ==> self.players@[k] == old(self).players@[k],
            decreases self.players@.len() - i,
        {
            self.players[i].act(touches, trig);
            i += 1;
        }
        proof {
            assert(self@.players =~= old(self)@.moved(touches@, trig.entries@).players);
            lemma_active_count_same(old(self)@.players, self@.players);
        }
    }
}

// The parts of a step, as functions on plain values

/// The players after `pickup` was taken by player `collector`.
pub open spec fn notified(players: Seq<PlayerView>, pickup: Pickup, collector: int) -> Seq<
    PlayerView,
> {
    Seq::new(
        players.len(),
        |i: int| players[i].with_curve(pickup.player_effect(players[i].curve, i == collector)),
    )
}

/// What takes a pickup's bitmap off the screen.
pub open spec fn erase_command(pickup: Pickup) -> DrawCommand {
    DrawCommand::Fill {
        top_left: pickup.position(),
        bottom_right: icon_corner(pickup.position()),
        color: GameColor { value: BLACK },
    }
}

/// What wipes the field.
pub open spec fn wipe_command() -> DrawCommand {
    DrawCommand::Fill {
        top_left: Coord { x: PAD_LEFT, y: PAD_TOP },
        bottom_right: Coord { x: FIELD_END_X, y: FIELD_END_Y },
        color: GameColor { value: BLACK },
    }
}

/// The players after player `loser` has dropped out: everyone else who is
/// still in gets a point. Nothing happens if `loser` was out already.
pub open spec fn lost_to(players: Seq<PlayerView>, loser: int) -> Seq<PlayerView> {
    if players[loser].lost {
        players
    } else {
        Seq::new(
            players.len(),
            |j: int|
                if j == loser {
                    players[j].out()
                } else if !players[j].lost {
                    players[j].scored()
                } else {
                    players[j]
                },
        )
    }
}

/// The players after those named in `losers` have dropped out, one after
/// the other.
pub open spec fn with_losses(players: Seq<PlayerView>, losers: Seq<usize>) -> Seq<PlayerView>
    decreases losers.len(),
{
    if losers.len() == 0 {
        players
    } else {
        lost_to(with_losses(players, losers.drop_last()), losers.last() as int)
    }
}

/// `acc` and behind it, for each player `j` after `i` and before `end`: `i`
/// if the head of `i` touches the trail of `j`, then `j` if the head of `j`
/// touches the trail of `i`.
pub open spec fn scan_pairs(acc: Seq<usize>, players: Seq<PlayerView>, i: int, end: int) -> Seq<
    usize,
>
    decreases end - i,
{
    if end <= i + 1 {
        acc
    } else {
        let j = end - 1;
        let before = scan_pairs(acc, players, i, j);
        let first = if players[i].curve.hits_curve(players[j].curve) {
            before.push(i as usize)
        } else {
            before
        };
        if players[j].curve.hits_curve(players[i].curve) {
            first.push(j as usize)
        } else {
            first
        }
    }
}

/// `acc` and behind it what player `i` adds: `i` if its head touches its own
/// trail, then what it adds with each player after it.
pub open spec fn scan_row(acc: Seq<usize>, players: Seq<PlayerView>, i: int) -> Seq<usize> {
    scan_pairs(
        if players[i].curve.hits_itself() {
            acc.push(i as usize)
        } else {
            acc
        },
        players,
        i,
        players.len() as int,
    )
}

/// The players that ran into a trail, in the order they are found when the
/// first `rows` players are looked at in turn. A player may be named more
/// than once.
pub open spec fn trail_losers(players: Seq<PlayerView>, rows: nat) -> Seq<usize>
    decreases rows,
{
    if rows == 0 {
        Seq::empty()
    } else {
        scan_row(trail_losers(players, (rows - 1) as nat), players, rows - 1)
    }
}

/// Those of the first `upto` players whose head touches the border.
pub open spec fn border_losers(players: Seq<PlayerView>, border: Border, upto: nat) -> Seq<usize>
    decreases upto,
{
    if upto == 0 {
        Seq::empty()
    } else {
        let before = border_losers(players, border, (upto - 1) as nat);
        if players[upto - 1].curve.hits_border(border) {
            before.push((upto - 1) as usize)
        } else {
            before
        }
    }
}

/// `display` and behind it the bitmaps of the first `upto` pickups.
pub open spec fn pickups_drawn(display: Seq<DrawCommand>, buffs: Seq<Pickup>, upto: nat) -> Seq<
    DrawCommand,
>
    decreases upto,
{
    if upto == 0 {
        display
    } else {
        pickups_drawn(display, buffs, (upto - 1) as nat).push(
            DrawCommand::Sprite { icon: buffs[upto - 1].icon(), pos: buffs[upto - 1].position() },
        )
    }
}

/// `display` and behind it the heads of those of the first `upto` players
/// who are in.
pub open spec fn players_drawn(display: Seq<DrawCommand>, players: Seq<PlayerView>, upto: nat) -> Seq<
    DrawCommand,
>
    decreases upto,
{
    if upto == 0 {
        display
    } else {
        let before = players_drawn(display, players, (upto - 1) as nat);
        if players[upto - 1].lost {
            before
        } else {
            before.push(players[upto - 1].curve.disc())
        }
    }
}

/// Where the round of taking pickups stands: the game, whether the screen is
/// to be wiped, and what is to be drawn.
pub struct Sweep {
    pub game: GameView,
    pub clear: bool,
    pub display: Seq<DrawCommand>,
}

impl Sweep {
    /// Player `who` takes `pickup`: every player is told, the border too, and
    /// the bitmap goes off the screen.
    pub open spec fn take(self, pickup: Pickup, who: int) -> Sweep {
        Sweep {
            game: GameView {
                players: notified(self.game.players, pickup, who),
                border: pickup.border_effect(self.game.border),
                ..self.game
            },
            clear: self.clear || pickup.clears_screen(),
            display: self.display.push(erase_command(pickup)),
        }
    }

    /// `pickup` stays on the field.
    pub open spec fn leave(self, pickup: Pickup) -> Sweep {
        Sweep { game: GameView { buffs: self.game.buffs.push(pickup), ..self.game }, ..self }
    }

    /// Player `who` is offered the first `k` of `pickups` in turn and takes
    /// those within reach. The others make up the field.
    pub open spec fn offer(self, who: int, pickups: Seq<Pickup>, k: nat) -> Sweep
        decreases k,
    {
        if k == 0 {
            Sweep { game: GameView { buffs: Seq::empty(), ..self.game }, ..self }
        } else {
            let before = self.offer(who, pickups, (k - 1) as nat);
            let pickup = pickups[k - 1];
            if before.game.players[who].curve.reaches(pickup.position()) {
                before.take(pickup, who)
            } else {
                before.leave(pickup)
            }
        }
    }

    /// Player `who` is offered every pickup on the field.
    pub open spec fn turn(self, who: int) -> Sweep {
        self.offer(who, self.game.buffs, self.game.buffs.len())
    }

    /// The first `n` players have their turn, one after the other.
    pub open spec fn turns(self, n: nat) -> Sweep
        decreases n,
    {
        if n == 0 {
            self
        } else {
            self.turns((n - 1) as nat).turn(n - 1)
        }
    }
}

impl GameView {
    pub open spec fn with_players(self, players: Seq<PlayerView>) -> GameView {
        GameView { players, ..self }
    }

    /// The game with every trail wiped and the border to be drawn anew.
    pub open spec fn wiped(self) -> GameView {
        GameView {
            players: Seq::new(
                self.players.len(),
                |i: int| self.players[i].with_curve(self.players[i].curve.cleared()),
            ),
            border: Border {
                top_left: self.border.top_left,
                bottom_right: self.border.bottom_right,
                active: self.border.active,
                drawn: false,
            },
            ..self
        }
    }

    /// The game after every player has taken the pickups within reach, and
    /// what that adds to `display`. If one of them wipes the screen, the
    /// field is wiped when all are taken.
    pub open spec fn collected(self, display: Seq<DrawCommand>) -> (GameView, Seq<DrawCommand>) {
        let swept = (Sweep { game: self, clear: false, display }).turns(self.players.len());
        if swept.clear {
            (swept.game.wiped(), swept.display.push(wipe_command()))
        } else {
            (swept.game, swept.display)
        }
    }

    /// The game after the players that ran into a trail have dropped out.
    pub open spec fn crashed(self) -> GameView {
        self.with_players(with_losses(self.players, trail_losers(self.players, self.players.len())))
    }

    /// The game after the players that ran into the border have dropped out.
    /// A border that is switched off stops nobody.
    pub open spec fn bordered(self) -> GameView {
        if !self.border.active {
            self
        } else {
            self.with_players(
                with_losses(
                    self.players,
                    border_losers(self.players, self.border, self.players.len()),
                ),
            )
        }
    }

    /// The game once it is on the screen and what that adds to `display`:
    /// the pickups, the heads of the players who are in, and the border if
    /// the screen does not show it yet.
    pub open spec fn shown(self, display: Seq<DrawCommand>) -> (GameView, Seq<DrawCommand>) {
        let field = players_drawn(
            pickups_drawn(display, self.buffs, self.buffs.len()),
            self.players,
            self.players.len(),
        );
        (
            GameView {
                border: Border {
                    top_left: self.border.top_left,
                    bottom_right: self.border.bottom_right,
                    active: self.border.active,
                    drawn: true,
                },
                ..self
            },
            if self.border.drawn {
                field
            } else {
                field.push(self.border.outline())
            },
        )
    }

    /// The game after the curves have moved: the moves, the pickups, the
    /// crashes into trails and into the border, and the drawing.
    pub open spec fn updated(self, display: Seq<DrawCommand>, trig: Seq<Vector2D>, touches: Seq<
        Coord,
    >) -> (GameView, Seq<DrawCommand>) {
        let taken = self.moved(touches, trig).collected(display);
        taken.0.crashed().bordered().shown(taken.1)
    }

    /// One step of the game, `dt` ticks after the last.
    ///
    /// A round with at most one player in is over: nothing changes. Else the
    /// pickup clock runs on, and when the move clock has run out the curves
    /// move and the clock is wound up again.
    pub open spec fn step(
        self,
        display: Seq<DrawCommand>,
        draw: BuffDraw,
        trig: Seq<Vector2D>,
        touches: Seq<Coord>,
        dt: usize,
    ) -> (GameView, GameState, Seq<DrawCommand>) {
        if active_count(self.players) <= 1 {
            (self, GameState::Finished, display)
        } else {
            let spawned = self.spawn(draw, dt);
            if dt > spawned.tt_update {
                let after = (GameView { tt_update: UPDATE_INTERVAL, ..spawned }).updated(
                    display,
                    trig,
                    touches,
                );
                (after.0, GameState::Playing, after.1)
            } else {
                (
                    GameView { tt_update: (spawned.tt_update - dt) as usize, ..spawned },
                    GameState::Playing,
                    display,
                )
            }
        }
    }
}

// The parts of a step, carried out

impl Game {
    /// Tells every player that player `collector` has taken `pickup`.
    fn notify_players(&mut self, pickup: &Pickup, collector: usize)
        requires
            old(self).wf(),
        ensures
            final(self).wf(),
            final(self)@ == old(self)@.with_players(
                notified(old(self)@.players, *pickup, collector as int),
            ),
    {
        let mut i: usize = 0;
        proof {
            self.lemma_players_wf();
        }
        while i < self.players.len()
            invariant
                i <= self.players@.len(),
                self.players@.len() == old(self).players@.len(),
                self.buffs == old(self).buffs,
                self.border == old(self).border,
                self.tt_update == old(self).tt_update,
                self.tt_new_buff == old(self).tt_new_buff,
                forall|k: int|
                    0 <= k < i ==> (#[trigger] self.players@[k])@ == old(self).players@[k]@.with_curve(
                        pickup.player_effect(old(self).players@[k]@.curve, k == collector),
                    ),
                forall|k: int| 0 <= k < self.players@.len() ==> (#[trigger] self.players@[k]).wf(),
                forall|k: int| i <= k < self.players@.len() ==> self.players@[k] == old(self).players@[k],
            decreases self.players@.len() - i,
        {
            pickup.apply_player(&mut self.players[i].curve, i == collector);
            i += 1;
        }
        proof {
            assert(self@.players =~= notified(old(self)@.players, *pickup, collector as int));
            lemma_active_count_same(old(self)@.players, self@.players);
        }
    }

    /// Offers player `who` every pickup on the field.
    fn offer_pickups(&mut self, who: usize, clear_all: bool, display: &mut Vec<DrawCommand>) -> (clear:
        bool)
        requires
            old(self).wf(),
            who < old(self)@.players.len(),
        ensures
            final(self).wf(),
            final(self)@.players.len() == old(self)@.players.len(),
            (Sweep { game: final(self)@, clear, display: final(display)@ }) == (Sweep {
                game: old(self)@,
                clear: clear_all,
                display: old(display)@,
            }).turn(who as int),
    {
        let ghost start = Sweep { game: old(self)@, clear: clear_all, display: old(display)@ };
        let mut pickups: Vec<Pickup> = Vec::new();
        core::mem::swap(&mut pickups, &mut self.buffs);
        let mut clear: bool = clear_all;
        let mut k: usize = 0;
        proof {
            assert(self@.buffs =~= Seq::empty());
            assert(self@ == (GameView { buffs: Seq::empty(), ..start.game }));
        }
        while k < pickups.len()
            invariant
                k <= pickups@.len(),
                pickups@ == start.game.buffs,
                start.game.wf(),
                self.wf(),
                who < self@.players.len(),
                self@.players.len() == start.game.players.len(),
                (Sweep { game: self@, clear, display: display@ }) == start.offer(
                    who as int,
                    pickups@,
                    k as nat,
                ),
            decreases pickups@.len() - k,
        {
            let b = pickups[k];
            let ghost before = Sweep { game: self@, clear, display: display@ };
            proof {
                self.lemma_players_wf();
                assert(icon_fits(start.game.buffs[k as int].position()));
            }
            if self.players[who].curve.collides_with(&b) {
                self.notify_players(&b, who);
                b.apply_border(&mut self.border);
                clear = b.clear_screen() || clear;
                let aabb = b.aabb();
                display.push(
                    DrawCommand::Fill {
                        top_left: aabb.0,
                        bottom_right: aabb.1,
                        color: GameColor { value: BLACK },
                    },
                );
                proof {
                    assert(self@ == before.take(b, who as int).game);
                    lemma_active_count_same(before.game.players, self@.players);
                }
            } else {
                self.buffs.push(b);
                proof {
                    assert(self@ == before.leave(b).game);
                    assert forall|j: int| 0 <= j < self@.buffs.len() implies icon_fits(
                        (#[trigger] self@.buffs[j]).position(),
                    ) by {
                        if j < before.game.buffs.len() {
                            assert(self@.buffs[j] == before.game.buffs[j]);
                        }
                    }
                }
            }
            k += 1;
        }
        clear
    }

    /// Lets every player take the pickups within reach.
    fn player_buff_collision(&mut self, display: &mut Vec<DrawCommand>)
        requires
            old(self).wf(),
        ensures
            final(self).wf(),
            (final(self)@, final(display)@) == old(self)@.collected(old(display)@),
    {
        let ghost start = Sweep { game: old(self)@, clear: false, display: old(display)@ };
        let mut clear_all: bool = false;
        let mut who: usize = 0;
        while who < self.players.len()
            invariant
                who <= self@.players.len(),
                self@.players.len() == start.game.players.len(),
                self.wf(),
                (Sweep { game: self@, clear: clear_all, display: display@ }) == start.turns(
                    who as nat,
                ),
            decreases self@.players.len() - who,
        {
            clear_all = self.offer_pickups(who, clear_all, display);
            who += 1;
        }
        if clear_all {
            display.push(
                DrawCommand::Fill {
                    top_left: Coord::new(PAD_LEFT, PAD_TOP),
                    bottom_right: Coord::new(FIELD_END_X, FIELD_END_Y),
                    color: GameColor { value: BLACK },
                },
            );
            self.clear_traces();
            self.border.drawn = false;
        }
    }

    /// Wipes every player's trail.
    fn clear_traces(&mut self)
        requires
            old(self).wf(),
        ensures
            final(self).wf(),
            final(self)@ == old(self)@.with_players(old(self)@.wiped().players),
    {
        let mut i: usize = 0;
        proof {
            self.lemma_players_wf();
        }
        while i < self.players.len()
            invariant
                i <= self.players@.len(),
                self.players@.len() == old(self).players@.len(),
                self.buffs == old(self).buffs,
                self.border == old(self).border,
                self.tt_update == old(self).tt_update,
                self.tt_new_buff == old(self).tt_new_buff,
                forall|k: int|
                    0 <= k < i ==> (#[trigger] self.players@[k])@ == old(self).players@[k]@.with_curve(
                        old(self).players@[k]@.curve.cleared(),
                    ),
                forall|k: int| 0 <= k < self.players@.len() ==> (#[trigger] self.players@[k]).wf(),
                forall|k: int| i <= k < self.players@.len() ==> self.players@[k] == old(self).players@[k],
            decreases self.players@.len() - i,
        {
            self.players[i].clear_trace();
            i += 1;
        }
        proof {
            assert(self@.players =~= old(self)@.wiped().players);
            lemma_active_count_same(old(self)@.players, self@.players);
        }
    }

    /// Puts player `loser_i` out of the round and gives a point to everyone
    /// else who is still in.
    fn player_lost(&mut self, loser_i: usize)
        requires
            old(self).wf(),
            loser_i < old(self)@.players.len(),
        ensures
            final(self).wf(),
            final(self)@ == old(self)@.with_players(lost_to(old(self)@.players, loser_i as int)),
    {
        if !self.players[loser_i].lost {
            proof {
                self.lemma_players_wf();
            }
            self.players[loser_i].lost = true;
            let mut j: usize = 0;
            while j < self.players.len()
                invariant
                    j <= self.players@.len(),
                    loser_i < self.players@.len(),
                    old(self).wf(),
                    !old(self)@.players[loser_i as int].lost,
                    self.players@.len() == old(self).players@.len(),
                    self.buffs == old(self).buffs,
                    self.border == old(self).border,
                    self.tt_update == old(self).tt_update,
                    self.tt_new_buff == old(self).tt_new_buff,
                    forall|k: int|
                        0 <= k < j ==> (#[trigger] self.players@[k])@ == lost_to(
                            old(self)@.players,
                            loser_i as int,
                        )[k],
                    forall|k: int|
                        j <= k < self.players@.len() && k != loser_i ==> (
                        #[trigger] self.players@[k])@ == old(self).players@[k]@,
                    j <= loser_i ==> self.players@[loser_i as int]@ == old(self).players@[loser_i as int]@.out(),
                    forall|k: int|
                        0 <= k < self.players@.len() ==> (#[trigger] self.players@[k]).wf(),
                decreases self.players@.len() - j,
            {
                if loser_i != j && !self.players[j].lost {
                    proof {
                        assert(!old(self)@.players[j as int].lost);
                        if j < loser_i {
                            lemma_two_active(old(self)@.players, j as int, loser_i as int);
                        } else {
                            lemma_two_active(old(self)@.players, loser_i as int, j as int);
                        }
                        assert(old(self)@.players[j as int].score + active_count(old(self)@.players)
                            <= u32::MAX);
                    }
                    self.players[j].score += 1;
                }
                j += 1;
            }
            proof {
                assert(self@.players =~= lost_to(old(self)@.players, loser_i as int));
                lemma_active_count_out(old(self)@.players, self@.players, loser_i as int);
                assert forall|k: int| 0 <= k < self@.players.len() implies (
                #[trigger] self@.players[k]).score + active_count(self@.players) <= u32::MAX by {
                    assert(old(self)@.players[k].score + active_count(old(self)@.players)
                        <= u32::MAX);
                }
            }
        } else {
            assert(self@.players =~= lost_to(old(self)@.players, loser_i as int));
        }
    }

    /// Puts the players named in `losers` out of the round, one after the
    /// other.
    fn apply_losses(&mut self, losers: &Vec<usize>)
        requires
            old(self).wf(),
            forall|k: int| 0 <= k < losers@.len() ==> (#[trigger] losers@[k]) < old(self)@.players.len(),
        ensures
            final(self).wf(),
            final(self)@ == old(self)@.with_players(with_losses(old(self)@.players, losers@)),
    {
        let mut k: usize = 0;
        proof {
            assert(self@ == old(self)@.with_players(old(self)@.players));
        }
        while k < losers.len()
            invariant
                k <= losers@.len(),
                self.wf(),
                self@.players.len() == old(self)@.players.len(),
                forall|m: int| 0 <= m < losers@.len() ==> (#[trigger] losers@[m]) < old(self)@.players.len(),
                self@ == old(self)@.with_players(
                    with_losses(old(self)@.players, losers@.take(k as int)),
                ),
            decreases losers@.len() - k,
        {
            proof {
                lemma_take_step(losers@, k as int);
            }
            self.player_lost(losers[k]);
            k += 1;
        }
        assert(losers@.take(losers@.len() as int) =~= losers@);
    }

    /// Finds the players whose head touches a trail, their own or another
    /// player's, and puts them out of the round.
    fn player_player_collision(&mut self)
        requires
            old(self).wf(),
        ensures
            final(self).wf(),
            final(self)@ == old(self)@.crashed(),
    {
        let mut losers: Vec<usize> = Vec::new();
        let n: usize = self.players.len();
        let mut i: usize = 0;
        proof {
            self.lemma_players_wf();
        }
        while i < n
            invariant
                i <= n,
                n == self.players@.len(),
                forall|k: int| 0 <= k < n ==> (#[trigger] self.players@[k]).wf(),
                losers@ == trail_losers(self@.players, i as nat),
                forall|m: int| 0 <= m < losers@.len() ==> (#[trigger] losers@[m]) < n,
            decreases n - i,
        {
            if self.players[i].curve.collides() {
                losers.push(i);
            }
            let ghost row_start = losers@;
            let mut j: usize = i + 1;
            while j < n
                invariant
                    i < j <= n,
                    n == self.players@.len(),
                    forall|k: int| 0 <= k < n ==> (#[trigger] self.players@[k]).wf(),
                    losers@ == scan_pairs(row_start, self@.players, i as int, j as int),
                    forall|m: int| 0 <= m < losers@.len() ==> (#[trigger] losers@[m]) < n,
                decreases n - j,
            {
                if self.players[i].curve.collides_with(&self.players[j].curve) {
                    losers.push(i);
                }
                if self.players[j].curve.collides_with(&self.players[i].curve) {
                    losers.push(j);
                }
                j += 1;
            }
            i += 1;
        }
        self.apply_losses(&losers);
    }

    /// While the border is switched on: finds the players whose head touches
    /// it and puts them out of the round.
    fn player_border_collision(&mut self)
        requires
            old(self).wf(),
        ensures
            final(self).wf(),
            final(self)@ == old(self)@.bordered(),
    {
        if !self.border.active {
            return ;
        }
        let mut losers: Vec<usize> = Vec::new();
        let n: usize = self.players.len();
        let mut i: usize = 0;
        proof {
            self.lemma_players_wf();
        }
        while i < n
            invariant
                i <= n,
                n == self.players@.len(),
                forall|k: int| 0 <= k < n ==> (#[trigger] self.players@[k]).wf(),
                losers@ == border_losers(self@.players, self.border, i as nat),
                forall|m: int| 0 <= m < losers@.len() ==> (#[trigger] losers@[m]) < n,
            decreases n - i,
        {
            if self.players[i].curve.collides_with(&self.border) {
                losers.push(i);
            }
            i += 1;
        }
        self.apply_losses(&losers);
    }

    /// Draws the pickups, the players who are in, and the border.
    fn draw(&mut self, display: &mut Vec<DrawCommand>)
        requires
            old(self).wf(),
        ensures
            final(self).wf(),
            (final(self)@, final(display)@) == old(self)@.shown(old(display)@),
    {
        let mut k: usize = 0;
        while k < self.buffs.len()
            invariant
                k <= self.buffs@.len(),
                display@ == pickups_drawn(old(display)@, self.buffs@, k as nat),
            decreases self.buffs@.len() - k,
        {
            display.push(self.buffs[k].draw());
            k += 1;
        }
        let ghost sprites = display@;
        let mut i: usize = 0;
        proof {
            self.lemma_players_wf();
        }
        while i < self.players.len()
            invariant
                i <= self.players@.len(),
                forall|m: int| 0 <= m < self.players@.len() ==> (#[trigger] self.players@[m]).wf(),
                display@ == players_drawn(sprites, self@.players, i as nat),
            decreases self.players@.len() - i,
        {
            if !self.players[i].lost {
                self.players[i].draw(display);
            }
            i += 1;
        }
        self.border.draw(display);
    }

    /// The pickups on the field, oldest first.
    pub fn pickups(&self) -> (pickups: &Vec<Pickup>)
        ensures
            pickups@ == self@.buffs,
    {
        &self.buffs
    }

    /// The border.
    pub fn border(&self) -> (border: &Border)
        ensures
            *border == self@.border,
    {
        &self.border
    }

    /// Whether a step after `dt` ticks puts a new pickup on the field, and so
    /// uses its random numbers.
    pub fn pickup_due(&self, dt: usize) -> (due: bool)
        ensures
            due == (active_count(self@.players) > 1 && dt > self@.tt_new_buff),
    {
        self.active_players() > 1 && dt > self.tt_new_buff
    }

    /// The last of the players who are still in the round, if there is one.
    pub fn winner(&self) -> (winner: Option<usize>)
        ensures
            match winner {
                Some(i) => i < self@.players.len() && !self@.players[i as int].lost && forall|j: int|
                    i < j < self@.players.len() ==> (#[trigger] self@.players[j]).lost,
                None => forall|j: int| 0 <= j < self@.players.len() ==> (#[trigger] self@.players[j]).lost,
            },
    {
        let mut i: usize = self.players.len();
        while i > 0
            invariant
                i <= self.players@.len(),
                forall|j: int| i <= j < self@.players.len() ==> (#[trigger] self@.players[j]).lost,
            decreases i,
        {
            i -= 1;
            if !self.players[i].lost {
                return Some(i);
            }
        }
        None
    }

    /// Number of players who are still in the round.
    pub fn active_players(&self) -> (count: usize)
        ensures
            count == active_count(self@.players),
    {
        let mut count: usize = 0;
        let mut i: usize = 0;
        while i < self.players.len()
            invariant
                i <= self.players@.len(),
                count <= i,
                count == active_count(self@.players.take(i as int)),
            decreases self.players@.len() - i,
        {
            proof {
                lemma_take_step(self@.players, i as int);
            }
            if !self.players[i].lost {
                count += 1;
            }
            i += 1;
        }
        assert(self@.players.take(self@.players.len() as int) =~= self@.players);
        count
    }

    /// Moves the game on by `dt` ticks.
    ///
    /// Returns `Finished`, and changes nothing, once at most one player is
    /// left in the round. What the screen has to show is added to `display`.
    pub fn step(
        &mut self,
        draw: BuffDraw,
        trig: &TrigTable,
        display: &mut Vec<DrawCommand>,
        touches: &[Coord],
        dt: usize,
    ) -> (state: GameState)
        requires
            old(self).wf(),
            trig.wf(),
        ensures
            final(self).wf(),
            (final(self)@, state, final(display)@) == old(self)@.step(
                old(display)@,
                draw,
                trig.entries@,
                touches@,
                dt,
            ),
    {
        let active_player: usize = self.active_players();
        if active_player <= 1 {
            return GameState::Finished;
        }
        self.update_buffs(draw, dt);
        if dt > self.tt_update {
            self.tt_update = UPDATE_INTERVAL;
            self.act(touches, trig);
            self.player_buff_collision(display);
            self.player_player_collision();
            self.player_border_collision();
            self.draw(display);
        } else {
            self.tt_update -= dt;
        }
        GameState::Playing
    }
}

// What holds of scores, of the border and of a round that is over

/// When a player drops out, that player and those who were out already keep
/// their score, and everyone else gets exactly one point.
pub proof fn lemma_loss_gives_one_point(players: Seq<PlayerView>, loser: int, j: int)
    requires
        0 <= loser < players.len(),
        0 <= j < players.len(),
        !players[loser].lost,
        players[j].score < u32::MAX,
    ensures
        lost_to(players, loser).len() == players.len(),
        lost_to(players, loser)[loser].lost,
        lost_to(players, loser)[j].score == if j != loser && !players[j].lost {
            players[j].score + 1
        } else {
            players[j].score as int
        },
        players[j].lost ==> lost_to(players, loser)[j] == players[j],
{
}

/// A player who is out stays out with the same score, whoever drops out
/// after.
pub proof fn lemma_out_stays_out(players: Seq<PlayerView>, losers: Seq<usize>, j: int)
    requires
        0 <= j < players.len(),
        players[j].lost,
        forall|k: int| 0 <= k < losers.len() ==> (#[trigger] losers[k]) < players.len(),
    ensures
        with_losses(players, losers).len() == players.len(),
        with_losses(players, losers)[j] == players[j],
    decreases losers.len(),
{
    if losers.len() > 0 {
        lemma_out_stays_out(players, losers.drop_last(), j);
    }
}

/// No score goes down when players drop out, and no player comes back in.
pub proof fn lemma_losses_only_add(players: Seq<PlayerView>, losers: Seq<usize>, j: int)
    requires
        0 <= j < players.len(),
        forall|k: int| 0 <= k < losers.len() ==> (#[trigger] losers[k]) < players.len(),
        scores_have_room(players, losers.len()),
    ensures
        with_losses(players, losers).len() == players.len(),
        players[j].score <= with_losses(players, losers)[j].score <= players[j].score + losers.len(),
        players[j].lost ==> with_losses(players, losers)[j].lost,
    decreases losers.len(),
{
    if losers.len() > 0 {
        lemma_losses_only_add(players, losers.drop_last(), j);
    }
}

/// While the border is switched off, nobody drops out at the border,
/// wherever the heads are.
pub proof fn lemma_border_off_stops_nobody(game: GameView)
    requires
        !game.border.active,
    ensures
        game.bordered() == game,
{
}

/// A round with at most one player in is over, and a step changes nothing
/// about it: not the game, not what is to be drawn.
pub proof fn lemma_finished_is_stable(
    game: GameView,
    display: Seq<DrawCommand>,
    draw: BuffDraw,
    trig: Seq<Vector2D>,
    touches: Seq<Coord>,
    dt: usize,
)
    requires
        active_count(game.players) <= 1,
    ensures
        game.step(display, draw, trig, touches, dt) == (game, GameState::Finished, display),
{
}

/// Two line-ups of the same players with the same scores, and the same of
/// them out.
pub open spec fn same_standing(a: Seq<PlayerView>, b: Seq<PlayerView>) -> bool {
    &&& a.len() == b.len()
    &&& forall|j: int|
        0 <= j < a.len() ==> (#[trigger] a[j]).score == b[j].score && a[j].lost == b[j].lost
}

/// Every player named in `losers` is one of `count` players.
pub open spec fn names_players(losers: Seq<usize>, count: nat) -> bool {
    forall|k: int| 0 <= k < losers.len() ==> (#[trigger] losers[k]) < count
}

/// Offering pickups changes no score and puts nobody out.
pub proof fn lemma_offer_keeps_standing(sweep: Sweep, who: int, pickups: Seq<Pickup>, k: nat)
    requires
        k <= pickups.len(),
    ensures
        same_standing(sweep.game.players, sweep.offer(who, pickups, k).game.players),
    decreases k,
{
    if k > 0 {
        lemma_offer_keeps_standing(sweep, who, pickups, (k - 1) as nat);
    }
}

/// Taking pickups changes no score and puts nobody out.
pub proof fn lemma_turns_keep_standing(sweep: Sweep, n: nat)
    ensures
        same_standing(sweep.game.players, sweep.turns(n).game.players),
    decreases n,
{
    if n > 0 {
        let before = sweep.turns((n - 1) as nat);
        lemma_turns_keep_standing(sweep, (n - 1) as nat);
        lemma_offer_keeps_standing(before, n - 1, before.game.buffs, before.game.buffs.len());
    }
}

/// What a scan of pairs adds to a list of players names players.
pub proof fn lemma_scan_pairs_names_players(
    acc: Seq<usize>,
    players: Seq<PlayerView>,
    i: int,
    end: int,
)
    requires
        0 <= i < players.len(),
        end <= players.len(),
        names_players(acc, players.len()),
    ensures
        names_players(scan_pairs(acc, players, i, end), players.len()),
    decreases end - i,
{
    if end > i + 1 {
        lemma_scan_pairs_names_players(acc, players, i, end - 1);
    }
}

/// Whoever is found to have run into a trail is a player.
pub proof fn lemma_trail_losers_name_players(players: Seq<PlayerView>, rows: nat)
    requires
        rows <= players.len(),
    ensures
        names_players(trail_losers(players, rows), players.len()),
    decreases rows,
{
    if rows > 0 {
        lemma_trail_losers_name_players(players, (rows - 1) as nat);
        let before = trail_losers(players, (rows - 1) as nat);
        let first = if players[rows - 1].curve.hits_itself() {
            before.push((rows - 1) as usize)
        } else {
            before
        };
        lemma_scan_pairs_names_players(first, players, rows - 1, players.len() as int);
    }
}

/// Whoever is found to have run into the border is a player.
pub proof fn lemma_border_losers_name_players(players: Seq<PlayerView>, border: Border, upto: nat)
    requires
        upto <= players.len(),
    ensures
        names_players(border_losers(players, border, upto), players.len()),
    decreases upto,
{
    if upto > 0 {
        lemma_border_losers_name_players(players, border, (upto - 1) as nat);
    }
}

/// Once a player is out, no step of the game brings that player back in or
/// changes that player's score.
pub proof fn lemma_step_leaves_out_alone(
    game: GameView,
    display: Seq<DrawCommand>,
    draw: BuffDraw,
    trig: Seq<Vector2D>,
    touches: Seq<Coord>,
    dt: usize,
    j: int,
)
    requires
        0 <= j < game.players.len(),
        game.players[j].lost,
    ensures
        game.step(display, draw, trig, touches, dt).0.players.len() == game.players.len(),
        game.step(display, draw, trig, touches, dt).0.players[j].lost,
        game.step(display, draw, trig, touches, dt).0.players[j].score == game.players[j].score,
{
    if active_count(game.players) > 1 {
        let spawned = game.spawn(draw, dt);
        if dt > spawned.tt_update {
            let wound = GameView { tt_update: UPDATE_INTERVAL, ..spawned };
            let moved = wound.moved(touches, trig);
            let start = Sweep { game: moved, clear: false, display };
            lemma_turns_keep_standing(start, moved.players.len());
            let taken = moved.collected(display);
            assert(moved.players[j] == game.players[j]);
            assert(same_standing(moved.players, taken.0.players));
            assert(taken.0.players[j].lost);
            assert(taken.0.players[j].score == game.players[j].score);
            let n = taken.0.players.len();
            lemma_trail_losers_name_players(taken.0.players, n);
            lemma_out_stays_out(taken.0.players, trail_losers(taken.0.players, n), j);
            let crashed = taken.0.crashed();
            lemma_border_losers_name_players(crashed.players, crashed.border, n);
            lemma_out_stays_out(
                crashed.players,
                border_losers(crashed.players, crashed.border, n),
                j,
            );
        }
    }
}

} // verus!
