//! Timed effects on a curve.
//!
//! An effect changes up to four things about a curve while it lasts: how fast
//! it turns, how fast it moves, how thick it is and what colour it has. Each
//! of the four is a function of the time the effect has been running and of
//! the value it is applied to. A curve with several effects folds its own
//! value through all of them, oldest first.
//!
//! Effects come from pickups that lie on the field. Every kind of pickup is a
//! type of its own that implements [`Buff`]; [`Pickup`] is any one of them.

use crate::border::Border;
use crate::display::{DrawCommand, GameColor, Icon, BLUE, GREEN, RED, YELLOW};
use crate::fixed::{saturate, times_one_and_a_half, UNIT};
use crate::geometry::{Coord, FULL_TURN};
use crate::player::{Collide, Curve, CurveView};
use crate::sequences::lemma_take_step;
use vstd::prelude::*;

verus! {

/// Degrees a curve turns in one tick with no effect on it.
pub const BASE_TURN_RATE: u32 = 5;

/// The kinds of timed effect.
#[derive(Copy, Clone, PartialEq, Eq, Structural, Debug)]
pub enum EffectKind {
    /// Moves 1.0 faster.
    Fast,
    /// Moves at half the speed.
    Slow,
    /// Left and right change places.
    ChangeDirection,
    /// One and a half times as thick.
    Big,
    /// Half as thick.
    Small,
    /// Takes the next colour of the palette.
    Color,
    /// The turn rate swings back and forth.
    Drunken,
}

/// The colour that follows `color` in the palette red, yellow, blue, green.
/// Green, and every colour outside the palette, is followed by yellow.
pub open spec fn next_in_palette(color: GameColor) -> GameColor {
    if color.value == RED {
        GameColor { value: YELLOW }
    } else if color.value == YELLOW {
        GameColor { value: BLUE }
    } else if color.value == BLUE {
        GameColor { value: GREEN }
    } else {
        GameColor { value: YELLOW }
    }
}

impl EffectKind {
    /// Ticks that an effect of this kind lasts.
    pub open spec fn lifetime(self) -> u32 {
        match self {
            EffectKind::Fast => 1800,
            EffectKind::Slow => 1000,
            EffectKind::ChangeDirection => 500,
            EffectKind::Big => 1800,
            EffectKind::Small => 1800,
            EffectKind::Color => 3600,
            EffectKind::Drunken => 600,
        }
    }

    /// The turn rate in degrees that `rate` becomes.
    pub open spec fn rotation_after(self, elapsed: u32, rate: int) -> int {
        match self {
            EffectKind::ChangeDirection => 360 - rate,
            EffectKind::Drunken => rate + 5 - (elapsed % 10),
            _ => rate,
        }
    }

    /// The speed that `speed` becomes.
    pub open spec fn speed_after(self, elapsed: u32, speed: u64) -> u64 {
        match self {
            EffectKind::Fast => saturate(speed + UNIT),
            EffectKind::Slow => speed / 2,
            _ => speed,
        }
    }

    /// The radius that `radius` becomes.
    pub open spec fn radius_after(self, elapsed: u32, radius: u64) -> u64 {
        match self {
            EffectKind::Big => saturate(radius + radius / 2),
            EffectKind::Small => radius / 2,
            _ => radius,
        }
    }

    /// The colour that `color` becomes.
    pub open spec fn color_after(self, elapsed: u32, color: GameColor) -> GameColor {
        match self {
            EffectKind::Color => next_in_palette(color),
            _ => color,
        }
    }

    pub fn duration(self) -> (ticks: u32)
        ensures
            ticks == self.lifetime(),
    {
        match self {
            EffectKind::Fast => 1800,
            EffectKind::Slow => 1000,
            EffectKind::ChangeDirection => 500,
            EffectKind::Big => 1800,
            EffectKind::Small => 1800,
            EffectKind::Color => 3600,
            EffectKind::Drunken => 600,
        }
    }

    /// Applies the effect to a turn rate. Rates are kept within one full
    /// turn: a rate and the same rate plus 360 turn a curve alike.
    pub fn change_rotation(self, elapsed: u32, rate: u32) -> (changed: u32)
        requires
            rate < FULL_TURN,
        ensures
            changed < FULL_TURN,
            changed == self.rotation_after(elapsed, rate as int) % (FULL_TURN as int),
    {
        match self {
            EffectKind::ChangeDirection => (FULL_TURN - rate) % FULL_TURN,
            EffectKind::Drunken => (rate + FULL_TURN + 5 - elapsed % 10) % FULL_TURN,
            _ => rate,
        }
    }

    pub fn change_speed(self, elapsed: u32, speed: u64) -> (changed: u64)
        ensures
            changed == self.speed_after(elapsed, speed),
    {
        match self {
            EffectKind::Fast => speed.saturating_add(UNIT),
            EffectKind::Slow => speed / 2,
            _ => speed,
        }
    }

    pub fn change_radius(self, elapsed: u32, radius: u64) -> (changed: u64)
        ensures
            changed == self.radius_after(elapsed, radius),
    {
        match self {
            EffectKind::Big => times_one_and_a_half(radius),
            EffectKind::Small => radius / 2,
            _ => radius,
        }
    }

    pub fn change_color(self, elapsed: u32, color: GameColor) -> (changed: GameColor)
        ensures
            changed == self.color_after(elapsed, color),
    {
        match self {
            EffectKind::Color => {
                if color.value == RED {
                    GameColor { value: YELLOW }
                } else if color.value == YELLOW {
                    GameColor { value: BLUE }
                } else if color.value == BLUE {
                    GameColor { value: GREEN }
                } else {
                    GameColor { value: YELLOW }
                }
            },
            _ => color,
        }
    }
}

/// An effect at work on a curve: what it does, how long it has been running
/// and how many ticks it still has.
#[derive(Copy, Clone, PartialEq, Eq, Structural, Debug)]
pub struct PlayerBuff {
    pub timeout: u32,
    pub elapsed: u32,
    pub effect: EffectKind,
}

impl PlayerBuff {
    /// The clock can run for as long as the effect lasts.
    pub open spec fn wf(self) -> bool {
        self.elapsed + self.timeout <= u32::MAX
    }

    /// The effect one tick later.
    pub open spec fn aged(self) -> PlayerBuff {
        PlayerBuff {
            timeout: (self.timeout - 1) as u32,
            elapsed: (self.elapsed + 1) as u32,
            effect: self.effect,
        }
    }

    /// An effect that starts now and lasts `timeout` ticks.
    pub fn new(effect: EffectKind, timeout: u32) -> (buff: PlayerBuff)
        ensures
            buff == (PlayerBuff { timeout, elapsed: 0, effect }),
            buff.wf(),
    {
        PlayerBuff { timeout, elapsed: 0, effect }
    }
}

// Several effects at once

/// Every effect in the list can keep its clock.
pub open spec fn buffs_wf(buffs: Seq<PlayerBuff>) -> bool {
    forall|i: int| 0 <= i < buffs.len() ==> (#[trigger] buffs[i]).wf()
}

/// `base` after every effect of `buffs` has changed it in turn, the oldest
/// (first) effect first.
pub open spec fn effective_rotation(buffs: Seq<PlayerBuff>, base: int) -> int
    decreases buffs.len(),
{
    if buffs.len() == 0 {
        base
    } else {
        buffs.last().effect.rotation_after(
            buffs.last().elapsed,
            effective_rotation(buffs.drop_last(), base),
        )
    }
}

pub open spec fn effective_speed(buffs: Seq<PlayerBuff>, base: u64) -> u64
    decreases buffs.len(),
{
    if buffs.len() == 0 {
        base
    } else {
        buffs.last().effect.speed_after(
            buffs.last().elapsed,
            effective_speed(buffs.drop_last(), base),
        )
    }
}

pub open spec fn effective_radius(buffs: Seq<PlayerBuff>, base: u64) -> u64
    decreases buffs.len(),
{
    if buffs.len() == 0 {
        base
    } else {
        buffs.last().effect.radius_after(
            buffs.last().elapsed,
            effective_radius(buffs.drop_last(), base),
        )
    }
}

pub open spec fn effective_color(buffs: Seq<PlayerBuff>, base: GameColor) -> GameColor
    decreases buffs.len(),
{
    if buffs.len() == 0 {
        base
    } else {
        buffs.last().effect.color_after(
            buffs.last().elapsed,
            effective_color(buffs.drop_last(), base),
        )
    }
}

/// The effects one tick later: those that had run out are gone, the others
/// are one tick older, in the order they had.
pub open spec fn tick_buffs(buffs: Seq<PlayerBuff>) -> Seq<PlayerBuff>
    decreases buffs.len(),
{
    if buffs.len() == 0 {
        Seq::empty()
    } else if buffs.last().timeout == 0 {
        tick_buffs(buffs.drop_last())
    } else {
        tick_buffs(buffs.drop_last()).push(buffs.last().aged())
    }
}

/// The effects after `ticks` ticks.
pub open spec fn tick_buffs_n(buffs: Seq<PlayerBuff>, ticks: nat) -> Seq<PlayerBuff>
    decreases ticks,
{
    if ticks == 0 {
        buffs
    } else {
        tick_buffs(tick_buffs_n(buffs, (ticks - 1) as nat))
    }
}

/// Folds a turn rate through `buffs`. The result is the folded rate brought
/// into one full turn.
pub fn fold_rotation(buffs: &Vec<PlayerBuff>, base: u32) -> (rate: u32)
    requires
        base < FULL_TURN,
    ensures
        rate < FULL_TURN,
        rate == effective_rotation(buffs@, base as int) % (FULL_TURN as int),
{
    let mut rate: u32 = base;
    let mut i: usize = 0;
    while i < buffs.len()
        invariant
            i <= buffs.len(),
            rate < FULL_TURN,
            rate == effective_rotation(buffs@.take(i as int), base as int) % (FULL_TURN as int),
        decreases buffs.len() - i,
    {
        proof {
            lemma_take_step(buffs@, i as int);
        }
        rate = buffs[i].effect.change_rotation(buffs[i].elapsed, rate);
        i += 1;
    }
    assert(buffs@.take(buffs.len() as int) =~= buffs@);
    rate
}

pub fn fold_speed(buffs: &Vec<PlayerBuff>, base: u64) -> (speed: u64)
    ensures
        speed == effective_speed(buffs@, base),
{
    let mut speed: u64 = base;
    let mut i: usize = 0;
    while i < buffs.len()
        invariant
            i <= buffs.len(),
            speed == effective_speed(buffs@.take(i as int), base),
        decreases buffs.len() - i,
    {
        proof {
            lemma_take_step(buffs@, i as int);
        }
        speed = buffs[i].effect.change_speed(buffs[i].elapsed, speed);
        i += 1;
    }
    assert(buffs@.take(buffs.len() as int) =~= buffs@);
    speed
}

pub fn fold_radius(buffs: &Vec<PlayerBuff>, base: u64) -> (radius: u64)
    ensures
        radius == effective_radius(buffs@, base),
{
    let mut radius: u64 = base;
    let mut i: usize = 0;
    while i < buffs.len()
        invariant
            i <= buffs.len(),
            radius == effective_radius(buffs@.take(i as int), base),
        decreases buffs.len() - i,
    {
        proof {
            lemma_take_step(buffs@, i as int);
        }
        radius = buffs[i].effect.change_radius(buffs[i].elapsed, radius);
        i += 1;
    }
    assert(buffs@.take(buffs.len() as int) =~= buffs@);
    radius
}

pub fn fold_color(buffs: &Vec<PlayerBuff>, base: GameColor) -> (color: GameColor)
    ensures
        color == effective_color(buffs@, base),
{
    let mut color: GameColor = base;
    let mut i: usize = 0;
    while i < buffs.len()
        invariant
            i <= buffs.len(),
            color == effective_color(buffs@.take(i as int), base),
        decreases buffs.len() - i,
    {
        proof {
            lemma_take_step(buffs@, i as int);
        }
        color = buffs[i].effect.change_color(buffs[i].elapsed, color);
        i += 1;
    }
    assert(buffs@.take(buffs.len() as int) =~= buffs@);
    color
}

/// Lets one tick pass: drops the effects that have run out and ages the
/// others.
pub fn age_buffs(buffs: &Vec<PlayerBuff>) -> (aged: Vec<PlayerBuff>)
    requires
        buffs_wf(buffs@),
    ensures
        aged@ == tick_buffs(buffs@),
        buffs_wf(aged@),
{
    let mut aged: Vec<PlayerBuff> = Vec::new();
    let mut i: usize = 0;
    while i < buffs.len()
        invariant
            i <= buffs.len(),
            buffs_wf(buffs@),
            aged@ == tick_buffs(buffs@.take(i as int)),
            buffs_wf(aged@),
        decreases buffs.len() - i,
    {
        proof {
            lemma_take_step(buffs@, i as int);
        }
        let b = buffs[i];
        if b.timeout != 0 {
            aged.push(PlayerBuff { timeout: b.timeout - 1, elapsed: b.elapsed + 1, effect: b.effect });
        }
        i += 1;
    }
    assert(buffs@.take(buffs.len() as int) =~= buffs@);
    aged
}

// What holds of effects

impl EffectKind {
    /// The effect leaves speeds as they are.
    pub open spec fn keeps_speed(self) -> bool {
        self != EffectKind::Fast && self != EffectKind::Slow
    }

    /// The effect leaves radii as they are.
    pub open spec fn keeps_radius(self) -> bool {
        self != EffectKind::Big && self != EffectKind::Small
    }
}

/// Effects compose in the order they were added: a value folded through a
/// list with one more effect at its end is the value folded through the list
/// and then changed by that effect.
pub proof fn lemma_youngest_applies_last(buffs: Seq<PlayerBuff>, buff: PlayerBuff, rate: int, speed: u64, radius: u64, color: GameColor)
    ensures
        effective_rotation(buffs.push(buff), rate) == buff.effect.rotation_after(
            buff.elapsed,
            effective_rotation(buffs, rate),
        ),
        effective_speed(buffs.push(buff), speed) == buff.effect.speed_after(
            buff.elapsed,
            effective_speed(buffs, speed),
        ),
        effective_radius(buffs.push(buff), radius) == buff.effect.radius_after(
            buff.elapsed,
            effective_radius(buffs, radius),
        ),
        effective_color(buffs.push(buff), color) == buff.effect.color_after(
            buff.elapsed,
            effective_color(buffs, color),
        ),
{
    assert(buffs.push(buff).drop_last() =~= buffs);
}

/// An effect that leaves speeds as they are can stand anywhere in the list,
/// or be missing, without a change to the speed that comes out.
pub proof fn lemma_speed_ignores_unrelated(buffs: Seq<PlayerBuff>, i: int, base: u64)
    requires
        0 <= i < buffs.len(),
        buffs[i].effect.keeps_speed(),
    ensures
        effective_speed(buffs, base) == effective_speed(buffs.remove(i), base),
    decreases buffs.len(),
{
    if i == buffs.len() - 1 {
        assert(buffs.remove(i) =~= buffs.drop_last());
    } else {
        lemma_speed_ignores_unrelated(buffs.drop_last(), i, base);
        assert(buffs.remove(i).drop_last() =~= buffs.drop_last().remove(i));
        assert(buffs.remove(i).last() == buffs.last());
    }
}

/// An effect that leaves radii as they are can stand anywhere in the list,
/// or be missing, without a change to the radius that comes out.
pub proof fn lemma_radius_ignores_unrelated(buffs: Seq<PlayerBuff>, i: int, base: u64)
    requires
        0 <= i < buffs.len(),
        buffs[i].effect.keeps_radius(),
    ensures
        effective_radius(buffs, base) == effective_radius(buffs.remove(i), base),
    decreases buffs.len(),
{
    if i == buffs.len() - 1 {
        assert(buffs.remove(i) =~= buffs.drop_last());
    } else {
        lemma_radius_ignores_unrelated(buffs.drop_last(), i, base);
        assert(buffs.remove(i).drop_last() =~= buffs.drop_last().remove(i));
        assert(buffs.remove(i).last() == buffs.last());
    }
}

/// A curve that takes a speed-up and then a thickener moves at its own speed
/// plus 1.0 and is one and a half times as thick as it was.
pub proof fn lemma_fast_then_big(speed: u64, radius: u64, fast: PlayerBuff, big: PlayerBuff)
    requires
        fast.effect == EffectKind::Fast,
        big.effect == EffectKind::Big,
    ensures
        effective_speed(seq![fast, big], speed) == saturate(speed + UNIT),
        effective_radius(seq![fast, big], radius) == saturate(radius + radius / 2),
{
    let none = Seq::<PlayerBuff>::empty();
    let color = GameColor { value: 0 };
    assert(none.push(fast) =~= seq![fast]);
    assert(seq![fast].push(big) =~= seq![fast, big]);
    lemma_youngest_applies_last(none, fast, 0, speed, radius, color);
    lemma_youngest_applies_last(seq![fast], big, 0, speed, radius, color);
}

/// The effect after `ticks` ticks of a clock that does not run out.
pub open spec fn aged_by(buff: PlayerBuff, ticks: nat) -> PlayerBuff {
    PlayerBuff {
        timeout: (buff.timeout - ticks) as u32,
        elapsed: (buff.elapsed + ticks) as u32,
        effect: buff.effect,
    }
}

/// What a tick does to a list of effects it does to each part of the list.
pub proof fn lemma_tick_distributes(a: Seq<PlayerBuff>, b: Seq<PlayerBuff>)
    ensures
        tick_buffs(a + b) == tick_buffs(a) + tick_buffs(b),
    decreases b.len(),
{
    if b.len() == 0 {
        assert(a + b =~= a);
        assert(tick_buffs(a) + tick_buffs(b) =~= tick_buffs(a));
    } else {
        lemma_tick_distributes(a, b.drop_last());
        assert((a + b).drop_last() =~= a + b.drop_last());
        assert((a + b).last() == b.last());
        if b.last().timeout == 0 {
        } else {
            assert(tick_buffs(a) + tick_buffs(b.drop_last()).push(b.last().aged()) =~= (tick_buffs(a)
                + tick_buffs(b.drop_last())).push(b.last().aged()));
        }
    }
}

/// What several ticks do to a list of effects they do to each part of it.
pub proof fn lemma_ticks_distribute(a: Seq<PlayerBuff>, b: Seq<PlayerBuff>, ticks: nat)
    ensures
        tick_buffs_n(a + b, ticks) == tick_buffs_n(a, ticks) + tick_buffs_n(b, ticks),
    decreases ticks,
{
    if ticks > 0 {
        lemma_ticks_distribute(a, b, (ticks - 1) as nat);
        lemma_tick_distributes(tick_buffs_n(a, (ticks - 1) as nat), tick_buffs_n(b, (ticks - 1) as nat));
    }
}

/// Effects that can keep their clocks still can a tick later.
pub proof fn lemma_tick_keeps_wf(buffs: Seq<PlayerBuff>)
    requires
        buffs_wf(buffs),
    ensures
        buffs_wf(tick_buffs(buffs)),
    decreases buffs.len(),
{
    if buffs.len() > 0 {
        lemma_tick_keeps_wf(buffs.drop_last());
        assert(buffs.last().wf());
    }
}

/// Where no effect is at work, none is after any number of ticks.
pub proof fn lemma_none_stays_none(ticks: nat)
    ensures
        tick_buffs_n(Seq::<PlayerBuff>::empty(), ticks) == Seq::<PlayerBuff>::empty(),
    decreases ticks,
{
    if ticks > 0 {
        lemma_none_stays_none((ticks - 1) as nat);
    }
}

/// An effect with `n` ticks on its clock is at work through the next `n`
/// ticks, one tick older after each, and is gone after tick `n + 1` and from
/// then on.
pub proof fn lemma_effect_lifetime(buff: PlayerBuff, ticks: nat)
    requires
        buff.wf(),
    ensures
        ticks <= buff.timeout ==> tick_buffs_n(seq![buff], ticks) == seq![aged_by(buff, ticks)],
        ticks > buff.timeout ==> tick_buffs_n(seq![buff], ticks) == Seq::<PlayerBuff>::empty(),
    decreases ticks,
{
    if ticks == 0 {
        assert(aged_by(buff, 0) == buff);
    } else {
        let before = (ticks - 1) as nat;
        lemma_effect_lifetime(buff, before);
        if before <= buff.timeout {
            let then = aged_by(buff, before);
            let list = seq![then];
            assert(list.drop_last() =~= Seq::<PlayerBuff>::empty());
            assert(list.last() == then);
            assert(tick_buffs(Seq::<PlayerBuff>::empty()) =~= Seq::<PlayerBuff>::empty());
            if then.timeout == 0 {
                assert(tick_buffs(list) =~= Seq::<PlayerBuff>::empty());
            } else {
                assert(then.aged() == aged_by(buff, ticks));
                assert(tick_buffs(list) =~= seq![aged_by(buff, ticks)]);
            }
        } else {
            assert(tick_buffs(Seq::<PlayerBuff>::empty()) =~= Seq::<PlayerBuff>::empty());
        }
    }
}

// Pickups

/// Width and height of a pickup's bitmap in pixels.
pub const ICON_SIZE: i32 = 10;

/// `curve` with a fresh effect of kind `effect` if `applies`, else unchanged.
pub open spec fn with_timed_effect(curve: CurveView, applies: bool, effect: EffectKind) -> CurveView {
    if applies {
        curve.with_buff(PlayerBuff { timeout: effect.lifetime(), elapsed: 0, effect })
    } else {
        curve
    }
}

/// The border switched over, to be drawn anew.
pub open spec fn toggled(border: Border) -> Border {
    Border {
        top_left: border.top_left,
        bottom_right: border.bottom_right,
        active: !border.active,
        drawn: false,
    }
}

/// The corner opposite `pos` of a bitmap that has its top left corner there.
pub open spec fn icon_corner(pos: Coord) -> Coord {
    Coord { x: (pos.x + ICON_SIZE) as i32, y: (pos.y + ICON_SIZE) as i32 }
}

/// The bitmap at `pos` ends on a pixel that can be named.
pub open spec fn icon_fits(pos: Coord) -> bool {
    pos.x + ICON_SIZE <= i32::MAX && pos.y + ICON_SIZE <= i32::MAX
}

/// Starts an effect of kind `effect` on `player` if `applies`.
fn install(player: &mut Curve, applies: bool, effect: EffectKind)
    requires
        old(player).wf(),
    ensures
        final(player).wf(),
        final(player)@ == with_timed_effect(old(player)@, applies, effect),
{
    if applies {
        player.add_buff(PlayerBuff::new(effect, effect.duration()));
    }
}

/// The box that a bitmap at `pos` covers.
fn icon_box(pos: Coord) -> (corners: (Coord, Coord))
    requires
        icon_fits(pos),
    ensures
        corners == (pos, icon_corner(pos)),
{
    let low_right = Coord::new(pos.x + ICON_SIZE, pos.y + ICON_SIZE);
    (pos, low_right)
}

/// A pickup: something that lies on the field until a curve takes it.
///
/// Taking it may change curves, the border or the whole screen; what it does
/// to a curve may depend on whether that curve is the one that took it.
pub trait Buff {
    /// Top left corner of the pickup's bitmap.
    spec fn position(&self) -> Coord;

    /// The bitmap it is drawn with.
    spec fn icon(&self) -> Icon;

    /// What becomes of a curve when the pickup is taken. `collector` says
    /// whether this curve took it.
    spec fn player_effect(&self, curve: CurveView, collector: bool) -> CurveView;

    /// What becomes of the border when the pickup is taken.
    spec fn border_effect(&self, border: Border) -> Border;

    /// Taking the pickup wipes the screen.
    spec fn clears_screen(&self) -> bool;

    fn apply_player(&self, player: &mut Curve, collector: bool)
        requires
            old(player).wf(),
        ensures
            final(player).wf(),
            final(player)@ == self.player_effect(old(player)@, collector),
    ;

    fn apply_border(&self, border: &mut Border)
        ensures
            *final(border) == self.border_effect(*old(border)),
    ;

    fn clear_screen(&self) -> (clear: bool)
        ensures
            clear == self.clears_screen(),
    ;

    fn draw(&self) -> (command: DrawCommand)
        ensures
            command == (DrawCommand::Sprite { icon: self.icon(), pos: self.position() }),
    ;

    /// The corners of the box that the bitmap covers.
    fn aabb(&self) -> (corners: (Coord, Coord))
        requires
            icon_fits(self.position()),
        ensures
            corners == (self.position(), icon_corner(self.position())),
    ;

    fn get_pos(&self) -> (pos: Coord)
        ensures
            pos == self.position(),
    ;
}

/// Makes the curve that takes it faster.
#[derive(Copy, Clone)]
pub struct FastPlayerBuffSprite {
    pos: Coord,
}

impl FastPlayerBuffSprite {
    /// The pickup with its bitmap's top left corner at `pos`.
    pub closed spec fn at(pos: Coord) -> FastPlayerBuffSprite {
        FastPlayerBuffSprite { pos }
    }

    pub fn new(pos: Coord) -> (sprite: FastPlayerBuffSprite)
        ensures
            sprite == FastPlayerBuffSprite::at(pos),
            sprite.position() == pos,
    {
        FastPlayerBuffSprite { pos }
    }
}

impl Buff for FastPlayerBuffSprite {
    closed spec fn position(&self) -> Coord {
        self.pos
    }

    open spec fn icon(&self) -> Icon {
        Icon::Fast
    }

    open spec fn player_effect(&self, curve: CurveView, collector: bool) -> CurveView {
        with_timed_effect(curve, collector, EffectKind::Fast)
    }

    open spec fn border_effect(&self, border: Border) -> Border {
        border
    }

    open spec fn clears_screen(&self) -> bool {
        false
    }

    fn apply_player(&self, player: &mut Curve, collector: bool) {
        install(player, collector, EffectKind::Fast);
    }

    fn apply_border(&self, _border: &mut Border) {
    }

    fn clear_screen(&self) -> (clear: bool) {
        false
    }

    fn draw(&self) -> (command: DrawCommand) {
        DrawCommand::Sprite { icon: Icon::Fast, pos: self.pos }
    }

    fn aabb(&self) -> (corners: (Coord, Coord)) {
        icon_box(self.pos)
    }

    fn get_pos(&self) -> (pos: Coord) {
        self.pos
    }
}

/// Wipes all trails off the field.
#[derive(Copy, Clone)]
pub struct ClearBuffSprite {
    pos: Coord,
}

impl ClearBuffSprite {
    /// The pickup with its bitmap's top left corner at `pos`.
    pub closed spec fn at(pos: Coord) -> ClearBuffSprite {
        ClearBuffSprite { pos }
    }

    pub fn new(pos: Coord) -> (sprite: ClearBuffSprite)
        ensures
            sprite == ClearBuffSprite::at(pos),
            sprite.position() == pos,
    {
        ClearBuffSprite { pos }
    }
}

impl Buff for ClearBuffSprite {
    closed spec fn position(&self) -> Coord {
        self.pos
    }

    open spec fn icon(&self) -> Icon {
        Icon::Clear
    }

    open spec fn player_effect(&self, curve: CurveView, collector: bool) -> CurveView {
        curve.cleared()
    }

    open spec fn border_effect(&self, border: Border) -> Border {
        border
    }

    open spec fn clears_screen(&self) -> bool {
        true
    }

    fn apply_player(&self, player: &mut Curve, _collector: bool) {
        player.clear_trace();
    }

    fn apply_border(&self, _border: &mut Border) {
    }

    fn clear_screen(&self) -> (clear: bool) {
        true
    }

    fn draw(&self) -> (command: DrawCommand) {
        DrawCommand::Sprite { icon: Icon::Clear, pos: self.pos }
    }

    fn aabb(&self) -> (corners: (Coord, Coord)) {
        icon_box(self.pos)
    }

    fn get_pos(&self) -> (pos: Coord) {
        self.pos
    }
}

/// Swaps left and right for every curve but the one that takes it.
#[derive(Copy, Clone)]
pub struct ChangeDirBuffSprite {
    pos: Coord,
}

impl ChangeDirBuffSprite {
    /// The pickup with its bitmap's top left corner at `pos`.
    pub closed spec fn at(pos: Coord) -> ChangeDirBuffSprite {
        ChangeDirBuffSprite { pos }
    }

    pub fn new(pos: Coord) -> (sprite: ChangeDirBuffSprite)
        ensures
            sprite == ChangeDirBuffSprite::at(pos),
            sprite.position() == pos,
    {
        ChangeDirBuffSprite { pos }
    }
}

impl Buff for ChangeDirBuffSprite {
    closed spec fn position(&self) -> Coord {
        self.pos
    }

    open spec fn icon(&self) -> Icon {
        Icon::ChangeDirection
    }

    open spec fn player_effect(&self, curve: CurveView, collector: bool) -> CurveView {
        with_timed_effect(curve, !collector, EffectKind::ChangeDirection)
    }

    open spec fn border_effect(&self, border: Border) -> Border {
        border
    }

    open spec fn clears_screen(&self) -> bool {
        false
    }

    fn apply_player(&self, player: &mut Curve, collector: bool) {
        install(player, !collector, EffectKind::ChangeDirection);
    }

    fn apply_border(&self, _border: &mut Border) {
    }

    fn clear_screen(&self) -> (clear: bool) {
        false
    }

    fn draw(&self) -> (command: DrawCommand) {
        DrawCommand::Sprite { icon: Icon::ChangeDirection, pos: self.pos }
    }

    fn aabb(&self) -> (corners: (Coord, Coord)) {
        icon_box(self.pos)
    }

    fn get_pos(&self) -> (pos: Coord) {
        self.pos
    }
}

/// Makes the curve that takes it slower.
#[derive(Copy, Clone)]
pub struct SlowBuffSprite {
    pos: Coord,
}

impl SlowBuffSprite {
    /// The pickup with its bitmap's top left corner at `pos`.
    pub closed spec fn at(pos: Coord) -> SlowBuffSprite {
        SlowBuffSprite { pos }
    }

    pub fn new(pos: Coord) -> (sprite: SlowBuffSprite)
        ensures
            sprite == SlowBuffSprite::at(pos),
            sprite.position() == pos,
    {
        SlowBuffSprite { pos }
    }
}

impl Buff for SlowBuffSprite {
    closed spec fn position(&self) -> Coord {
        self.pos
    }

    open spec fn icon(&self) -> Icon {
        Icon::Slow
    }

    open spec fn player_effect(&self, curve: CurveView, collector: bool) -> CurveView {
        with_timed_effect(curve, collector, EffectKind::Slow)
    }

    open spec fn border_effect(&self, border: Border) -> Border {
        border
    }

    open spec fn clears_screen(&self) -> bool {
        false
    }

    fn apply_player(&self, player: &mut Curve, collector: bool) {
        install(player, collector, EffectKind::Slow);
    }

    fn apply_border(&self, _border: &mut Border) {
    }

    fn clear_screen(&self) -> (clear: bool) {
        false
    }

    fn draw(&self) -> (command: DrawCommand) {
        DrawCommand::Sprite { icon: Icon::Slow, pos: self.pos }
    }

    fn aabb(&self) -> (corners: (Coord, Coord)) {
        icon_box(self.pos)
    }

    fn get_pos(&self) -> (pos: Coord) {
        self.pos
    }
}

/// Makes the curve that takes it thicker.
#[derive(Copy, Clone)]
pub struct BigBuffSprite {
    pos: Coord,
}

impl BigBuffSprite {
    /// The pickup with its bitmap's top left corner at `pos`.
    pub closed spec fn at(pos: Coord) -> BigBuffSprite {
        BigBuffSprite { pos }
    }

    pub fn new(pos: Coord) -> (sprite: BigBuffSprite)
        ensures
            sprite == BigBuffSprite::at(pos),
            sprite.position() == pos,
    {
        BigBuffSprite { pos }
    }
}

impl Buff for BigBuffSprite {
    closed spec fn position(&self) -> Coord {
        self.pos
    }

    open spec fn icon(&self) -> Icon {
        Icon::Big
    }

    open spec fn player_effect(&self, curve: CurveView, collector: bool) -> CurveView {
        with_timed_effect(curve, collector, EffectKind::Big)
    }

    open spec fn border_effect(&self, border: Border) -> Border {
        border
    }

    open spec fn clears_screen(&self) -> bool {
        false
    }

    fn apply_player(&self, player: &mut Curve, collector: bool) {
        install(player, collector, EffectKind::Big);
    }

    fn apply_border(&self, _border: &mut Border) {
    }

    fn clear_screen(&self) -> (clear: bool) {
        false
    }

    fn draw(&self) -> (command: DrawCommand) {
        DrawCommand::Sprite { icon: Icon::Big, pos: self.pos }
    }

    fn aabb(&self) -> (corners: (Coord, Coord)) {
        icon_box(self.pos)
    }

    fn get_pos(&self) -> (pos: Coord) {
        self.pos
    }
}

/// Makes the curve that takes it thinner.
#[derive(Copy, Clone)]
pub struct SmallBuffSprite {
    pos: Coord,
}

impl SmallBuffSprite {
    /// The pickup with its bitmap's top left corner at `pos`.
    pub closed spec fn at(pos: Coord) -> SmallBuffSprite {
        SmallBuffSprite { pos }
    }

    pub fn new(pos: Coord) -> (sprite: SmallBuffSprite)
        ensures
            sprite == SmallBuffSprite::at(pos),
            sprite.position() == pos,
    {
        SmallBuffSprite { pos }
    }
}

impl Buff for SmallBuffSprite {
    closed spec fn position(&self) -> Coord {
        self.pos
    }

    open spec fn icon(&self) -> Icon {
        Icon::Small
    }

    open spec fn player_effect(&self, curve: CurveView, collector: bool) -> CurveView {
        with_timed_effect(curve, collector, EffectKind::Small)
    }

    open spec fn border_effect(&self, border: Border) -> Border {
        border
    }

    open spec fn clears_screen(&self) -> bool {
        false
    }

    fn apply_player(&self, player: &mut Curve, collector: bool) {
        install(player, collector, EffectKind::Small);
    }

    fn apply_border(&self, _border: &mut Border) {
    }

    fn clear_screen(&self) -> (clear: bool) {
        false
    }

    fn draw(&self) -> (command: DrawCommand) {
        DrawCommand::Sprite { icon: Icon::Small, pos: self.pos }
    }

    fn aabb(&self) -> (corners: (Coord, Coord)) {
        icon_box(self.pos)
    }

    fn get_pos(&self) -> (pos: Coord) {
        self.pos
    }
}

/// Gives the curve that takes it the next colour of the palette.
#[derive(Copy, Clone)]
pub struct ColorBuffSprite {
    pos: Coord,
}

impl ColorBuffSprite {
    /// The pickup with its bitmap's top left corner at `pos`.
    pub closed spec fn at(pos: Coord) -> ColorBuffSprite {
        ColorBuffSprite { pos }
    }

    pub fn new(pos: Coord) -> (sprite: ColorBuffSprite)
        ensures
            sprite == ColorBuffSprite::at(pos),
            sprite.position() == pos,
    {
        ColorBuffSprite { pos }
    }
}

impl Buff for ColorBuffSprite {
    closed spec fn position(&self) -> Coord {
        self.pos
    }

    open spec fn icon(&self) -> Icon {
        Icon::Color
    }

    open spec fn player_effect(&self, curve: CurveView, collector: bool) -> CurveView {
        with_timed_effect(curve, collector, EffectKind::Color)
    }

    open spec fn border_effect(&self, border: Border) -> Border {
        border
    }

    open spec fn clears_screen(&self) -> bool {
        false
    }

    fn apply_player(&self, player: &mut Curve, collector: bool) {
        install(player, collector, EffectKind::Color);
    }

    fn apply_border(&self, _border: &mut Border) {
    }

    fn clear_screen(&self) -> (clear: bool) {
        false
    }

    fn draw(&self) -> (command: DrawCommand) {
        DrawCommand::Sprite { icon: Icon::Color, pos: self.pos }
    }

    fn aabb(&self) -> (corners: (Coord, Coord)) {
        icon_box(self.pos)
    }

    fn get_pos(&self) -> (pos: Coord) {
        self.pos
    }
}

/// Switches the border on or off.
#[derive(Copy, Clone)]
pub struct BorderBuffSprite {
    pos: Coord,
}

impl BorderBuffSprite {
    /// The pickup with its bitmap's top left corner at `pos`.
    pub closed spec fn at(pos: Coord) -> BorderBuffSprite {
        BorderBuffSprite { pos }
    }

    pub fn new(pos: Coord) -> (sprite: BorderBuffSprite)
        ensures
            sprite == BorderBuffSprite::at(pos),
            sprite.position() == pos,
    {
        BorderBuffSprite { pos }
    }
}

impl Buff for BorderBuffSprite {
    closed spec fn position(&self) -> Coord {
        self.pos
    }

    open spec fn icon(&self) -> Icon {
        Icon::Border
    }

    open spec fn player_effect(&self, curve: CurveView, collector: bool) -> CurveView {
        curve
    }

    open spec fn border_effect(&self, border: Border) -> Border {
        toggled(border)
    }

    open spec fn clears_screen(&self) -> bool {
        false
    }

    fn apply_player(&self, player: &mut Curve, _collector: bool) {
    }

    fn apply_border(&self, border: &mut Border) {
        border.active = !border.active;
        border.drawn = false;
    }

    fn clear_screen(&self) -> (clear: bool) {
        false
    }

    fn draw(&self) -> (command: DrawCommand) {
        DrawCommand::Sprite { icon: Icon::Border, pos: self.pos }
    }

    fn aabb(&self) -> (corners: (Coord, Coord)) {
        icon_box(self.pos)
    }

    fn get_pos(&self) -> (pos: Coord) {
        self.pos
    }
}

/// Makes every curve but the one that takes it sway. It is drawn with the
/// border's bitmap.
#[derive(Copy, Clone)]
pub struct DrunkenBuffSprite {
    pos: Coord,
}

impl DrunkenBuffSprite {
    /// The pickup with its bitmap's top left corner at `pos`.
    pub closed spec fn at(pos: Coord) -> DrunkenBuffSprite {
        DrunkenBuffSprite { pos }
    }

    pub fn new(pos: Coord) -> (sprite: DrunkenBuffSprite)
        ensures
            sprite == DrunkenBuffSprite::at(pos),
            sprite.position() == pos,
    {
        DrunkenBuffSprite { pos }
    }
}

impl Buff for DrunkenBuffSprite {
    closed spec fn position(&self) -> Coord {
        self.pos
    }

    open spec fn icon(&self) -> Icon {
        Icon::Border
    }

    open spec fn player_effect(&self, curve: CurveView, collector: bool) -> CurveView {
        with_timed_effect(curve, !collector, EffectKind::Drunken)
    }

    open spec fn border_effect(&self, border: Border) -> Border {
        border
    }

    open spec fn clears_screen(&self) -> bool {
        false
    }

    fn apply_player(&self, player: &mut Curve, collector: bool) {
        install(player, !collector, EffectKind::Drunken);
    }

    fn apply_border(&self, _border: &mut Border) {
    }

    fn clear_screen(&self) -> (clear: bool) {
        false
    }

    fn draw(&self) -> (command: DrawCommand) {
        DrawCommand::Sprite { icon: Icon::Border, pos: self.pos }
    }

    fn aabb(&self) -> (corners: (Coord, Coord)) {
        icon_box(self.pos)
    }

    fn get_pos(&self) -> (pos: Coord) {
        self.pos
    }
}

/// Any one pickup.
#[derive(Copy, Clone)]
pub enum Pickup {
    Fast(FastPlayerBuffSprite),
    Clear(ClearBuffSprite),
    ChangeDir(ChangeDirBuffSprite),
    Slow(SlowBuffSprite),
    Color(ColorBuffSprite),
    Big(BigBuffSprite),
    Small(SmallBuffSprite),
    Border(BorderBuffSprite),
    Drunken(DrunkenBuffSprite),
}

impl Buff for Pickup {
    open spec fn position(&self) -> Coord {
        match self {
            Pickup::Fast(b) => b.position(),
            Pickup::Clear(b) => b.position(),
            Pickup::ChangeDir(b) => b.position(),
            Pickup::Slow(b) => b.position(),
            Pickup::Color(b) => b.position(),
            Pickup::Big(b) => b.position(),
            Pickup::Small(b) => b.position(),
            Pickup::Border(b) => b.position(),
            Pickup::Drunken(b) => b.position(),
        }
    }

    open spec fn icon(&self) -> Icon {
        match self {
            Pickup::Fast(b) => b.icon(),
            Pickup::Clear(b) => b.icon(),
            Pickup::ChangeDir(b) => b.icon(),
            Pickup::Slow(b) => b.icon(),
            Pickup::Color(b) => b.icon(),
            Pickup::Big(b) => b.icon(),
            Pickup::Small(b) => b.icon(),
            Pickup::Border(b) => b.icon(),
            Pickup::Drunken(b) => b.icon(),
        }
    }

    open spec fn player_effect(&self, curve: CurveView, collector: bool) -> CurveView {
        match self {
            Pickup::Fast(b) => b.player_effect(curve, collector),
            Pickup::Clear(b) => b.player_effect(curve, collector),
            Pickup::ChangeDir(b) => b.player_effect(curve, collector),
            Pickup::Slow(b) => b.player_effect(curve, collector),
            Pickup::Color(b) => b.player_effect(curve, collector),
            Pickup::Big(b) => b.player_effect(curve, collector),
            Pickup::Small(b) => b.player_effect(curve, collector),
            Pickup::Border(b) => b.player_effect(curve, collector),
            Pickup::Drunken(b) => b.player_effect(curve, collector),
        }
    }

    open spec fn border_effect(&self, border: Border) -> Border {
        match self {
            Pickup::Fast(b) => b.border_effect(border),
            Pickup::Clear(b) => b.border_effect(border),
            Pickup::ChangeDir(b) => b.border_effect(border),
            Pickup::Slow(b) => b.border_effect(border),
            Pickup::Color(b) => b.border_effect(border),
            Pickup::Big(b) => b.border_effect(border),
            Pickup::Small(b) => b.border_effect(border),
            Pickup::Border(b) => b.border_effect(border),
            Pickup::Drunken(b) => b.border_effect(border),
        }
    }

    open spec fn clears_screen(&self) -> bool {
        match self {
            Pickup::Fast(b) => b.clears_screen(),
            Pickup::Clear(b) => b.clears_screen(),
            Pickup::ChangeDir(b) => b.clears_screen(),
            Pickup::Slow(b) => b.clears_screen(),
            Pickup::Color(b) => b.clears_screen(),
            Pickup::Big(b) => b.clears_screen(),
            Pickup::Small(b) => b.clears_screen(),
            Pickup::Border(b) => b.clears_screen(),
            Pickup::Drunken(b) => b.clears_screen(),
        }
    }

    fn apply_player(&self, player: &mut Curve, collector: bool) {
        match self {
            Pickup::Fast(b) => b.apply_player(player, collector),
            Pickup::Clear(b) => b.apply_player(player, collector),
            Pickup::ChangeDir(b) => b.apply_player(player, collector),
            Pickup::Slow(b) => b.apply_player(player, collector),
            Pickup::Color(b) => b.apply_player(player, collector),
            Pickup::Big(b) => b.apply_player(player, collector),
            Pickup::Small(b) => b.apply_player(player, collector),
            Pickup::Border(b) => b.apply_player(player, collector),
            Pickup::Drunken(b) => b.apply_player(player, collector),
        }
    }

    fn apply_border(&self, border: &mut Border) {
        match self {
            Pickup::Fast(b) => b.apply_border(border),
            Pickup::Clear(b) => b.apply_border(border),
            Pickup::ChangeDir(b) => b.apply_border(border),
            Pickup::Slow(b) => b.apply_border(border),
            Pickup::Color(b) => b.apply_border(border),
            Pickup::Big(b) => b.apply_border(border),
            Pickup::Small(b) => b.apply_border(border),
            Pickup::Border(b) => b.apply_border(border),
            Pickup::Drunken(b) => b.apply_border(border),
        }
    }

    fn clear_screen(&self) -> (clear: bool) {
        match self {
            Pickup::Fast(b) => b.clear_screen(),
            Pickup::Clear(b) => b.clear_screen(),
            Pickup::ChangeDir(b) => b.clear_screen(),
            Pickup::Slow(b) => b.clear_screen(),
            Pickup::Color(b) => b.clear_screen(),
            Pickup::Big(b) => b.clear_screen(),
            Pickup::Small(b) => b.clear_screen(),
            Pickup::Border(b) => b.clear_screen(),
            Pickup::Drunken(b) => b.clear_screen(),
        }
    }

    fn draw(&self) -> (command: DrawCommand) {
        match self {
            Pickup::Fast(b) => b.draw(),
            Pickup::Clear(b) => b.draw(),
            Pickup::ChangeDir(b) => b.draw(),
            Pickup::Slow(b) => b.draw(),
            Pickup::Color(b) => b.draw(),
            Pickup::Big(b) => b.draw(),
            Pickup::Small(b) => b.draw(),
            Pickup::Border(b) => b.draw(),
            Pickup::Drunken(b) => b.draw(),
        }
    }

    fn aabb(&self) -> (corners: (Coord, Coord)) {
        match self {
            Pickup::Fast(b) => b.aabb(),
            Pickup::Clear(b) => b.aabb(),
            Pickup::ChangeDir(b) => b.aabb(),
            Pickup::Slow(b) => b.aabb(),
            Pickup::Color(b) => b.aabb(),
            Pickup::Big(b) => b.aabb(),
            Pickup::Small(b) => b.aabb(),
            Pickup::Border(b) => b.aabb(),
            Pickup::Drunken(b) => b.aabb(),
        }
    }

    fn get_pos(&self) -> (pos: Coord) {
        match self {
            Pickup::Fast(b) => b.get_pos(),
            Pickup::Clear(b) => b.get_pos(),
            Pickup::ChangeDir(b) => b.get_pos(),
            Pickup::Slow(b) => b.get_pos(),
            Pickup::Color(b) => b.get_pos(),
            Pickup::Big(b) => b.get_pos(),
            Pickup::Small(b) => b.get_pos(),
            Pickup::Border(b) => b.get_pos(),
            Pickup::Drunken(b) => b.get_pos(),
        }
    }
}

impl Collide<Pickup> for Curve {
    open spec fn can_meet(&self, incoming: &Pickup) -> bool {
        self.wf()
    }

    open spec fn meets(&self, incoming: &Pickup) -> bool {
        self@.reaches(incoming.position())
    }

    /// Whether the head is near enough to the pickup to take it.
    fn collides_with(&self, incoming: &Pickup) -> (hit: bool) {
        let b_pos = incoming.get_pos();
        self.reaches(b_pos)
    }
}

} // verus!
