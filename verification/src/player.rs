//! A player's curve: where its head is, where it is heading, the trail it has
//! left, and the effects at work on it.

use crate::border::Border;
use crate::buffs::{
    age_buffs, aged_by, buffs_wf, effective_color, effective_radius, effective_rotation,
    effective_speed, fold_color, fold_radius, fold_rotation, fold_speed, lemma_effect_lifetime,
    lemma_none_stays_none, lemma_tick_keeps_wf, lemma_ticks_distribute,
    lemma_youngest_applies_last, tick_buffs, tick_buffs_n, EffectKind, PlayerBuff,
    BASE_TURN_RATE,
};
use crate::display::{DrawCommand, GameColor};
use crate::fixed::{
    div_toward_zero, from_pixels, nearest_pixel, pixels, saturate, to_nearest_pixel, whole_part,
    ONE, UNIT, WIDE_ONE,
};
use crate::geometry::{
    is_trig_table, is_unit_entry, lemma_product_bound, lemma_square_bound, Coord, TrigTable,
    Vector2D, COORD_MAX, FULL_TURN,
};
use vstd::prelude::*;

verus! {

/// Distance in pixels between the left edge of the screen and the field.
pub const PAD_LEFT: i32 = 10;

/// Distance in pixels between the right edge of the screen and the field.
pub const PAD_RIGHT: i32 = 10;

/// Distance in pixels between the lower edge of the screen and the field.
pub const PAD_BOTTOM: i32 = 10;

/// Distance in pixels between the upper edge of the screen and the field.
pub const PAD_TOP: i32 = 10;

/// Left edge of the field: ten pixels from the left edge of the screen.
pub const FIELD_LEFT: i64 = 655_360;

/// Right edge of the field: ten pixels from the right edge of the screen.
pub const FIELD_RIGHT: i64 = 30_801_920;

/// Upper edge of the field: ten pixels from the upper edge of the screen.
pub const FIELD_TOP: i64 = 655_360;

/// Lower edge of the field: ten pixels from the lower edge of the screen.
pub const FIELD_BOTTOM: i64 = 17_170_432;

/// Square of the length 2.0. A turn starts a new trail segment only when the
/// present one is longer than that.
pub const MIN_SEGMENT_SQ: i128 = 17_179_869_184;

/// A curve picks up what lies within its radius and this many pixels more.
pub const PICKUP_MARGIN: u32 = 10;

/// A reach of this much or more covers every distance between two positions.
pub const FULL_REACH: u128 = 0x1_0000_0000;

/// The value 1.0 as an unsigned wide number.
pub const WIDE_UNIT: u128 = 65536;

/// Something that can run into a `T`.
pub trait Collide<T> {
    /// What has to hold of the two for the question to be asked.
    spec fn can_meet(&self, incoming: &T) -> bool;

    /// The two touch.
    spec fn meets(&self, incoming: &T) -> bool;

    fn collides_with(&self, incoming: &T) -> (hit: bool)
        requires
            self.can_meet(incoming),
        ensures
            hit == self.meets(incoming),
    ;
}

/// Something that can run into itself.
pub trait CollideSelf {
    spec fn can_meet_itself(&self) -> bool;

    spec fn meets_itself(&self) -> bool;

    fn collides(&self) -> (hit: bool)
        requires
            self.can_meet_itself(),
        ensures
            hit == self.meets_itself(),
    ;
}

/// What a player asks of the curve in one tick. Pressing both sides is not a
/// turn.
#[derive(Copy, Clone, PartialEq, Eq, Structural, Debug)]
pub enum PlayerInput {
    Left,
    Right,
    Both,
    Neither,
}

impl PlayerInput {
    pub open spec fn is_turn(self) -> bool {
        self == PlayerInput::Left || self == PlayerInput::Right
    }
}

/// A stretch of trail: a line from `start` to `end`, `radius` pixels thick to
/// either side and around both ends.
#[derive(Copy, Clone, PartialEq, Eq, Structural, Debug)]
pub struct Segment {
    pub start: Vector2D,
    pub end: Vector2D,
    pub radius: u32,
}

impl Segment {
    pub open spec fn wf(self) -> bool {
        self.start.in_range() && self.end.in_range() && self.radius > 0
    }

    /// The segment is longer than 2.0.
    pub open spec fn is_long(self) -> bool {
        self.start.minus(self.end).norm_sq() > MIN_SEGMENT_SQ
    }

    fn longer_than_minimum(&self) -> (long: bool)
        requires
            self.wf(),
        ensures
            long == self.is_long(),
    {
        let d = self.start - self.end;
        d.dot(d) > MIN_SEGMENT_SQ
    }
}

// What it means to touch

/// How far from a segment's line a head of radius `head_radius` is stopped.
pub open spec fn combined_reach(head_radius: u64, seg: Segment) -> int {
    head_radius + seg.radius * ONE
}

/// A disc of radius `reach` around `p` reaches the line from `seg.start` to
/// `seg.end`: the point of the line nearest to `p` is less than `reach` away.
///
/// Where `p` projects onto the line beyond one of its ends, that point is the
/// nearer end; elsewhere it is the foot of the perpendicular, whose distance
/// is the cross product over the length of the line. A segment without
/// length has no line and is never hit.
pub open spec fn capsule_hit(p: Vector2D, reach: int, seg: Segment) -> bool {
    let e = seg.end.minus(seg.start);
    let w = p.minus(seg.start);
    let v = p.minus(seg.end);
    let along = w.dot_product(e);
    let len_sq = e.norm_sq();
    if len_sq == 0 {
        false
    } else if along < 0 || along > len_sq {
        w.norm_sq() < reach * reach || v.norm_sq() < reach * reach
    } else {
        e.cross_product(w) * e.cross_product(w) < reach * reach * len_sq
    }
}

/// A head at `p` with radius `head_radius` touches one of `segments`.
pub open spec fn hits_any(p: Vector2D, head_radius: u64, segments: Seq<Segment>) -> bool {
    exists|i: int|
        0 <= i < segments.len() && capsule_hit(
            p,
            combined_reach(head_radius, #[trigger] segments[i]),
            segments[i],
        )
}

/// Some part of the disc around `pos` lies on or beyond the border.
pub open spec fn breaks_border(pos: Vector2D, radius: u64, border: Border) -> bool {
    !(pos.x - radius > pixels(border.top_left.x as int) && pos.y - radius > pixels(
        border.top_left.y as int,
    ) && pos.x + radius < pixels(border.bottom_right.x as int) && pos.y + radius < pixels(
        border.bottom_right.y as int,
    ))
}

/// The pixel `at` is within `radius` pixels and the pickup margin of `pos`.
pub open spec fn reaches_pickup(pos: Vector2D, radius: u32, at: Coord) -> bool {
    let dx = pos.x - pixels(at.x as int);
    let dy = pos.y - pixels(at.y as int);
    let reach = pixels(radius + PICKUP_MARGIN);
    dx * dx + dy * dy <= reach * reach
}

/// The x coordinate after a move to `x`: a curve that leaves the field on one
/// side comes back in on the other.
pub open spec fn wrap_x(x: int) -> int {
    if x < FIELD_LEFT {
        FIELD_RIGHT as int
    } else if x > FIELD_RIGHT {
        FIELD_LEFT + ONE
    } else {
        x
    }
}

pub open spec fn wrap_y(y: int) -> int {
    if y < FIELD_TOP {
        FIELD_BOTTOM as int
    } else if y > FIELD_BOTTOM {
        FIELD_TOP + ONE
    } else {
        y
    }
}

/// The point `(x, y)` lies off the field.
pub open spec fn off_field(x: int, y: int) -> bool {
    x < FIELD_LEFT || x > FIELD_RIGHT || y < FIELD_TOP || y > FIELD_BOTTOM
}

/// The unit vector at `heading` degrees.
pub open spec fn direction(heading: u32, trig: Seq<Vector2D>) -> Vector2D {
    (Vector2D { x: ONE, y: 0 }).rotated(trig[(heading % FULL_TURN) as int])
}

// The curve as plain values, and what a tick does to it

/// What a curve is, as plain values.
pub struct CurveView {
    pub pos: Vector2D,
    pub color: GameColor,
    /// Degrees, clockwise from the positive x axis.
    pub heading: u32,
    /// Radius of the trail in pixels.
    pub radius: u32,
    pub speed: u64,
    pub buffs: Seq<PlayerBuff>,
    pub trace: Seq<Segment>,
}

impl CurveView {
    pub open spec fn wf(self) -> bool {
        &&& self.pos.in_range()
        &&& self.heading < FULL_TURN
        &&& self.radius > 0
        &&& self.trace.len() >= 1
        &&& forall|i: int| 0 <= i < self.trace.len() ==> (#[trigger] self.trace[i]).wf()
        &&& buffs_wf(self.buffs)
    }

    /// Degrees the curve turns in a tick, within one full turn.
    pub open spec fn turn_rate(self) -> int {
        effective_rotation(self.buffs, BASE_TURN_RATE as int) % (FULL_TURN as int)
    }

    pub open spec fn effective_speed(self) -> u64 {
        effective_speed(self.buffs, self.speed)
    }

    /// Radius of the head, in sub-pixel units.
    pub open spec fn effective_radius(self) -> u64 {
        effective_radius(self.buffs, pixels(self.radius as int) as u64)
    }

    pub open spec fn effective_color(self) -> GameColor {
        effective_color(self.buffs, self.color)
    }

    pub open spec fn heading_after(self, input: PlayerInput) -> u32 {
        match input {
            PlayerInput::Left => ((self.heading + FULL_TURN - self.turn_rate()) % (
            FULL_TURN as int)) as u32,
            PlayerInput::Right => ((self.heading + self.turn_rate()) % (FULL_TURN as int)) as u32,
            _ => self.heading,
        }
    }

    /// Where a step at `heading` would take the head if the field had no
    /// edges.
    pub open spec fn target(self, heading: u32, trig: Seq<Vector2D>) -> (int, int) {
        let d = direction(heading, trig);
        (
            self.pos.x + div_toward_zero(d.x * self.effective_speed(), ONE as int),
            self.pos.y + div_toward_zero(d.y * self.effective_speed(), ONE as int),
        )
    }

    /// The trail after the head has come to `pos`: a new segment that starts
    /// there, or the last segment drawn out to there.
    pub open spec fn trace_after(self, pos: Vector2D, fresh: bool) -> Seq<Segment> {
        if fresh {
            self.trace.push(Segment { start: pos, end: pos, radius: self.radius })
        } else {
            self.trace.update(
                self.trace.len() - 1,
                Segment { start: self.trace.last().start, end: pos, radius: self.trace.last().radius },
            )
        }
    }

    /// The curve one tick later.
    ///
    /// The turn is made first, at the rate the effects give; then the head
    /// moves at the speed the effects give and comes back in on the far side
    /// if it leaves the field. A new trail segment starts where the head has
    /// crossed an edge, or where the player has turned and the last segment
    /// is longer than 2.0. Last, the effects age.
    pub open spec fn act(self, input: PlayerInput, trig: Seq<Vector2D>) -> CurveView {
        let heading = self.heading_after(input);
        let (tx, ty) = self.target(heading, trig);
        let pos = Vector2D { x: wrap_x(tx) as i64, y: wrap_y(ty) as i64 };
        let fresh = (input.is_turn() && self.trace.last().is_long()) || off_field(tx, ty);
        CurveView {
            pos,
            color: self.color,
            heading,
            radius: self.radius,
            speed: self.speed,
            buffs: tick_buffs(self.buffs),
            trace: self.trace_after(pos, fresh),
        }
    }

    /// The curve after one tick for each of `inputs`, in order.
    pub open spec fn acts(self, inputs: Seq<PlayerInput>, trig: Seq<Vector2D>) -> CurveView
        decreases inputs.len(),
    {
        if inputs.len() == 0 {
            self
        } else {
            self.acts(inputs.drop_last(), trig).act(inputs.last(), trig)
        }
    }

    /// The curve with one more effect, the youngest.
    pub open spec fn with_buff(self, buff: PlayerBuff) -> CurveView {
        CurveView {
            pos: self.pos,
            color: self.color,
            heading: self.heading,
            radius: self.radius,
            speed: self.speed,
            buffs: self.buffs.push(buff),
            trace: self.trace,
        }
    }

    /// The curve with nothing left of its trail but the spot it is on.
    pub open spec fn cleared(self) -> CurveView {
        CurveView {
            pos: self.pos,
            color: self.color,
            heading: self.heading,
            radius: self.radius,
            speed: self.speed,
            buffs: self.buffs,
            trace: seq![Segment { start: self.pos, end: self.pos, radius: self.radius }],
        }
    }

    /// The part of the own trail that the head is tested against: all but
    /// the last `2 * radius` segments. Those lie around the head.
    pub open spec fn old_trail(self) -> Seq<Segment> {
        if self.trace.len() >= 2 * self.radius {
            self.trace.take(self.trace.len() - 2 * self.radius)
        } else {
            Seq::empty()
        }
    }

    pub open spec fn hits_itself(self) -> bool {
        hits_any(self.pos, self.effective_radius(), self.old_trail())
    }

    pub open spec fn hits_curve(self, other: CurveView) -> bool {
        hits_any(self.pos, self.effective_radius(), other.trace)
    }

    pub open spec fn hits_border(self, border: Border) -> bool {
        breaks_border(self.pos, self.effective_radius(), border)
    }

    pub open spec fn reaches(self, at: Coord) -> bool {
        reaches_pickup(self.pos, self.radius, at)
    }

    /// The pixel that holds the head.
    pub open spec fn head_pixel(self) -> Coord {
        Coord {
            x: div_toward_zero(self.pos.x as int, ONE as int) as i32,
            y: div_toward_zero(self.pos.y as int, ONE as int) as i32,
        }
    }

    /// The head as the screen shows it.
    pub open spec fn disc(self) -> DrawCommand {
        DrawCommand::Disc {
            center: self.head_pixel(),
            radius: nearest_pixel(self.effective_radius()),
            color: self.effective_color(),
        }
    }
}

// What holds of every curve

/// A curve never loses its whole trail: a move adds to it or draws it out,
/// wiping it leaves one segment, and a new effect leaves it alone.
pub proof fn lemma_trail_never_empty(
    curve: CurveView,
    input: PlayerInput,
    trig: Seq<Vector2D>,
    buff: PlayerBuff,
)
    requires
        curve.trace.len() >= 1,
    ensures
        curve.act(input, trig).trace.len() >= 1,
        curve.cleared().trace.len() >= 1,
        curve.with_buff(buff).trace.len() >= 1,
{
}

/// Whatever is done to a well-formed curve leaves it well formed: a move, a
/// new effect, a wiped trail.
pub proof fn lemma_curve_stays_wf(
    curve: CurveView,
    input: PlayerInput,
    trig: Seq<Vector2D>,
    buff: PlayerBuff,
)
    requires
        curve.wf(),
        buff.wf(),
    ensures
        curve.act(input, trig).wf(),
        curve.with_buff(buff).wf(),
        curve.cleared().wf(),
{
    lemma_tick_keeps_wf(curve.buffs);
    let after = curve.act(input, trig);
    assert forall|i: int| 0 <= i < after.trace.len() implies (#[trigger] after.trace[i]).wf() by {
        if i < curve.trace.len() - 1 {
            assert(curve.trace[i].wf());
        } else {
            assert(curve.trace.last().wf());
        }
    }
    let more = curve.with_buff(buff);
    assert forall|i: int| 0 <= i < more.buffs.len() implies (#[trigger] more.buffs[i]).wf() by {
        if i < curve.buffs.len() {
            assert(curve.buffs[i].wf());
        }
    }
}

/// A curve's direction is the table's entry for its heading, and so a unit
/// vector as nearly as whole units allow, whatever turns the curve has made.
pub proof fn lemma_direction_is_unit(heading: u32, trig: Seq<Vector2D>)
    requires
        is_trig_table(trig),
    ensures
        direction(heading, trig) == trig[(heading % FULL_TURN) as int],
        is_unit_entry(direction(heading, trig)),
{
    let u = trig[(heading % FULL_TURN) as int];
    assert(is_unit_entry(u));
    assert(u.x * ONE / (ONE as int) == u.x);
    assert((-(u.x * ONE)) / (ONE as int) == -u.x);
    assert(u.y * ONE / (ONE as int) == u.y);
    assert((-(u.y * ONE)) / (ONE as int) == -u.y);
    assert(u.y * 0 == 0);
    assert(u.x * 0 == 0);
}

/// A curve that is well formed has a trail.
pub proof fn lemma_wf_has_trail(curve: CurveView)
    requires
        curve.wf(),
    ensures
        curve.trace.len() >= 1,
{
}

/// A curve cannot run into itself while its trail has no more segments than
/// twice its radius: all of them lie around the head. A curve that has just
/// been made has one.
pub proof fn lemma_short_trail_is_safe(curve: CurveView)
    requires
        curve.radius > 0,
        curve.trace.len() <= 2 * curve.radius,
    ensures
        !curve.hits_itself(),
{
    assert(curve.old_trail().len() == 0);
}

/// Moving changes nothing about a curve's own speed, radius and colour, and
/// ages its effects by one tick for each move.
pub proof fn lemma_acts_age_effects(curve: CurveView, inputs: Seq<PlayerInput>, trig: Seq<Vector2D>)
    ensures
        curve.acts(inputs, trig).buffs == tick_buffs_n(curve.buffs, inputs.len()),
        curve.acts(inputs, trig).speed == curve.speed,
        curve.acts(inputs, trig).radius == curve.radius,
        curve.acts(inputs, trig).color == curve.color,
    decreases inputs.len(),
{
    if inputs.len() > 0 {
        lemma_acts_age_effects(curve, inputs.drop_last(), trig);
    }
}

/// An effect that is put on a curve with `n` ticks on its clock is at work
/// through the next `n` moves and gone after move `n + 1`, whatever else is
/// at work on the curve.
pub proof fn lemma_effect_lasts_its_timeout(
    curve: CurveView,
    buff: PlayerBuff,
    inputs: Seq<PlayerInput>,
    trig: Seq<Vector2D>,
)
    requires
        buff.wf(),
    ensures
        inputs.len() <= buff.timeout ==> curve.with_buff(buff).acts(inputs, trig).buffs
            == tick_buffs_n(curve.buffs, inputs.len()).push(aged_by(buff, inputs.len())),
        inputs.len() > buff.timeout ==> curve.with_buff(buff).acts(inputs, trig).buffs
            == tick_buffs_n(curve.buffs, inputs.len()),
{
    let n = inputs.len();
    let alone = seq![buff];
    lemma_acts_age_effects(curve.with_buff(buff), inputs, trig);
    assert(curve.buffs.push(buff) =~= curve.buffs + alone);
    lemma_ticks_distribute(curve.buffs, alone, n);
    lemma_effect_lifetime(buff, n);
    if n <= buff.timeout {
        assert(tick_buffs_n(curve.buffs, n) + seq![aged_by(buff, n)] =~= tick_buffs_n(
            curve.buffs,
            n,
        ).push(aged_by(buff, n)));
    } else {
        assert(tick_buffs_n(curve.buffs, n) + Seq::<PlayerBuff>::empty() =~= tick_buffs_n(
            curve.buffs,
            n,
        ));
    }
}

/// A curve with nothing else at work on it that takes a speed-up moves 1.0
/// faster for as many moves as the speed-up lasts, and at its own speed from
/// the move after.
pub proof fn lemma_speed_up_wears_off(
    curve: CurveView,
    inputs: Seq<PlayerInput>,
    trig: Seq<Vector2D>,
)
    requires
        curve.buffs.len() == 0,
    ensures
        ({
            let fast = PlayerBuff {
                timeout: EffectKind::Fast.lifetime(),
                elapsed: 0,
                effect: EffectKind::Fast,
            };
            let later = curve.with_buff(fast).acts(inputs, trig);
            later.effective_speed() == if inputs.len() <= EffectKind::Fast.lifetime() {
                saturate(curve.speed + UNIT)
            } else {
                curve.speed
            }
        }),
{
    let fast = PlayerBuff { timeout: EffectKind::Fast.lifetime(), elapsed: 0, effect: EffectKind::Fast };
    let n = inputs.len();
    let none = Seq::<PlayerBuff>::empty();
    assert(curve.buffs =~= none);
    lemma_effect_lasts_its_timeout(curve, fast, inputs, trig);
    lemma_acts_age_effects(curve.with_buff(fast), inputs, trig);
    lemma_none_stays_none(n);
    if n <= fast.timeout {
        lemma_youngest_applies_last(none, aged_by(fast, n), 0, curve.speed, 0, curve.color);
    }
}

// The curve itself

/// A player's curve.
pub struct Curve {
    pos: Vector2D,
    color: GameColor,
    heading: u32,
    radius: u32,
    speed: u64,
    buffs: Vec<PlayerBuff>,
    trace: Vec<Segment>,
}

impl View for Curve {
    type V = CurveView;

    closed spec fn view(&self) -> CurveView {
        CurveView {
            pos: self.pos,
            color: self.color,
            heading: self.heading,
            radius: self.radius,
            speed: self.speed,
            buffs: self.buffs@,
            trace: self.trace@,
        }
    }
}

/// The cross product and the dot product of two vectors make up the product
/// of their squared lengths.
proof fn lemma_cross_dot(ex: int, ey: int, wx: int, wy: int)
    ensures
        (ex * wy - ey * wx) * (ex * wy - ey * wx) + (wx * ex + wy * ey) * (wx * ex + wy * ey) == (
        ex * ex + ey * ey) * (wx * wx + wy * wy),
{
    let a = ex * wy;
    let b = ey * wx;
    let c = wx * ex;
    let d = wy * ey;
    assert(a * b == c * d) by (nonlinear_arith)
        requires
            a == ex * wy,
            b == ey * wx,
            c == wx * ex,
            d == wy * ey,
    ;
    assert((a - b) * (a - b) == a * a - 2 * (a * b) + b * b) by (nonlinear_arith);
    assert((c + d) * (c + d) == c * c + 2 * (c * d) + d * d) by (nonlinear_arith);
    assert(a * a == (ex * ex) * (wy * wy)) by (nonlinear_arith)
        requires
            a == ex * wy,
    ;
    assert(b * b == (ey * ey) * (wx * wx)) by (nonlinear_arith)
        requires
            b == ey * wx,
    ;
    assert(c * c == (ex * ex) * (wx * wx)) by (nonlinear_arith)
        requires
            c == wx * ex,
    ;
    assert(d * d == (ey * ey) * (wy * wy)) by (nonlinear_arith)
        requires
            d == wy * ey,
    ;
    let p = ex * ex;
    let q = ey * ey;
    let r = wx * wx;
    let t = wy * wy;
    assert((p + q) * (r + t) == p * r + p * t + q * r + q * t) by (nonlinear_arith);
}

/// A longer reach reaches whatever a shorter one does.
pub proof fn lemma_longer_reach_hits_more(p: Vector2D, short: int, long: int, seg: Segment)
    requires
        0 <= short <= long,
        capsule_hit(p, short, seg),
    ensures
        capsule_hit(p, long, seg),
{
    let e = seg.end.minus(seg.start);
    let len_sq = e.norm_sq();
    assert(short * short <= long * long) by (nonlinear_arith)
        requires
            0 <= short <= long,
    ;
    assert(len_sq >= 0) by (nonlinear_arith)
        requires
            len_sq == e.x * e.x + e.y * e.y,
    ;
    assert(short * short * len_sq <= long * long * len_sq) by (nonlinear_arith)
        requires
            short * short <= long * long,
            len_sq >= 0,
    ;
}

/// It makes no difference to a head which way a segment was drawn.
pub proof fn lemma_segment_has_no_direction(p: Vector2D, reach: int, seg: Segment)
    requires
        p.in_range(),
        seg.wf(),
    ensures
        capsule_hit(p, reach, seg) == capsule_hit(
            p,
            reach,
            Segment { start: seg.end, end: seg.start, radius: seg.radius },
        ),
{
    let back = Segment { start: seg.end, end: seg.start, radius: seg.radius };
    let e = seg.end.minus(seg.start);
    let w = p.minus(seg.start);
    let v = p.minus(seg.end);
    let f = back.end.minus(back.start);
    assert(f.x == -e.x && f.y == -e.y);
    assert(v.x == w.x - e.x && v.y == w.y - e.y);
    let ex = e.x as int;
    let ey = e.y as int;
    let wx = w.x as int;
    let wy = w.y as int;
    assert(f.norm_sq() == e.norm_sq()) by (nonlinear_arith)
        requires
            f.norm_sq() == (-ex) * (-ex) + (-ey) * (-ey),
            e.norm_sq() == ex * ex + ey * ey,
    ;
    assert(v.dot_product(f) == e.norm_sq() - w.dot_product(e)) by (nonlinear_arith)
        requires
            v.dot_product(f) == (wx - ex) * (-ex) + (wy - ey) * (-ey),
            e.norm_sq() == ex * ex + ey * ey,
            w.dot_product(e) == wx * ex + wy * ey,
    ;
    assert(f.cross_product(v) == -e.cross_product(w)) by (nonlinear_arith)
        requires
            f.cross_product(v) == (-ex) * (wy - ey) - (-ey) * (wx - ex),
            e.cross_product(w) == ex * wy - ey * wx,
    ;
    let c = e.cross_product(w);
    assert((-c) * (-c) == c * c) by (nonlinear_arith);
}

/// A reach that covers every distance reaches every line that has a length.
proof fn lemma_full_reach_hits(p: Vector2D, reach: int, seg: Segment)
    requires
        p.in_range(),
        seg.wf(),
        reach >= FULL_REACH,
        seg.end.minus(seg.start).norm_sq() != 0,
    ensures
        capsule_hit(p, reach, seg),
{
    let e = seg.end.minus(seg.start);
    let w = p.minus(seg.start);
    let len_sq = e.norm_sq();
    let c = e.cross_product(w);
    let along = w.dot_product(e);
    lemma_square_bound(w.x as int, 2 * COORD_MAX);
    lemma_square_bound(w.y as int, 2 * COORD_MAX);
    lemma_square_bound(e.x as int, 2 * COORD_MAX);
    lemma_square_bound(e.y as int, 2 * COORD_MAX);
    assert(reach * reach >= 0x1_0000_0000 * 0x1_0000_0000) by (nonlinear_arith)
        requires
            reach >= 0x1_0000_0000,
    ;
    assert(w.norm_sq() < reach * reach);
    lemma_cross_dot(e.x as int, e.y as int, w.x as int, w.y as int);
    assert(c * c + along * along == len_sq * w.norm_sq());
    assert(along * along >= 0) by (nonlinear_arith);
    assert(len_sq * w.norm_sq() < reach * reach * len_sq) by (nonlinear_arith)
        requires
            len_sq > 0,
            w.norm_sq() < reach * reach,
    ;
}

impl Curve {
    pub open spec fn wf(&self) -> bool {
        self@.wf()
    }

    /// A curve at `start_pos` that heads `angle` degrees clockwise from the
    /// positive x axis, with a trail `radius` pixels thick, at speed 1.0.
    pub fn new(color: GameColor, start_pos: Vector2D, radius: u32, angle: u32) -> (curve: Curve)
        requires
            start_pos.in_range(),
            radius > 0,
        ensures
            curve.wf(),
            curve@ == (CurveView {
                pos: start_pos,
                color,
                heading: angle % FULL_TURN,
                radius,
                speed: UNIT,
                buffs: Seq::empty(),
                trace: seq![Segment { start: start_pos, end: start_pos, radius }],
            }),
    {
        let mut trace: Vec<Segment> = Vec::new();
        trace.push(Segment { start: start_pos, end: start_pos, radius });
        let curve = Curve {
            pos: start_pos,
            color,
            heading: angle % FULL_TURN,
            radius,
            speed: UNIT,
            buffs: Vec::new(),
            trace,
        };
        assert(curve@.trace =~= seq![Segment { start: start_pos, end: start_pos, radius }]);
        assert(curve@.buffs =~= Seq::empty());
        curve
    }

    /// Draws the head: a filled circle in the curve's present colour and
    /// radius.
    pub fn draw(&self, display: &mut Vec<DrawCommand>)
        requires
            self.wf(),
        ensures
            final(display)@ == old(display)@.push(self@.disc()),
    {
        let color = fold_color(&self.buffs, self.color);
        let radius: u64 = fold_radius(&self.buffs, from_pixels(self.radius));
        let x: i128 = whole_part(self.pos.x as i128);
        let y: i128 = whole_part(self.pos.y as i128);
        display.push(
            DrawCommand::Disc {
                center: Coord::new(x as i32, y as i32),
                radius: to_nearest_pixel(radius),
                color,
            },
        );
    }

    /// Moves the head one step along its heading. Returns whether it crossed
    /// an edge of the field.
    fn update_pos(&mut self, trig: &TrigTable) -> (wrapped: bool)
        requires
            old(self).wf(),
            trig.wf(),
        ensures
            final(self).wf(),
            wrapped == ({
                let t = old(self)@.target(old(self)@.heading, trig.entries@);
                off_field(t.0, t.1)
            }),
            final(self)@ == ({
                let t = old(self)@.target(old(self)@.heading, trig.entries@);
                CurveView {
                    pos: Vector2D { x: wrap_x(t.0) as i64, y: wrap_y(t.1) as i64 },
                    color: old(self)@.color,
                    heading: old(self)@.heading,
                    radius: old(self)@.radius,
                    speed: old(self)@.speed,
                    buffs: old(self)@.buffs,
                    trace: old(self)@.trace,
                }
            }),
    {
        let speed: u64 = fold_speed(&self.buffs, self.speed);
        let ahead = Vector2D { x: ONE, y: 0 };
        let d = ahead.rotate(self.heading, trig);
        proof {
            lemma_product_bound(d.x as int, speed as int, 2 * COORD_MAX, u64::MAX as int);
            lemma_product_bound(d.y as int, speed as int, 2 * COORD_MAX, u64::MAX as int);
        }
        let step_x: i128 = whole_part((d.x as i128) * (speed as i128));
        let step_y: i128 = whole_part((d.y as i128) * (speed as i128));
        let mut new_x: i128 = self.pos.x as i128 + step_x;
        let mut new_y: i128 = self.pos.y as i128 + step_y;
        let mut new_trace_segment: bool = false;
        if new_x < FIELD_LEFT as i128 {
            new_x = FIELD_RIGHT as i128;
            new_trace_segment = true;
        } else if new_x > FIELD_RIGHT as i128 {
            new_x = FIELD_LEFT as i128 + WIDE_ONE;
            new_trace_segment = true;
        }
        if new_y < FIELD_TOP as i128 {
            new_y = FIELD_BOTTOM as i128;
            new_trace_segment = true;
        } else if new_y > FIELD_BOTTOM as i128 {
            new_y = FIELD_TOP as i128 + WIDE_ONE;
            new_trace_segment = true;
        }
        self.pos = Vector2D { x: new_x as i64, y: new_y as i64 };
        new_trace_segment
    }

    /// Brings the trail up to the head: starts a new segment there or draws
    /// the last one out to it.
    fn update_trace(&mut self, new_trace_segment: bool)
        requires
            old(self).wf(),
        ensures
            final(self).wf(),
            final(self)@ == (CurveView {
                pos: old(self)@.pos,
                color: old(self)@.color,
                heading: old(self)@.heading,
                radius: old(self)@.radius,
                speed: old(self)@.speed,
                buffs: old(self)@.buffs,
                trace: old(self)@.trace_after(old(self)@.pos, new_trace_segment),
            }),
    {
        if new_trace_segment {
            self.trace.push(Segment { start: self.pos, end: self.pos, radius: self.radius });
        } else {
            let n: usize = self.trace.len();
            self.trace[n - 1].end = self.pos;
            assert(self.trace@ =~= old(self)@.trace_after(old(self)@.pos, new_trace_segment));
        }
    }

    /// Lets a tick pass for the effects.
    fn update_buffs(&mut self)
        requires
            old(self).wf(),
        ensures
            final(self).wf(),
            final(self)@ == (CurveView {
                pos: old(self)@.pos,
                color: old(self)@.color,
                heading: old(self)@.heading,
                radius: old(self)@.radius,
                speed: old(self)@.speed,
                buffs: tick_buffs(old(self)@.buffs),
                trace: old(self)@.trace,
            }),
    {
        self.buffs = age_buffs(&self.buffs);
    }

    /// Lets one tick pass: turns as `input` asks, moves, extends the trail
    /// and ages the effects.
    pub fn act(&mut self, input: PlayerInput, trig: &TrigTable)
        requires
            old(self).wf(),
            trig.wf(),
        ensures
            final(self).wf(),
            final(self)@ == old(self)@.act(input, trig.entries@),
    {
        let rate: u32 = fold_rotation(&self.buffs, BASE_TURN_RATE);
        let mut new_trace_segment: bool = false;
        match input {
            PlayerInput::Left => {
                self.heading = (self.heading + FULL_TURN - rate) % FULL_TURN;
                new_trace_segment = true;
            },
            PlayerInput::Right => {
                self.heading = (self.heading + rate) % FULL_TURN;
                new_trace_segment = true;
            },
            _ => {},
        }
        let last_seg = self.trace[self.trace.len() - 1];
        new_trace_segment = new_trace_segment && last_seg.longer_than_minimum();
        let wrapped = self.update_pos(trig);
        new_trace_segment = new_trace_segment || wrapped;
        self.update_trace(new_trace_segment);
        self.update_buffs();
    }

    /// Puts a new effect to work on the curve, behind those already there.
    pub fn add_buff(&mut self, buff: PlayerBuff)
        requires
            old(self).wf(),
            buff.wf(),
        ensures
            final(self).wf(),
            final(self)@ == old(self)@.with_buff(buff),
    {
        self.buffs.push(buff);
    }

    /// Forgets the trail. What is left is the spot the head is on.
    pub fn clear_trace(&mut self)
        requires
            old(self).wf(),
        ensures
            final(self).wf(),
            final(self)@ == old(self)@.cleared(),
    {
        self.trace.clear();
        self.trace.push(Segment { start: self.pos, end: self.pos, radius: self.radius });
        assert(self.trace@ =~= seq![
            Segment { start: self.pos, end: self.pos, radius: self.radius },
        ]);
    }

    /// Whether the head, with radius `head_radius`, touches `seg`.
    fn collides_with_segment(&self, head_radius: u64, seg: &Segment) -> (hit: bool)
        requires
            self.wf(),
            seg.wf(),
        ensures
            hit == capsule_hit(self@.pos, combined_reach(head_radius, *seg), *seg),
    {
        let p = self.pos;
        let e = seg.end - seg.start;
        let w = p - seg.start;
        let v = p - seg.end;
        let along: i128 = w.dot(e);
        let len_sq: i128 = e.dot(e);
        if len_sq == 0 {
            return false;
        }
        let reach: u128 = head_radius as u128 + (seg.radius as u128) * WIDE_UNIT;
        let ghost r = combined_reach(head_radius, *seg);
        assert(reach == r);
        if reach >= FULL_REACH {
            proof {
                lemma_full_reach_hits(p, r, *seg);
            }
            return true;
        }
        assert(reach * reach < 0x1_0000_0000 * 0x1_0000_0000) by (nonlinear_arith)
            requires
                0 <= reach < 0x1_0000_0000,
        ;
        let reach_sq: u128 = reach * reach;
        proof {
            lemma_square_bound(w.x as int, 2 * COORD_MAX);
            lemma_square_bound(w.y as int, 2 * COORD_MAX);
            lemma_square_bound(v.x as int, 2 * COORD_MAX);
            lemma_square_bound(v.y as int, 2 * COORD_MAX);
            lemma_square_bound(e.x as int, 2 * COORD_MAX);
            lemma_square_bound(e.y as int, 2 * COORD_MAX);
        }
        if along < 0 || along > len_sq {
            let from_start: i128 = w.dot(w);
            let from_end: i128 = v.dot(v);
            (from_start as u128) < reach_sq || (from_end as u128) < reach_sq
        } else {
            proof {
                lemma_product_bound(e.x as int, w.y as int, 2 * COORD_MAX, 2 * COORD_MAX);
                lemma_product_bound(e.y as int, w.x as int, 2 * COORD_MAX, 2 * COORD_MAX);
            }
            let cross: i128 = (e.x as i128) * (w.y as i128) - (e.y as i128) * (w.x as i128);
            let size: u128 = if cross < 0 {
                (-cross) as u128
            } else {
                cross as u128
            };
            assert(size * size == cross * cross) by (nonlinear_arith)
                requires
                    size == cross || size == -cross,
            ;
            assert(size * size <= 0x8000_0000_0000_0000 * 0x8000_0000_0000_0000) by (nonlinear_arith)
                requires
                    0 <= size <= 0x8000_0000_0000_0000,
            ;
            assert(reach_sq * len_sq <= 0xffff_ffff_ffff_ffff * 0x8000_0000_0000_0000)
                by (nonlinear_arith)
                requires
                    0 <= reach_sq <= 0xffff_ffff_ffff_ffff,
                    0 <= len_sq <= 0x8000_0000_0000_0000,
            ;
            size * size < reach_sq * (len_sq as u128)
        }
    }

    /// Whether the head touches one of the first `count` segments of `trace`.
    fn has_collision(&self, trace: &Vec<Segment>, count: usize) -> (hit: bool)
        requires
            self.wf(),
            count <= trace.len(),
            forall|i: int| 0 <= i < trace.len() ==> (#[trigger] trace@[i]).wf(),
        ensures
            hit == hits_any(self@.pos, self@.effective_radius(), trace@.take(count as int)),
    {
        let head_radius: u64 = fold_radius(&self.buffs, from_pixels(self.radius));
        let ghost tested = trace@.take(count as int);
        let mut i: usize = 0;
        while i < count
            invariant
                i <= count <= trace.len(),
                self.wf(),
                head_radius == self@.effective_radius(),
                tested == trace@.take(count as int),
                forall|k: int| 0 <= k < trace.len() ==> (#[trigger] trace@[k]).wf(),
                forall|k: int|
                    0 <= k < i ==> !capsule_hit(
                        self@.pos,
                        combined_reach(head_radius, #[trigger] tested[k]),
                        tested[k],
                    ),
            decreases count - i,
        {
            assert(tested[i as int] == trace@[i as int]);
            if self.collides_with_segment(head_radius, &trace[i]) {
                return true;
            }
            i += 1;
        }
        false
    }

    /// Whether the head lies within pickup range of the pixel `at`.
    pub fn reaches(&self, at: Coord) -> (near: bool)
        requires
            self.wf(),
        ensures
            near == self@.reaches(at),
    {
        let dx: i128 = self.pos.x as i128 - (at.x as i128) * WIDE_ONE;
        let dy: i128 = self.pos.y as i128 - (at.y as i128) * WIDE_ONE;
        let reach: i128 = (self.radius as i128 + PICKUP_MARGIN as i128) * WIDE_ONE;
        proof {
            lemma_square_bound(dx as int, 0x1_0000_0000_0000);
            lemma_square_bound(dy as int, 0x1_0000_0000_0000);
            lemma_square_bound(reach as int, 0x2_0000_0000_0000);
        }
        dx * dx + dy * dy <= reach * reach
    }

    /// Where the head is.
    pub fn position(&self) -> (pos: Vector2D)
        ensures
            pos == self@.pos,
    {
        self.pos
    }

    /// Number of segments in the trail.
    pub fn trace_len(&self) -> (len: usize)
        ensures
            len == self@.trace.len(),
    {
        self.trace.len()
    }

    /// Number of effects at work.
    pub fn buff_count(&self) -> (count: usize)
        ensures
            count == self@.buffs.len(),
    {
        self.buffs.len()
    }

    /// Degrees the curve turns on a tick in which the player steers.
    pub fn turn_rate(&self) -> (rate: u32)
        ensures
            rate == self@.turn_rate(),
    {
        fold_rotation(&self.buffs, BASE_TURN_RATE)
    }

    /// The speed with all effects applied.
    pub fn effective_speed(&self) -> (speed: u64)
        ensures
            speed == self@.effective_speed(),
    {
        fold_speed(&self.buffs, self.speed)
    }

    /// The radius of the head with all effects applied, in sub-pixel units.
    pub fn effective_radius(&self) -> (radius: u64)
        ensures
            radius == self@.effective_radius(),
    {
        fold_radius(&self.buffs, from_pixels(self.radius))
    }

    /// The colour with all effects applied.
    pub fn effective_color(&self) -> (color: GameColor)
        ensures
            color == self@.effective_color(),
    {
        fold_color(&self.buffs, self.color)
    }
}

impl CollideSelf for Curve {
    open spec fn can_meet_itself(&self) -> bool {
        self.wf()
    }

    open spec fn meets_itself(&self) -> bool {
        self@.hits_itself()
    }

    /// Whether the head touches the curve's own trail. The segments nearest
    /// the head do not count.
    fn collides(&self) -> (hit: bool) {
        let window: u64 = (self.radius as u64) * 2;
        let len: usize = self.trace.len();
        if (len as u64) < window {
            proof {
                assert(!hits_any(self@.pos, self@.effective_radius(), Seq::<Segment>::empty()));
            }
            return false;
        }
        let take: usize = len - (window as usize);
        self.has_collision(&self.trace, take)
    }
}

impl Collide<Curve> for Curve {
    open spec fn can_meet(&self, incoming: &Curve) -> bool {
        self.wf() && incoming.wf()
    }

    open spec fn meets(&self, incoming: &Curve) -> bool {
        self@.hits_curve(incoming@)
    }

    /// Whether the head touches any part of the other curve's trail.
    fn collides_with(&self, incoming: &Curve) -> (hit: bool) {
        assert(incoming.trace@.take(incoming.trace.len() as int) =~= incoming.trace@);
        self.has_collision(&incoming.trace, incoming.trace.len())
    }
}

impl Collide<Border> for Curve {
    open spec fn can_meet(&self, border: &Border) -> bool {
        self.wf()
    }

    open spec fn meets(&self, border: &Border) -> bool {
        self@.hits_border(*border)
    }

    /// Whether some part of the head lies on or beyond the border.
    fn collides_with(&self, border: &Border) -> (hit: bool) {
        let radius: i128 = fold_radius(&self.buffs, from_pixels(self.radius)) as i128;
        let x: i128 = self.pos.x as i128;
        let y: i128 = self.pos.y as i128;
        if x - radius > (border.top_left.x as i128) * WIDE_ONE && y - radius > (
        border.top_left.y as i128) * WIDE_ONE && x + radius < (border.bottom_right.x as i128)
            * WIDE_ONE && y + radius < (border.bottom_right.y as i128) * WIDE_ONE {
            return false;
        }
        true
    }
}

} // verus!
