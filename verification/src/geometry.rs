//! Vectors, pixels and boxes.
//!
//! A [`Vector2D`] holds sub-pixel coordinates (see [`crate::fixed`]); a
//! [`Coord`] and a [`Point`] name whole pixels.

use crate::display::{GameColor, Pixel};
use crate::fixed::{div_toward_zero, whole_part, ONE, WIDE_ONE};
use vstd::arithmetic::div_mod::lemma_fundamental_div_mod_converse;
use vstd::prelude::*;

verus! {

/// Largest magnitude of a coordinate that takes part in geometry: 16384 pixels.
pub const COORD_MAX: i64 = 1_073_741_824;

/// Number of whole degrees in a full turn.
pub const FULL_TURN: u32 = 360;

/// A vector (or a position) in sub-pixel units.
#[derive(Copy, Clone, Debug, PartialEq, Eq, Structural)]
pub struct Vector2D {
    pub x: i64,
    pub y: i64,
}

/// Sines and cosines of the whole degrees of a circle, in sub-pixel units.
///
/// Entry `d` is `(cos d, sin d)` scaled by [`ONE`]. The table is data: the
/// library checks that there is an entry for each degree and that each is
/// as long as a unit vector, not which way it points.
pub struct TrigTable {
    pub entries: Vec<Vector2D>,
}

/// The square of 1.0.
pub const ONE_SQ: i64 = 4_294_967_296;

/// How far the squared length of a unit vector may lie off the square of 1.0
/// once both coordinates are rounded to whole units.
pub const UNIT_SLACK: i64 = 131_072;

/// `v` is a unit vector, as nearly as whole units allow.
pub open spec fn is_unit_entry(v: Vector2D) -> bool {
    &&& -ONE <= v.x <= ONE
    &&& -ONE <= v.y <= ONE
    &&& ONE_SQ - UNIT_SLACK <= v.x * v.x + v.y * v.y <= ONE_SQ + UNIT_SLACK
}

/// What a table has to look like: one entry for each degree, each of them a
/// unit vector.
pub open spec fn is_trig_table(entries: Seq<Vector2D>) -> bool {
    &&& entries.len() == FULL_TURN
    &&& forall|d: int| 0 <= d < entries.len() ==> is_unit_entry(#[trigger] entries[d])
}

impl TrigTable {
    pub open spec fn wf(&self) -> bool {
        is_trig_table(self.entries@)
    }

    /// Accepts `entries` as a table if it has the right shape.
    pub fn new(entries: Vec<Vector2D>) -> (table: Option<TrigTable>)
        ensures
            table.is_some() == is_trig_table(entries@),
            table.is_some() ==> table.unwrap().wf() && table.unwrap().entries@ == entries@,
    {
        if entries.len() != FULL_TURN as usize {
            return None;
        }
        let mut d: usize = 0;
        while d < entries.len()
            invariant
                d <= entries.len(),
                entries.len() == FULL_TURN,
                forall|k: int| 0 <= k < d ==> is_unit_entry(#[trigger] entries@[k]),
            decreases entries.len() - d,
        {
            let e = entries[d];
            if e.x < -ONE || e.x > ONE || e.y < -ONE || e.y > ONE {
                return None;
            }
            proof {
                lemma_square_bound(e.x as int, ONE as int);
                lemma_square_bound(e.y as int, ONE as int);
            }
            let norm_sq: i64 = e.x * e.x + e.y * e.y;
            if norm_sq < ONE_SQ - UNIT_SLACK || norm_sq > ONE_SQ + UNIT_SLACK {
                return None;
            }
            d += 1;
        }
        Some(TrigTable { entries })
    }

    /// The unit vector at `angle` degrees.
    pub fn unit(&self, angle: u32) -> (u: Vector2D)
        requires
            self.wf(),
        ensures
            u == self.entries@[(angle % FULL_TURN) as int],
            is_unit_entry(u),
    {
        self.entries[(angle % FULL_TURN) as usize]
    }
}

/// `r` is the whole part of the square root of `n`.
pub open spec fn is_floor_sqrt(r: int, n: int) -> bool {
    0 <= r && r * r <= n < (r + 1) * (r + 1)
}

/// Only one number is the whole part of a square root.
pub proof fn lemma_floor_sqrt_unique(r: int, q: int, n: int)
    requires
        is_floor_sqrt(r, n),
        is_floor_sqrt(q, n),
    ensures
        r == q,
{
    assert(r == q) by (nonlinear_arith)
        requires
            0 <= r,
            0 <= q,
            r * r <= n < (r + 1) * (r + 1),
            q * q <= n < (q + 1) * (q + 1),
    ;
}

/// Whole part of the square root of `n`.
pub fn floor_sqrt(n: u64) -> (r: u64)
    ensures
        is_floor_sqrt(r as int, n as int),
        r <= u32::MAX,
{
    let mut lo: u64 = 0;
    let mut hi: u64 = 0x1_0000_0000;
    assert(0x1_0000_0000 * 0x1_0000_0000 > n) by (nonlinear_arith)
        requires
            n <= u64::MAX,
    ;
    while hi - lo > 1
        invariant
            lo < hi <= 0x1_0000_0000,
            lo * lo <= n < hi * hi,
        decreases hi - lo,
    {
        let mid: u64 = lo + (hi - lo) / 2;
        assert(mid * mid <= 0xffff_ffff * 0xffff_ffff) by (nonlinear_arith)
            requires
                0 <= mid <= 0xffff_ffff,
        ;
        if mid * mid <= n {
            lo = mid;
        } else {
            hi = mid;
        }
    }
    lo
}

impl Vector2D {
    /// Both coordinates are at most `bound` in magnitude.
    pub open spec fn within(self, bound: int) -> bool {
        -bound <= self.x <= bound && -bound <= self.y <= bound
    }

    /// The vector can stand for a position.
    pub open spec fn in_range(self) -> bool {
        self.within(COORD_MAX as int)
    }

    /// The vector can be the difference of two positions.
    pub open spec fn is_span(self) -> bool {
        self.within(2 * COORD_MAX)
    }

    pub open spec fn dot_product(self, other: Vector2D) -> int {
        self.x * other.x + self.y * other.y
    }

    pub open spec fn cross_product(self, other: Vector2D) -> int {
        self.x * other.y - self.y * other.x
    }

    /// Squared length.
    pub open spec fn norm_sq(self) -> int {
        self.dot_product(self)
    }

    pub open spec fn minus(self, other: Vector2D) -> Vector2D {
        Vector2D { x: (self.x - other.x) as i64, y: (self.y - other.y) as i64 }
    }

    pub open spec fn plus(self, other: Vector2D) -> Vector2D {
        Vector2D { x: (self.x + other.x) as i64, y: (self.y + other.y) as i64 }
    }

    /// The vector scaled by the fixed-point factor `scalar`, each coordinate
    /// rounded toward zero.
    pub open spec fn scaled(self, scalar: i64) -> Vector2D {
        Vector2D {
            x: div_toward_zero(self.x * scalar, ONE as int) as i64,
            y: div_toward_zero(self.y * scalar, ONE as int) as i64,
        }
    }

    /// The vector turned by the angle whose cosine and sine are `unit.x` and
    /// `unit.y`, each coordinate rounded toward zero.
    pub open spec fn rotated(self, unit: Vector2D) -> Vector2D {
        Vector2D {
            x: div_toward_zero(unit.x * self.x - unit.y * self.y, ONE as int) as i64,
            y: div_toward_zero(unit.y * self.x + unit.x * self.y, ONE as int) as i64,
        }
    }

    /// Whole part of the length.
    pub open spec fn whole_length(self) -> int {
        choose|r: int| is_floor_sqrt(r, self.norm_sq())
    }

    /// The vector divided by `len`, each coordinate rounded toward zero.
    pub open spec fn normalized_by(self, len: int) -> Vector2D {
        Vector2D {
            x: div_toward_zero(self.x * ONE, len) as i64,
            y: div_toward_zero(self.y * ONE, len) as i64,
        }
    }

    /// A position given in whole pixels.
    pub fn from_pixels(x: i32, y: i32) -> (v: Vector2D)
        ensures
            v.x == x * ONE,
            v.y == y * ONE,
    {
        Vector2D { x: (x as i64) * ONE, y: (y as i64) * ONE }
    }

    /// Turns the vector by `angle` degrees, clockwise on a screen whose y axis
    /// points down.
    pub fn rotate(self, angle: u32, trig: &TrigTable) -> (turned: Vector2D)
        requires
            trig.wf(),
            self.in_range(),
        ensures
            turned == self.rotated(trig.entries@[(angle % FULL_TURN) as int]),
            turned.is_span(),
    {
        let u = trig.unit(angle);
        let x: i128 = self.x as i128;
        let y: i128 = self.y as i128;
        let c: i128 = u.x as i128;
        let s: i128 = u.y as i128;
        proof {
            lemma_product_bound(c as int, x as int, ONE as int, COORD_MAX as int);
            lemma_product_bound(s as int, y as int, ONE as int, COORD_MAX as int);
            lemma_product_bound(s as int, x as int, ONE as int, COORD_MAX as int);
            lemma_product_bound(c as int, y as int, ONE as int, COORD_MAX as int);
        }
        let rx: i128 = whole_part(c * x - s * y);
        let ry: i128 = whole_part(s * x + c * y);
        Vector2D { x: rx as i64, y: ry as i64 }
    }

    /// Whole part of the length.
    pub fn length(self) -> (len: u64)
        requires
            self.is_span(),
        ensures
            is_floor_sqrt(len as int, self.norm_sq()),
            len == self.whole_length(),
    {
        let n: i128 = self.dot(self);
        proof {
            lemma_square_bound(self.x as int, 2 * COORD_MAX);
            lemma_square_bound(self.y as int, 2 * COORD_MAX);
        }
        let len: u64 = floor_sqrt(n as u64);
        proof {
            lemma_floor_sqrt_unique(len as int, self.whole_length(), self.norm_sq());
        }
        len
    }

    /// Dot product, exact.
    pub fn dot(self, other: Vector2D) -> (d: i128)
        requires
            self.is_span(),
            other.is_span(),
        ensures
            d == self.dot_product(other),
    {
        proof {
            lemma_product_bound(self.x as int, other.x as int, 2 * COORD_MAX, 2 * COORD_MAX);
            lemma_product_bound(self.y as int, other.y as int, 2 * COORD_MAX, 2 * COORD_MAX);
        }
        (self.x as i128) * (other.x as i128) + (self.y as i128) * (other.y as i128)
    }

    /// The vector brought to length 1.0, as far as whole sub-pixel units allow.
    pub fn normalized(self) -> (unit: Vector2D)
        requires
            self.in_range(),
            self.x != 0 || self.y != 0,
        ensures
            self.whole_length() > 0,
            unit == self.normalized_by(self.whole_length()),
            unit.within(ONE as int),
    {
        let l: u64 = self.length();
        assert(l > 0) by (nonlinear_arith)
            requires
                self.x != 0 || self.y != 0,
                self.x * self.x + self.y * self.y < (l + 1) * (l + 1),
                l >= 0,
        ;
        let len: i128 = l as i128;
        let x: i128 = self.x as i128;
        let y: i128 = self.y as i128;
        proof {
            lemma_coordinate_below_length(self.x as int, self.y as int, l as int);
            lemma_coordinate_below_length(self.y as int, self.x as int, l as int);
            lemma_normalized_bound(self.x as int, l as int);
            lemma_normalized_bound(self.y as int, l as int);
        }
        let nx: i128 = x * WIDE_ONE / len;
        let ny: i128 = y * WIDE_ONE / len;
        Vector2D { x: nx as i64, y: ny as i64 }
    }

    /// Whole part of the distance between two positions.
    pub fn distance(self, other: Vector2D) -> (d: u64)
        requires
            self.in_range(),
            other.in_range(),
        ensures
            is_floor_sqrt(d as int, self.minus(other).norm_sq()),
            d == self.minus(other).whole_length(),
    {
        let vec = self - other;
        vec.length()
    }
}

/// A product of two bounded numbers is bounded by the product of the bounds.
pub proof fn lemma_product_bound(a: int, b: int, ma: int, mb: int)
    requires
        -ma <= a <= ma,
        -mb <= b <= mb,
    ensures
        -(ma * mb) <= a * b <= ma * mb,
{
    assert(-(ma * mb) <= a * b <= ma * mb) by (nonlinear_arith)
        requires
            -ma <= a <= ma,
            -mb <= b <= mb,
    ;
}

/// A square is never negative and is bounded by the square of the bound.
pub proof fn lemma_square_bound(a: int, m: int)
    requires
        -m <= a <= m,
    ensures
        0 <= a * a <= m * m,
{
    assert(0 <= a * a <= m * m) by (nonlinear_arith)
        requires
            -m <= a <= m,
    ;
}

/// No coordinate is longer than the vector: `|a| <= l` where `l` is the whole
/// part of the length of `(a, b)`.
proof fn lemma_coordinate_below_length(a: int, b: int, l: int)
    requires
        l >= 0,
        a * a + b * b < (l + 1) * (l + 1),
    ensures
        -l <= a <= l,
{
    assert(-l <= a <= l) by (nonlinear_arith)
        requires
            l >= 0,
            a * a + b * b < (l + 1) * (l + 1),
    ;
}

/// A coordinate divided by a length that is no shorter stays within 1.0.
proof fn lemma_normalized_bound(a: int, l: int)
    requires
        l > 0,
        -l <= a <= l,
    ensures
        -ONE <= div_toward_zero(a * ONE, l) <= ONE,
        -(l * ONE) <= a * ONE <= l * ONE,
{
    assert(-(l * ONE) <= a * ONE <= l * ONE) by (nonlinear_arith)
        requires
            -l <= a <= l,
    ;
    if a >= 0 {
        assert((a * ONE) / l <= ONE) by (nonlinear_arith)
            requires
                l > 0,
                0 <= a * ONE <= l * ONE,
        ;
        assert((a * ONE) / l >= 0) by (nonlinear_arith)
            requires
                l > 0,
                0 <= a * ONE,
        ;
    } else {
        assert((-(a * ONE)) / l <= ONE) by (nonlinear_arith)
            requires
                l > 0,
                0 <= -(a * ONE) <= l * ONE,
        ;
        assert((-(a * ONE)) / l >= 0) by (nonlinear_arith)
            requires
                l > 0,
                0 <= -(a * ONE),
        ;
    }
}

impl core::ops::Add for Vector2D {
    type Output = Vector2D;

    fn add(self, other: Vector2D) -> (sum: Vector2D) {
        Vector2D { x: self.x + other.x, y: self.y + other.y }
    }
}

impl vstd::std_specs::ops::AddSpecImpl for Vector2D {
    open spec fn obeys_add_spec() -> bool {
        true
    }

    open spec fn add_req(self, other: Vector2D) -> bool {
        &&& i64::MIN <= self.x + other.x <= i64::MAX
        &&& i64::MIN <= self.y + other.y <= i64::MAX
    }

    open spec fn add_spec(self, other: Vector2D) -> Vector2D {
        self.plus(other)
    }
}

impl core::ops::Sub for Vector2D {
    type Output = Vector2D;

    fn sub(self, other: Vector2D) -> (difference: Vector2D) {
        Vector2D { x: self.x - other.x, y: self.y - other.y }
    }
}

impl vstd::std_specs::ops::SubSpecImpl for Vector2D {
    open spec fn obeys_sub_spec() -> bool {
        true
    }

    open spec fn sub_req(self, other: Vector2D) -> bool {
        &&& i64::MIN <= self.x - other.x <= i64::MAX
        &&& i64::MIN <= self.y - other.y <= i64::MAX
    }

    open spec fn sub_spec(self, other: Vector2D) -> Vector2D {
        self.minus(other)
    }
}

impl core::ops::Mul<i64> for Vector2D {
    type Output = Vector2D;

    /// Scales the vector by a fixed-point factor.
    fn mul(self, scalar: i64) -> (product: Vector2D) {
        proof {
            lemma_product_bound(self.x as int, scalar as int, COORD_MAX as int, COORD_MAX as int);
            lemma_product_bound(self.y as int, scalar as int, COORD_MAX as int, COORD_MAX as int);
        }
        let x: i128 = whole_part((self.x as i128) * (scalar as i128));
        let y: i128 = whole_part((self.y as i128) * (scalar as i128));
        Vector2D { x: x as i64, y: y as i64 }
    }
}

impl vstd::std_specs::ops::MulSpecImpl<i64> for Vector2D {
    open spec fn obeys_mul_spec() -> bool {
        true
    }

    open spec fn mul_req(self, scalar: i64) -> bool {
        self.in_range() && -COORD_MAX <= scalar <= COORD_MAX
    }

    open spec fn mul_spec(self, scalar: i64) -> Vector2D {
        self.scaled(scalar)
    }
}

/// A pixel, counted from the top left corner of the screen.
#[derive(Copy, Clone)]
pub struct Point {
    pub x: usize,
    pub y: usize,
}

impl core::ops::Add for Point {
    type Output = Point;

    fn add(self, other: Point) -> (sum: Point) {
        Point { x: self.x + other.x, y: self.y + other.y }
    }
}

impl vstd::std_specs::ops::AddSpecImpl for Point {
    open spec fn obeys_add_spec() -> bool {
        true
    }

    open spec fn add_req(self, other: Point) -> bool {
        self.x + other.x <= usize::MAX && self.y + other.y <= usize::MAX
    }

    open spec fn add_spec(self, other: Point) -> Point {
        Point { x: (self.x + other.x) as usize, y: (self.y + other.y) as usize }
    }
}

/// The pixel that holds the position `pixel + offset / ONE` along one axis.
pub open spec fn shifted_pixel(pixel: usize, offset: i64) -> int {
    (pixel * ONE + offset) / (ONE as int)
}

/// The shifted position is on the positive side and its pixel can be named.
pub open spec fn can_shift_pixel(pixel: usize, offset: i64) -> bool {
    0 <= pixel * ONE + offset && shifted_pixel(pixel, offset) <= usize::MAX
}

/// Moves a pixel by a sub-pixel offset along one axis.
fn shift_pixel(pixel: usize, offset: i64) -> (moved: usize)
    requires
        can_shift_pixel(pixel, offset),
    ensures
        moved == shifted_pixel(pixel, offset),
{
    let raw: i128 = (pixel as i128) * WIDE_ONE + (offset as i128);
    (raw / WIDE_ONE) as usize
}

impl core::ops::Add<Vector2D> for Point {
    type Output = Point;

    /// The pixel that holds the point moved by `other`.
    fn add(self, other: Vector2D) -> (sum: Point) {
        Point { x: shift_pixel(self.x, other.x), y: shift_pixel(self.y, other.y) }
    }
}

impl vstd::std_specs::ops::AddSpecImpl<Vector2D> for Point {
    open spec fn obeys_add_spec() -> bool {
        true
    }

    open spec fn add_req(self, other: Vector2D) -> bool {
        can_shift_pixel(self.x, other.x) && can_shift_pixel(self.y, other.y)
    }

    open spec fn add_spec(self, other: Vector2D) -> Point {
        Point {
            x: shifted_pixel(self.x, other.x) as usize,
            y: shifted_pixel(self.y, other.y) as usize,
        }
    }
}

impl core::ops::Add<Point> for Vector2D {
    type Output = Point;

    /// The pixel that holds `other` moved by this vector.
    fn add(self, other: Point) -> (sum: Point) {
        Point { x: shift_pixel(other.x, self.x), y: shift_pixel(other.y, self.y) }
    }
}

impl vstd::std_specs::ops::AddSpecImpl<Point> for Vector2D {
    open spec fn obeys_add_spec() -> bool {
        true
    }

    open spec fn add_req(self, other: Point) -> bool {
        can_shift_pixel(other.x, self.x) && can_shift_pixel(other.y, self.y)
    }

    open spec fn add_spec(self, other: Point) -> Point {
        Point {
            x: shifted_pixel(other.x, self.x) as usize,
            y: shifted_pixel(other.y, self.y) as usize,
        }
    }
}

/// A pixel position that may lie off the screen.
#[derive(Copy, Clone, Debug, PartialEq, Eq, Structural)]
pub struct Coord {
    pub x: i32,
    pub y: i32,
}

impl Coord {
    pub fn new(x: i32, y: i32) -> (c: Coord)
        ensures
            c.x == x,
            c.y == y,
    {
        Coord { x, y }
    }
}

/// Names the pixel `(t.0, t.1)`.
pub fn to_coord(t: (i32, i32)) -> (c: Coord)
    ensures
        c.x == t.0,
        c.y == t.1,
{
    Coord::new(t.0, t.1)
}

/// An axis-aligned box of pixels, corners included.
#[derive(Copy, Clone)]
pub struct AABBox {
    pub top_left: Coord,
    pub bottom_right: Coord,
}

impl AABBox {
    /// The box has a positive width and height.
    pub open spec fn wf(&self) -> bool {
        self.top_left.x < self.bottom_right.x && self.top_left.y < self.bottom_right.y
    }

    pub open spec fn contains(&self, point: Coord) -> bool {
        &&& self.top_left.x <= point.x <= self.bottom_right.x
        &&& self.top_left.y <= point.y <= self.bottom_right.y
    }

    /// A box from its corners. The corners have to be in order along both
    /// axes.
    pub fn new(top_left: Coord, bottom_right: Coord) -> (b: AABBox)
        requires
            top_left.x < bottom_right.x,
            top_left.y < bottom_right.y,
        ensures
            b.top_left == top_left,
            b.bottom_right == bottom_right,
            b.wf(),
    {
        AABBox { top_left, bottom_right }
    }

    pub fn inside(&self, point: Coord) -> (hit: bool)
        ensures
            hit == self.contains(point),
    {
        (self.top_left.x <= point.x && self.top_left.y <= point.y && point.x
            <= self.bottom_right.x && point.y <= self.bottom_right.y)
    }
}

/// Pixel `k` of a bitmap that is `width` pixels wide, drawn with its top left
/// corner at `pos`. Three bytes make a pixel: red, green, blue. Rows follow
/// each other from the top.
pub open spec fn image_pixel(data: Seq<u8>, width: u32, pos: Coord, k: int) -> Pixel {
    Pixel {
        x: (pos.x + k % (width as int)) as u32,
        y: (pos.y + k / (width as int)) as u32,
        color: GameColor {
            value: (data[3 * k] * 0x1_0000 + data[3 * k + 1] * 0x100 + data[3 * k + 2]) as u32,
        },
    }
}

/// A bitmap of `bytes` bytes in rows of `width` pixels can be drawn at `pos`:
/// it has a width, lies on the positive side, and its last pixel can be
/// named.
pub open spec fn image_fits(bytes: nat, width: u32, pos: Coord) -> bool {
    &&& 0 < width
    &&& 0 <= pos.x
    &&& 0 <= pos.y
    &&& pos.x + width <= i32::MAX
    &&& pos.y + bytes / 3 <= i32::MAX
}

/// Walks over the pixels of a bitmap.
pub struct ImgIterator {
    data: &'static [u8],
    i: usize,
    width: u32,
    pos: Coord,
    x: i32,
    y: i32,
}

impl ImgIterator {
    /// The bytes of the bitmap.
    pub closed spec fn data(&self) -> Seq<u8> {
        self.data@
    }

    pub closed spec fn width(&self) -> u32 {
        self.width
    }

    pub closed spec fn pos(&self) -> Coord {
        self.pos
    }

    /// Number of pixels handed out so far.
    pub closed spec fn count(&self) -> nat {
        (self.y * self.width + self.x) as nat
    }

    pub closed spec fn wf(&self) -> bool {
        &&& image_fits(self.data@.len(), self.width, self.pos)
        &&& 0 <= self.x < self.width
        &&& 0 <= self.y
        &&& self.i == 3 * (self.y * self.width + self.x)
        &&& self.i <= self.data@.len()
    }

    pub fn new(data: &'static [u8], width: u32, pos: Coord) -> (pixels: ImgIterator)
        requires
            image_fits(data@.len(), width, pos),
        ensures
            pixels.wf(),
            pixels.data() == data@,
            pixels.width() == width,
            pixels.pos() == pos,
            pixels.count() == 0,
    {
        let pixels = ImgIterator { data, width, pos, i: 0, x: 0, y: 0 };
        assert(pixels.y * pixels.width + pixels.x == 0) by (nonlinear_arith)
            requires
                pixels.y == 0,
                pixels.x == 0,
        ;
        pixels
    }

    /// The next pixel, or `None` when fewer than three bytes are left.
    pub fn next(&mut self) -> (pixel: Option<Pixel>)
        requires
            old(self).wf(),
        ensures
            final(self).wf(),
            final(self).data() == old(self).data(),
            final(self).width() == old(self).width(),
            final(self).pos() == old(self).pos(),
            3 * old(self).count() + 3 <= old(self).data().len() ==> pixel == Some(
                image_pixel(
                    old(self).data(),
                    old(self).width(),
                    old(self).pos(),
                    old(self).count() as int,
                ),
            ) && final(self).count() == old(self).count() + 1,
            3 * old(self).count() + 3 > old(self).data().len() ==> pixel.is_none() && final(self).count() == old(self).count(),
    {
        let ghost k = self.y * self.width + self.x;
        let ghost w = self.width as int;
        proof {
            assert(self.y * self.width >= 0) by (nonlinear_arith)
                requires
                    self.y >= 0,
                    self.width > 0,
            ;
        }
        if self.data.len() - self.i < 3 {
            return None;
        }
        let r: u32 = self.data[self.i] as u32;
        let g: u32 = self.data[self.i + 1] as u32;
        let b: u32 = self.data[self.i + 2] as u32;
        let color: u32 = r * 0x1_0000 + g * 0x100 + b;
        proof {
            lemma_fundamental_div_mod_converse(k, w, self.y as int, self.x as int);
            assert(self.y * w <= k);
            assert(self.y <= self.y * w) by (nonlinear_arith)
                requires
                    self.y >= 0,
                    w >= 1,
            ;
        }
        let pc = Pixel {
            x: (self.pos.x + self.x) as u32,
            y: (self.pos.y + self.y) as u32,
            color: GameColor { value: color },
        };
        let ghost y0 = self.y as int;
        self.i += 3;
        self.x += 1;
        if self.x as u32 >= self.width {
            self.x = 0;
            self.y += 1;
            assert((y0 + 1) * w == y0 * w + w) by (nonlinear_arith);
        }
        Some(pc)
    }
}

} // verus!
