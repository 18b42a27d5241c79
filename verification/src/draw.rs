//! Lines and filled triangles as lists of pixels.
//!
//! The points of a line come from the `bresenham` crate. Nothing is proved
//! about which points those are; what is proved is what this module makes of
//! them.

use crate::geometry::Point;
use bresenham::Bresenham;
use crate::sequences::lemma_take_step;
use vstd::prelude::*;

verus! {

/// Largest coordinate that a line may start or end on.
pub const LINE_MAX: usize = 65535;

/// The points that the `bresenham` crate's line iterator yields on its way
/// from `start` to `end`, in the order it yields them.
pub uninterp spec fn bresenham_points(start: (isize, isize), end: (isize, isize)) -> Seq<(isize, isize)>;

/// Both coordinates of `p` can be the end of a line.
pub open spec fn on_canvas(p: Point) -> bool {
    p.x <= LINE_MAX && p.y <= LINE_MAX
}

/// A pixel as a pair of signed numbers.
pub open spec fn corner(p: Point) -> (isize, isize) {
    (p.x as isize, p.y as isize)
}

/// Collects what `bresenham::Bresenham::new(start, end)` yields.
///
/// Believed, not proved: that the iterator ends, that it yields the same
/// points whenever it is given the same two ends, and what the crate says of
/// its lines: that they begin with `start` and stop short of `end`. The ends
/// are kept small so that none of the iterator's own sums and differences can
/// overflow.
#[verifier::external_body]
fn line_points(start: (isize, isize), end: (isize, isize)) -> (points: Vec<(isize, isize)>)
    requires
        0 <= start.0 <= LINE_MAX,
        0 <= start.1 <= LINE_MAX,
        0 <= end.0 <= LINE_MAX,
        0 <= end.1 <= LINE_MAX,
    ensures
        points@ == bresenham_points(start, end),
        start != end ==> points@.len() > 0 && points@[0] == start,
        forall|i: int| 0 <= i < points@.len() ==> points@[i] != end,
{
    Bresenham::new(start, end).collect()
}

/// Those of `points` that name a pixel, in order.
pub open spec fn as_pixels(points: Seq<(isize, isize)>) -> Seq<Point>
    decreases points.len(),
{
    if points.len() == 0 {
        Seq::empty()
    } else if points.last().0 >= 0 && points.last().1 >= 0 {
        as_pixels(points.drop_last()).push(
            Point { x: points.last().0 as usize, y: points.last().1 as usize },
        )
    } else {
        as_pixels(points.drop_last())
    }
}

/// Those of `points` that lie in row `y`, in order.
pub open spec fn row_of(points: Seq<(isize, isize)>, y: int) -> Seq<(isize, isize)>
    decreases points.len(),
{
    if points.len() == 0 {
        Seq::empty()
    } else if points.last().1 == y {
        row_of(points.drop_last(), y).push(points.last())
    } else {
        row_of(points.drop_last(), y)
    }
}

/// The pixels of row `y` from `from` to `to`, both included, left to right.
pub open spec fn run(from: int, to: int, y: int) -> Seq<Point> {
    if to < from {
        Seq::empty()
    } else {
        Seq::new((to - from + 1) as nat, |i: int| Point { x: (from + i) as usize, y: y as usize })
    }
}

/// The pixels between the first and the last point of `row`, both included,
/// as far as they have a column that is not negative.
pub open spec fn span(row: Seq<(isize, isize)>, y: int) -> Seq<Point> {
    if row.len() == 0 {
        Seq::empty()
    } else {
        let a = row.first().0;
        let b = row.last().0;
        let left = if a < b {
            a
        } else {
            b
        };
        let right = if a < b {
            b
        } else {
            a
        };
        run(
            if left < 0 {
                0
            } else {
                left as int
            },
            right as int,
            y,
        )
    }
}

/// The spans of the first `count` rows from row `top` down.
pub open spec fn fill_rows(outline: Seq<(isize, isize)>, top: int, count: nat) -> Seq<Point>
    decreases count,
{
    if count == 0 {
        Seq::empty()
    } else {
        fill_rows(outline, top, (count - 1) as nat) + span(
            row_of(outline, top + count - 1),
            top + count - 1,
        )
    }
}

/// The three sides of a triangle, each from one corner up to the next.
pub open spec fn sides(points: [Point; 3]) -> Seq<(isize, isize)> {
    bresenham_points(corner(points[0]), corner(points[1])) + bresenham_points(
        corner(points[1]),
        corner(points[2]),
    ) + bresenham_points(corner(points[2]), corner(points[0]))
}

pub open spec fn least(a: int, b: int, c: int) -> int {
    if a <= b && a <= c {
        a
    } else if b <= c {
        b
    } else {
        c
    }
}

pub open spec fn greatest(a: int, b: int, c: int) -> int {
    if a >= b && a >= c {
        a
    } else if b >= c {
        b
    } else {
        c
    }
}

/// The pixels of a filled triangle: row after row from its highest corner to
/// its lowest, in each row the span of the points that its sides have there.
pub open spec fn filled(points: [Point; 3]) -> Seq<Point> {
    let top = least(points[0].y as int, points[1].y as int, points[2].y as int);
    let bottom = greatest(points[0].y as int, points[1].y as int, points[2].y as int);
    fill_rows(sides(points), top, (bottom - top + 1) as nat)
}

/// Every pixel of `as_pixels(points)` is one of `points`, and where the first
/// of `points` names a pixel, that pixel comes first.
pub proof fn lemma_pixels_are_points(points: Seq<(isize, isize)>)
    ensures
        forall|i: int|
            0 <= i < as_pixels(points).len() ==> exists|k: int|
                0 <= k < points.len() && points[k] == corner(#[trigger] as_pixels(points)[i])
                    && points[k].0 >= 0 && points[k].1 >= 0,
        points.len() > 0 && points[0].0 >= 0 && points[0].1 >= 0 ==> as_pixels(points).len() > 0
            && as_pixels(points)[0] == (Point { x: points[0].0 as usize, y: points[0].1 as usize }),
    decreases points.len(),
{
    if points.len() > 0 {
        let before = points.drop_last();
        lemma_pixels_are_points(before);
        let pixels = as_pixels(points);
        assert forall|i: int| 0 <= i < pixels.len() implies exists|k: int|
            0 <= k < points.len() && points[k] == corner(#[trigger] pixels[i]) && points[k].0 >= 0
                && points[k].1 >= 0 by {
            if i < as_pixels(before).len() {
                assert(pixels[i] == as_pixels(before)[i]);
                let k = choose|k: int|
                    0 <= k < before.len() && before[k] == corner(as_pixels(before)[i]) && before[k].0
                        >= 0 && before[k].1 >= 0;
                assert(points[k] == before[k]);
            } else {
                assert(points[points.len() - 1] == corner(pixels[i]));
            }
        }
        if before.len() > 0 {
            assert(before[0] == points[0]);
        }
    }
}

/// The pixels of the line from `start` up to `end`: `start` is the first of
/// them unless the two are one pixel, and `end` is none of them.
pub fn draw_line(start: Point, end: Point) -> (pixels: Vec<Point>)
    requires
        on_canvas(start),
        on_canvas(end),
    ensures
        pixels@ == as_pixels(bresenham_points(corner(start), corner(end))),
        start != end ==> pixels@.len() > 0 && pixels@[0] == start,
        forall|i: int| 0 <= i < pixels@.len() ==> pixels@[i] != end,
{
    let bi = line_points((start.x as isize, start.y as isize), (end.x as isize, end.y as isize));
    let mut pixels: Vec<Point> = Vec::new();
    let mut k: usize = 0;
    while k < bi.len()
        invariant
            k <= bi@.len(),
            pixels@ == as_pixels(bi@.take(k as int)),
        decreases bi@.len() - k,
    {
        proof {
            lemma_take_step(bi@, k as int);
        }
        let p = bi[k];
        if p.0 >= 0 && p.1 >= 0 {
            pixels.push(Point { x: p.0 as usize, y: p.1 as usize });
        }
        k += 1;
    }
    proof {
        assert(bi@.take(bi@.len() as int) =~= bi@);
        lemma_pixels_are_points(bi@);
        assert forall|i: int| 0 <= i < pixels@.len() implies pixels@[i] != end by {
            let k = choose|k: int|
                0 <= k < bi@.len() && bi@[k] == corner(pixels@[i]) && bi@[k].0 >= 0 && bi@[k].1 >= 0;
            assert(bi@[k] != corner(end));
        }
    }
    pixels
}

/// Sorts the points of one side into the rows they lie in.
fn sort_side(
    rows: &mut Vec<Vec<(isize, isize)>>,
    side: &Vec<(isize, isize)>,
    y_offset: usize,
    Ghost(seen): Ghost<Seq<(isize, isize)>>,
)
    requires
        y_offset <= LINE_MAX,
        old(rows)@.len() <= LINE_MAX + 1,
        forall|j: int| 0 <= j < old(rows)@.len() ==> (#[trigger] old(rows)@[j])@ == row_of(seen, y_offset + j),
    ensures
        final(rows)@.len() == old(rows)@.len(),
        forall|j: int|
            0 <= j < final(rows)@.len() ==> (#[trigger] final(rows)@[j])@ == row_of(
                seen + side@,
                y_offset + j,
            ),
{
    let mut k: usize = 0;
    assert(seen + side@.take(0) =~= seen);
    while k < side.len()
        invariant
            k <= side@.len(),
            y_offset <= LINE_MAX,
            rows@.len() == old(rows)@.len(),
            rows@.len() <= LINE_MAX + 1,
            forall|j: int|
                0 <= j < rows@.len() ==> (#[trigger] rows@[j])@ == row_of(
                    seen + side@.take(k as int),
                    y_offset + j,
                ),
        decreases side@.len() - k,
    {
        let p = side[k];
        let ghost before = seen + side@.take(k as int);
        let ghost after = seen + side@.take(k + 1);
        proof {
            assert(after.drop_last() =~= before);
            assert(after.last() == p);
        }
        if p.1 >= y_offset as isize && ((p.1 - y_offset as isize) as usize) < rows.len() {
            let j: usize = (p.1 - y_offset as isize) as usize;
            rows[j].push(p);
        }
        k += 1;
    }
    assert(side@.take(side@.len() as int) =~= side@);
}

/// The pixels of the triangle with corners `points`, filled.
pub fn draw_triangle(points: [Point; 3]) -> (pixels: Vec<Point>)
    requires
        on_canvas(points[0]),
        on_canvas(points[1]),
        on_canvas(points[2]),
    ensures
        pixels@ == filled(points),
{
    let i_y_min: usize;
    let i_y_max: usize;
    if points[0].y < points[1].y {
        if points[0].y < points[2].y {
            i_y_min = 0
        } else {
            i_y_min = 2;
        }
    } else if points[1].y < points[2].y {
        i_y_min = 1;
    } else {
        i_y_min = 2;
    }
    if points[0].y > points[1].y {
        if points[0].y > points[2].y {
            i_y_max = 0
        } else {
            i_y_max = 2;
        }
    } else if points[1].y > points[2].y {
        i_y_max = 1;
    } else {
        i_y_max = 2;
    }
    let y_offset: usize = points[i_y_min].y;
    let range: usize = points[i_y_max].y - points[i_y_min].y;
    let ghost top = least(points[0].y as int, points[1].y as int, points[2].y as int);
    let ghost bottom = greatest(points[0].y as int, points[1].y as int, points[2].y as int);
    assert(y_offset == top && y_offset + range == bottom);

    let mut sorted_rows: Vec<Vec<(isize, isize)>> = Vec::new();
    let mut r: usize = 0;
    while r < range + 1
        invariant
            r <= range + 1,
            range <= LINE_MAX,
            sorted_rows@.len() == r,
            forall|j: int| 0 <= j < r ==> (#[trigger] sorted_rows@[j])@ == Seq::<(isize, isize)>::empty(),
        decreases range + 1 - r,
    {
        sorted_rows.push(Vec::new());
        r += 1;
    }
    let a = (points[0].x as isize, points[0].y as isize);
    let b = (points[1].x as isize, points[1].y as isize);
    let c = (points[2].x as isize, points[2].y as isize);
    let ghost none = Seq::<(isize, isize)>::empty();
    let first = line_points(a, b);
    sort_side(&mut sorted_rows, &first, y_offset, Ghost(none));
    let second = line_points(b, c);
    sort_side(&mut sorted_rows, &second, y_offset, Ghost(none + first@));
    let third = line_points(c, a);
    sort_side(&mut sorted_rows, &third, y_offset, Ghost(none + first@ + second@));
    let ghost outline = sides(points);
    assert(none + first@ + second@ + third@ =~= outline);

    let mut pixels: Vec<Point> = Vec::new();
    let mut j: usize = 0;
    while j < sorted_rows.len()
        invariant
            j <= sorted_rows@.len(),
            sorted_rows@.len() == range + 1,
            y_offset + range <= LINE_MAX,
            forall|m: int|
                0 <= m < sorted_rows@.len() ==> (#[trigger] sorted_rows@[m])@ == row_of(
                    outline,
                    y_offset + m,
                ),
            pixels@ == fill_rows(outline, y_offset as int, j as nat),
        decreases sorted_rows@.len() - j,
    {
        let row = &sorted_rows[j];
        let y_: usize = y_offset + j;
        let ghost done = pixels@;
        if row.len() > 0 {
            let first_x: isize = row[0].0;
            let last_x: isize = row[row.len() - 1].0;
            let (x_min, x_max) = if first_x < last_x {
                (first_x, last_x)
            } else {
                (last_x, first_x)
            };
            let from: isize = if x_min < 0 {
                0
            } else {
                x_min
            };
            if from <= x_max {
                let mut x_: isize = from;
                loop
                    invariant_except_break
                        pixels@ == done + run(from as int, x_ - 1, y_ as int),
                    invariant
                        0 <= from <= x_ <= x_max,
                    ensures
                        pixels@ == done + run(from as int, x_max as int, y_ as int),
                    decreases x_max - x_,
                {
                    pixels.push(Point { x: x_ as usize, y: y_ });
                    assert(pixels@ =~= done + run(from as int, x_ as int, y_ as int));
                    if x_ == x_max {
                        break ;
                    }
                    x_ += 1;
                }
            } else {
                assert(pixels@ =~= done + run(from as int, x_max as int, y_ as int));
            }
            assert(pixels@ == done + span(row@, y_ as int));
        } else {
            assert(pixels@ =~= done + span(row@, y_ as int));
        }
        j += 1;
    }
    pixels
}

} // verus!
