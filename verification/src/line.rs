//! Line rasterization: an iterator over the discrete points on the line
//! between two co-ordinates, inclusive of both endpoints, produced by the
//! integer Bresenham algorithm.

use vstd::prelude::*;
use crate::{abs_val, Point};

verus! {

/// The largest combined axis delta a line session accepts. Keeping the
/// sum of the two axis magnitudes under this cap keeps every error
/// accumulator value, and its double, inside the 32-bit signed range.
pub open spec fn deltas_bounded(src: Point, dest: Point) -> bool {
    abs_val(dest.x - src.x) + abs_val(dest.y - src.y) <= 0x1fff_ffff
}

/// An iterator over the points on a line between and including two points.
pub struct LineIter {
    dx: i32,
    sx: i32,
    dy: i32,
    sy: i32,
    err: i32,
    cur_x: i32,
    cur_y: i32,
    end_x: i32,
    end_y: i32,
    done: bool,
}

impl LineIter {
    /// The number of x steps still to take before the x axis is exhausted.
    pub closed spec fn rx(self) -> int {
        if self.sx == 1 {
            self.end_x - self.cur_x
        } else {
            self.cur_x - self.end_x
        }
    }

    /// The number of y steps still to take before the y axis is exhausted.
    pub closed spec fn ry(self) -> int {
        if self.sy == 1 {
            self.end_y - self.cur_y
        } else {
            self.cur_y - self.end_y
        }
    }

    /// The point the session stands on: the next point it will report.
    pub closed spec fn cur(self) -> Point {
        Point { x: self.cur_x, y: self.cur_y }
    }

    /// The destination point of the session.
    pub closed spec fn dest(self) -> Point {
        Point { x: self.end_x, y: self.end_y }
    }

    /// Whether the session has reported its last point.
    pub closed spec fn is_done(self) -> bool {
        self.done
    }

    /// The session's invariant: the deltas describe the remaining walk,
    /// and while the session is live the error accumulator carries the
    /// exact balance of the steps taken so far, inside bounds that keep
    /// the arithmetic of a step within the 32-bit signed range.
    pub closed spec fn wf(self) -> bool {
        &&& self.dx >= 0
        &&& self.dy <= 0
        &&& (self.sx == 1 || self.sx == -1)
        &&& (self.sy == 1 || self.sy == -1)
        &&& 0 <= self.rx() <= self.dx
        &&& 0 <= self.ry() <= -self.dy
        &&& self.dx - self.dy <= 0x1fff_ffff
        &&& !self.done ==> {
            &&& self.err == self.dx + self.dy - self.dy * self.rx() - self.dx * self.ry()
            &&& 2 * (self.dy - self.dx) <= self.err <= 2 * (self.dx - self.dy)
        }
    }

    /// One transition of the session: either the walk advances by one
    /// step of at most one unit on each axis, or, if an axis that must
    /// still move has already reached the destination, the session ends.
    /// The x axis is considered before the y axis.
    pub closed spec fn step(self) -> LineIter {
        let e2 = 2 * self.err;
        if e2 >= self.dy && self.cur_x == self.end_x {
            LineIter { done: true, ..self }
        } else {
            let s1 = if e2 >= self.dy {
                LineIter {
                    err: (self.err + self.dy) as i32,
                    cur_x: (self.cur_x + self.sx) as i32,
                    ..self
                }
            } else {
                self
            };
            if e2 <= self.dx && s1.cur_y == s1.end_y {
                LineIter { done: true, ..s1 }
            } else if e2 <= self.dx {
                LineIter {
                    err: (s1.err + s1.dx) as i32,
                    cur_y: (s1.cur_y + s1.sy) as i32,
                    ..s1
                }
            } else {
                s1
            }
        }
    }
}

impl LineIter {
    /// The points the session has still to report, in order: the current
    /// point, then those of the stepped session, until the session ends.
    pub closed spec fn points(self) -> Seq<Point>
        decreases self.rx() + self.ry() + if self.is_done() {
            0int
        } else {
            2int
        },
        when self.wf()
    {
        if self.done {
            Seq::empty()
        } else {
            proof {
                lemma_step_preserves_wf(self);
            }
            seq![self.cur()] + self.step().points()
        }
    }

    /// The state a fresh session starts from: the source as current point,
    /// the axis deltas and step signs of the segment, and the error
    /// accumulator at the sum of the deltas.
    pub closed spec fn init(src: Point, dest: Point) -> LineIter {
        LineIter {
            dx: abs_val(dest.x - src.x) as i32,
            sx: if src.x < dest.x {
                1i32
            } else {
                -1i32
            },
            dy: (0 - abs_val(dest.y - src.y)) as i32,
            sy: if src.y < dest.y {
                1i32
            } else {
                -1i32
            },
            err: (abs_val(dest.x - src.x) - abs_val(dest.y - src.y)) as i32,
            cur_x: src.x,
            cur_y: src.y,
            end_x: dest.x,
            end_y: dest.y,
            done: false,
        }
    }

    /// Starts a line session that will report, one at a time, the points
    /// of the discrete line from src to dest, both included.
    pub fn new(src: Point, dest: Point) -> (r: LineIter)
        requires
            deltas_bounded(src, dest),
        ensures
            r == LineIter::init(src, dest),
            r.wf(),
            !r.is_done(),
            r.cur() == src,
            r.dest() == dest,
    {
        let cur_x = src.x;
        let end_x = dest.x;

        let cur_y = src.y;
        let end_y = dest.y;

        let dx = if end_x >= cur_x {
            end_x - cur_x
        } else {
            cur_x - end_x
        };
        let sx: i32 = if cur_x < end_x {
            1
        } else {
            -1
        };

        let dy = if end_y >= cur_y {
            cur_y - end_y
        } else {
            end_y - cur_y
        };
        let sy: i32 = if cur_y < end_y {
            1
        } else {
            -1
        };

        let err = dx + dy;

        let r = Self { dx, sx, dy, sy, err, cur_x, cur_y, end_x, end_y, done: false };
        proof {
            assert(r.rx() == r.dx);
            assert(r.ry() == 0 - r.dy);
            assert(r.dy * r.rx() + r.dx * r.ry() == 0) by (nonlinear_arith)
                requires
                    r.rx() == r.dx,
                    r.ry() == 0 - r.dy,
            ;
        }
        r
    }

    /// Reports the next point of the line, or `None` once the destination
    /// has been reported: the first point of what `points` holds, which
    /// afterwards holds the rest.
    pub fn next(&mut self) -> (r: Option<Point>)
        requires
            old(self).wf(),
        ensures
            final(self).wf(),
            final(self).dest() == old(self).dest(),
            old(self).points().len() == 0 ==> r is None && *final(self) == *old(self),
            old(self).points().len() > 0 ==> r == Some(old(self).points()[0])
                && final(self).points() == old(self).points().drop_first(),
    {
        if self.done {
            return None;
        }
        proof {
            lemma_step_preserves_wf(*self);
        }
        let nx = Point::new(self.cur_x, self.cur_y);
        let e2 = 2 * self.err;

        if e2 >= self.dy {
            if self.cur_x == self.end_x {
                self.done = true;
                proof {
                    assert(*self == old(self).step());
                    assert(old(self).points().drop_first() =~= self.points());
                }
                return Some(nx);
            }
            self.err = self.err + self.dy;
            self.cur_x = self.cur_x + self.sx;
        }
        if e2 <= self.dx {
            if self.cur_y == self.end_y {
                self.done = true;
                proof {
                    assert(*self == old(self).step());
                    assert(old(self).points().drop_first() =~= self.points());
                }
                return Some(nx);
            }
            self.err = self.err + self.dx;
            self.cur_y = self.cur_y + self.sy;
        }
        proof {
            assert(*self == old(self).step());
            assert(old(self).points().drop_first() =~= self.points());
        }
        Some(nx)
    }
}

/// Whether b lies at most one unit from a on each axis: the most a
/// single step of a line session may move.
pub open spec fn unit_step(a: Point, b: Point) -> bool {
    abs_val(b.x - a.x) <= 1 && abs_val(b.y - a.y) <= 1
}

/// Whether p lies, on each axis, between a and b inclusive: the line
/// between two points never leaves their bounding box.
pub open spec fn in_box(p: Point, a: Point, b: Point) -> bool {
    &&& (a.x <= p.x <= b.x || b.x <= p.x <= a.x)
    &&& (a.y <= p.y <= b.y || b.y <= p.y <= a.y)
}

/// The discrete line from src to dest, inclusive of both endpoints: all
/// the points a line session started on the two points reports, in order.
pub open spec fn line_points(src: Point, dest: Point) -> Seq<Point> {
    LineIter::init(src, dest).points()
}

impl LineIter {
    /// Drains the session: reports every remaining point of the line,
    /// in order, as one vector.
    pub fn collect_points(self) -> (v: Vec<Point>)
        requires
            self.wf(),
        ensures
            v@ == self.points(),
    {
        let ghost orig = self;
        let mut it = self;
        let mut v: Vec<Point> = Vec::new();
        loop
            invariant_except_break
                it.wf(),
                v@ + it.points() == orig.points(),
            ensures
                v@ == orig.points(),
            decreases it.points().len(),
        {
            let ghost pre = it;
            match it.next() {
                Some(p) => {
                    proof {
                        assert(v@.push(p) + it.points() =~= v@ + pre.points());
                    }
                    v.push(p);
                },
                None => {
                    proof {
                        assert(v@ + it.points() =~= v@);
                    }
                    break;
                },
            }
        }
        v
    }
}

impl LineIter {
    /// The distance the session has walked when it stands on p: each step
    /// moves the walk forward by one or two units of this measure, so the
    /// points a session reports strictly increase in it.
    spec fn walked(self, p: Point) -> int {
        (if self.sx == 1 {
            p.x as int
        } else {
            -p.x
        }) + (if self.sy == 1 {
            p.y as int
        } else {
            -p.y
        })
    }
}

/// Each point a live session has still to report stands strictly further
/// along the walk than the one before it.
proof fn lemma_points_monotone(s: LineIter)
    requires
        s.wf(),
        !s.is_done(),
    ensures
        forall|i: int, j: int|
            0 <= i < j < s.points().len() ==> s.walked(#[trigger] s.points()[i]) < s.walked(
                #[trigger] s.points()[j],
            ),
    decreases s.rx() + s.ry(),
{
    lemma_step_preserves_wf(s);
    let t = s.step();
    if t.is_done() {
        assert(s.points() =~= seq![s.cur()]);
    } else {
        lemma_points_monotone(t);
        assert forall|i: int, j: int|
            0 <= i < j < s.points().len() implies s.walked(#[trigger] s.points()[i]) < s.walked(
            #[trigger] s.points()[j],
        ) by {
            assert(t.points()[0] == t.cur());
            assert(s.walked(s.cur()) < s.walked(t.cur()));
            if i == 0 {
                assert(s.points()[j] == t.points()[j - 1]);
                if j - 1 > 0 {
                    assert(t.walked(t.points()[0]) < t.walked(t.points()[j - 1]));
                }
                assert(t.walked(t.points()[j - 1]) == s.walked(t.points()[j - 1]));
                assert(t.walked(t.points()[0]) == s.walked(t.cur()));
            } else {
                assert(s.points()[i] == t.points()[i - 1]);
                assert(s.points()[j] == t.points()[j - 1]);
                assert(t.walked(t.points()[i - 1]) < t.walked(t.points()[j - 1]));
                assert(t.walked(t.points()[i - 1]) == s.walked(t.points()[i - 1]));
                assert(t.walked(t.points()[j - 1]) == s.walked(t.points()[j - 1]));
            }
        }
    }
}

/// A freshly started session is well formed, stands on the source point,
/// and aims for the destination point.
pub proof fn lemma_init_wf(src: Point, dest: Point)
    requires
        deltas_bounded(src, dest),
    ensures
        LineIter::init(src, dest).wf(),
        !LineIter::init(src, dest).is_done(),
        LineIter::init(src, dest).cur() == src,
        LineIter::init(src, dest).dest() == dest,
{
    let r = LineIter::init(src, dest);
    assert(r.rx() == r.dx);
    assert(r.ry() == 0 - r.dy);
    assert(r.dy * r.rx() + r.dx * r.ry() == 0) by (nonlinear_arith)
        requires
            r.rx() == r.dx,
            r.ry() == 0 - r.dy,
    ;
}

/// Law: what a live session has still to report is never empty, begins
/// on its current point, ends exactly on its destination, stays inside
/// the bounding box of the two, moves by at most one unit on each axis
/// between consecutive points, and never reports the same point twice.
pub proof fn lemma_points_shape(s: LineIter)
    requires
        s.wf(),
        !s.is_done(),
    ensures
        s.points().len() >= 1,
        s.points().first() == s.cur(),
        s.points().last() == s.dest(),
        forall|i: int|
            0 <= i < s.points().len() - 1 ==> #[trigger] unit_step(s.points()[i], s.points()[i + 1]),
        forall|i: int, j: int|
            0 <= i < j < s.points().len() ==> #[trigger] s.points()[i] != #[trigger] s.points()[j],
        forall|i: int|
            0 <= i < s.points().len() ==> in_box(#[trigger] s.points()[i], s.cur(), s.dest()),
    decreases s.rx() + s.ry(),
{
    lemma_points_monotone(s);
    lemma_step_preserves_wf(s);
    let t = s.step();
    if t.is_done() {
        assert(t.points() =~= Seq::empty());
        assert(s.points() =~= seq![s.cur()]);
    } else {
        lemma_points_shape(t);
        assert forall|i: int|
            0 <= i < s.points().len() implies in_box(
            #[trigger] s.points()[i],
            s.cur(),
            s.dest(),
        ) by {
            if i > 0 {
                assert(s.points()[i] == t.points()[i - 1]);
                assert(in_box(t.points()[i - 1], t.cur(), t.dest()));
            }
        }
        assert forall|i: int|
            0 <= i < s.points().len() - 1 implies #[trigger] unit_step(
            s.points()[i],
            s.points()[i + 1],
        ) by {
            if i == 0 {
                assert(s.points()[1] == t.points()[0]);
                assert(t.points().first() == t.cur());
            } else {
                assert(0 <= i - 1 < t.points().len() - 1);
                assert(unit_step(t.points()[i - 1], t.points()[i - 1 + 1]));
                assert(s.points()[i] == t.points()[i - 1]);
                assert(s.points()[i + 1] == t.points()[i]);
            }
        }
    }
}

/// Law: the discrete line between two points is never empty, starts at
/// the source, ends exactly at the destination, stays inside the bounding
/// box of the two, moves by at most one unit on each axis between
/// consecutive points, and never holds the same point twice.
pub proof fn lemma_line_points_shape(src: Point, dest: Point)
    requires
        deltas_bounded(src, dest),
    ensures
        line_points(src, dest).len() >= 1,
        line_points(src, dest).first() == src,
        line_points(src, dest).last() == dest,
        forall|i: int|
            0 <= i < line_points(src, dest).len() - 1 ==> #[trigger] unit_step(
                line_points(src, dest)[i],
                line_points(src, dest)[i + 1],
            ),
        forall|i: int, j: int|
            0 <= i < j < line_points(src, dest).len() ==> #[trigger] line_points(src, dest)[i]
                != #[trigger] line_points(src, dest)[j],
        forall|i: int|
            0 <= i < line_points(src, dest).len() ==> in_box(
                #[trigger] line_points(src, dest)[i],
                src,
                dest,
            ),
{
    lemma_init_wf(src, dest);
    lemma_points_shape(LineIter::init(src, dest));
}

/// A live session's transition preserves the invariant, ends the walk
/// only on the destination point, and makes progress: either the session
/// ends, or the remaining step count drops.
pub proof fn lemma_step_preserves_wf(s: LineIter)
    requires
        s.wf(),
        !s.is_done(),
    ensures
        s.step().wf(),
        s.step().dest() == s.dest(),
        s.step().is_done() ==> s.cur() == s.dest(),
        s.step().is_done() ==> s.step().cur() == s.cur(),
        !s.step().is_done() ==> s.step().rx() + s.step().ry() < s.rx() + s.ry(),
        abs_val(s.step().cur().x - s.cur().x) <= 1,
        abs_val(s.step().cur().y - s.cur().y) <= 1,
{
    let e2 = 2 * s.err;
    let rx = s.rx();
    let ry = s.ry();
    assert(s.dy * 0 == 0) by (nonlinear_arith);
    assert(s.dx * 0 == 0) by (nonlinear_arith);
    if e2 >= s.dy && s.cur_x == s.end_x {
        // the x axis has been exhausted: show the y axis has been too
        assert(rx == 0);
        if ry >= 1 {
            assert(s.dx * ry >= s.dx * 1) by (nonlinear_arith)
                requires ry >= 1 && s.dx >= 0;
            assert(s.dy * rx == 0) by (nonlinear_arith)
                requires rx == 0;
            assert(s.err <= s.dy);
            assert(s.dy == 0);
            assert(ry == 0);
        }
        assert(s.cur() == s.dest());
    } else {
        let s1 = if e2 >= s.dy {
            LineIter { err: (s.err + s.dy) as i32, cur_x: (s.cur_x + s.sx) as i32, ..s }
        } else {
            s
        };
        if e2 >= s.dy {
            assert(rx >= 1);
            assert(s1.rx() == rx - 1);
            assert(s.dy * (rx - 1) == s.dy * rx - s.dy) by (nonlinear_arith);
        }
        if e2 <= s.dx && s1.cur_y == s1.end_y {
            // the y axis has been exhausted: show the x axis has been too
            assert(ry == 0);
            assert(s.dx * ry == 0) by (nonlinear_arith)
                requires ry == 0;
            if e2 >= s.dy {
                // an x step cannot land beside a y axis already spent
                assert(s.dy * rx <= s.dy * 1) by (nonlinear_arith)
                    requires rx >= 1 && s.dy <= 0;
                assert(s.err >= s.dx);
                assert(s.dx == 0);
                assert(false);
            }
            if rx >= 1 {
                assert(s.dy * rx <= s.dy * 1) by (nonlinear_arith)
                    requires rx >= 1 && s.dy <= 0;
                assert(false);
            }
            assert(s.cur() == s.dest());
        } else if e2 <= s.dx {
            assert(ry >= 1);
            assert(s.step().ry() == ry - 1);
            assert(s.dx * (ry - 1) == s.dx * ry - s.dx) by (nonlinear_arith);
        }
    }
}

} // verus!
