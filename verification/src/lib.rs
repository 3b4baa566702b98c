//! A 2D integer co-ordinate value type for grid-based and spatial
//! algorithms, together with line rasterization between two co-ordinates.

use vstd::prelude::*;
pub mod line;

use vstd::arithmetic::div_mod::{
    lemma_div_is_ordered_by_denominator, lemma_div_nonincreasing, lemma_div_pos_is_pos,
};

verus! {

/// The magnitude of an integer.
pub open spec fn abs_val(v: int) -> int {
    if v < 0 {
        -v
    } else {
        v
    }
}

/// Integer division as the `/` operator of the underlying machine
/// integers computes it: the quotient of the magnitudes, rounded
/// toward zero, with the sign of the exact quotient.
pub open spec fn div_trunc(a: int, b: int) -> int {
    let q = abs_val(a) / abs_val(b);
    if (a < 0) != (b < 0) {
        -q
    } else {
        q
    }
}

/// Division of one co-ordinate component by a scalar, rounding toward zero.
fn div_round_to_zero(a: i32, b: i32) -> (r: i32)
    requires
        b != 0,
        !(a == i32::MIN && b == -1),
    ensures
        r == div_trunc(a as int, b as int),
{
    let a64 = a as i64;
    let b64 = b as i64;
    let ma = if a64 < 0 {
        -a64
    } else {
        a64
    };
    let mb = if b64 < 0 {
        -b64
    } else {
        b64
    };
    let q = ma / mb;
    proof {
        lemma_div_pos_is_pos(ma as int, mb as int);
        lemma_div_nonincreasing(ma as int, mb as int);
        if mb >= 2 {
            lemma_div_is_ordered_by_denominator(ma as int, 2, mb as int);
        }
    }
    if (a < 0) != (b < 0) {
        -q as i32
    } else {
        q as i32
    }
}

/// A 2D co-ordinate.
#[derive(PartialEq, Eq, Structural, Hash, Clone, Copy, Debug)]
pub struct Point {
    /// X co-ordinate
    pub x: i32,
    /// Y co-ordinate
    pub y: i32,
}

impl Point {
    /// Return a new point instance with given x and y positions.
    pub fn new(x: i32, y: i32) -> (r: Self)
        ensures
            r == (Point { x, y }),
    {
        Self { x, y }
    }

    /// The point at (0, 0).
    pub fn origin() -> (r: Self)
        ensures
            r == (Point { x: 0, y: 0 }),
    {
        Self { x: 0, y: 0 }
    }

    /// Returns the co-ordinate rotated about the origin by 90 degrees clockwise.
    pub fn rotate_90_cw(&self) -> (r: Self)
        requires
            self.x > i32::MIN,
        ensures
            r == self.rotate_90_cw_spec(),
    {
        Point::new(self.y, -self.x)
    }

    /// Rotates the co-ordinate in place about the origin by 90 degrees clockwise.
    pub fn rotate_90_cw_ip(&mut self)
        requires
            old(self).x > i32::MIN,
        ensures
            *final(self) == old(self).rotate_90_cw_spec(),
    {
        *self = self.rotate_90_cw();
    }

    /// Returns the co-ordinate rotated about the origin by 90 degrees anti-clockwise.
    pub fn rotate_90_acw(&self) -> (r: Self)
        requires
            self.y > i32::MIN,
        ensures
            r == self.rotate_90_acw_spec(),
    {
        Point::new(-self.y, self.x)
    }

    /// Rotates the co-ordinate in place about the origin by 90 degrees anti-clockwise.
    pub fn rotate_90_acw_ip(&mut self)
        requires
            old(self).y > i32::MIN,
        ensures
            *final(self) == old(self).rotate_90_acw_spec(),
    {
        *self = self.rotate_90_acw();
    }

    /// Returns the co-ordinate rotated about the origin by 180 degrees.
    pub fn rotate_180(&self) -> (r: Self)
        requires
            self.x > i32::MIN,
            self.y > i32::MIN,
        ensures
            r == self.rotate_180_spec(),
    {
        Point::new(-self.x, -self.y)
    }

    /// Rotates the co-ordinate in place about the origin by 180 degrees.
    pub fn rotate_180_ip(&mut self)
        requires
            old(self).x > i32::MIN,
            old(self).y > i32::MIN,
        ensures
            *final(self) == old(self).rotate_180_spec(),
    {
        *self = self.rotate_180();
    }

    /// Returns true if the point's x co-ordinate is less than max_x and
    /// greater than or equal to zero. Performs a similar check with the
    /// y co-ordinate. In all other cases, returns false.
    pub fn bounds_check(&self, max_x: i32, max_y: i32) -> (r: bool)
        ensures
            r == (0 <= self.x && self.x < max_x && 0 <= self.y && self.y < max_y),
    {
        0 <= self.x && self.x < max_x && 0 <= self.y && self.y < max_y
    }
}

/// Law: four 90-degree clockwise rotations return the point unchanged,
/// two 180-degree rotations return it unchanged, and a clockwise rotation
/// followed by an anti-clockwise one (or the reverse) is the identity.
pub proof fn lemma_rotation_cycles(p: Point)
    requires
        p.x > i32::MIN,
        p.y > i32::MIN,
    ensures
        p.rotate_90_cw_spec().rotate_90_cw_spec().rotate_90_cw_spec().rotate_90_cw_spec() == p,
        p.rotate_180_spec().rotate_180_spec() == p,
        p.rotate_90_cw_spec().rotate_90_acw_spec() == p,
        p.rotate_90_acw_spec().rotate_90_cw_spec() == p,
{
}

impl Point {
    /// What `rotate_90_cw` returns: (x, y) maps to (y, -x).
    pub open spec fn rotate_90_cw_spec(self) -> Point {
        Point { x: self.y, y: (-self.x) as i32 }
    }

    /// What `rotate_90_acw` returns: (x, y) maps to (-y, x).
    pub open spec fn rotate_90_acw_spec(self) -> Point {
        Point { x: (-self.y) as i32, y: self.x }
    }

    /// What `rotate_180` returns: (x, y) maps to (-x, -y).
    pub open spec fn rotate_180_spec(self) -> Point {
        Point { x: (-self.x) as i32, y: (-self.y) as i32 }
    }
}

impl Point {
    /// What `dir` returns: the magnitude of 2x + y + 1.
    pub open spec fn dir_spec(self) -> int {
        abs_val(2 * self.x + self.y + 1)
    }

    /// What `inv_dir` returns: the index two positions away from `dir`
    /// in a 4-cycle.
    pub open spec fn inv_dir_spec(self) -> int {
        if self.dir_spec() < 2 {
            self.dir_spec() + 2
        } else {
            self.dir_spec() - 2
        }
    }

    /// What `dist_squared` returns: the sum of the squared componentwise
    /// differences.
    pub open spec fn dist_squared_spec(self, other: Point) -> int {
        (self.x - other.x) * (self.x - other.x) + (self.y - other.y) * (self.y - other.y)
    }

    /// What `manhattan_dist` returns: the sum of the magnitudes of the
    /// componentwise differences.
    pub open spec fn manhattan_dist_spec(self, other: Point) -> int {
        abs_val(self.x - other.x) + abs_val(self.y - other.y)
    }

    /// What `bounds_check` returns: containment in [0, max_x) x [0, max_y).
    pub open spec fn in_bounds(self, max_x: int, max_y: int) -> bool {
        0 <= self.x && self.x < max_x && 0 <= self.y && self.y < max_y
    }

    /// The four orthogonal neighbours, in the fixed rotational order that
    /// starts at offset (1, 0) and takes successive 90-degree clockwise steps.
    pub open spec fn adjacent4(self) -> Seq<Point> {
        seq![
            Point { x: (self.x + 1) as i32, y: self.y },
            Point { x: self.x, y: (self.y - 1) as i32 },
            Point { x: (self.x - 1) as i32, y: self.y },
            Point { x: self.x, y: (self.y + 1) as i32 },
        ]
    }

    /// The eight orthogonal and diagonal neighbours, ordered by nested
    /// iteration over the x offset and then the y offset in {-1, 0, 1},
    /// skipping the zero offset.
    pub open spec fn adjacent8(self) -> Seq<Point> {
        seq![
            Point { x: (self.x - 1) as i32, y: (self.y - 1) as i32 },
            Point { x: (self.x - 1) as i32, y: self.y },
            Point { x: (self.x - 1) as i32, y: (self.y + 1) as i32 },
            Point { x: self.x, y: (self.y - 1) as i32 },
            Point { x: self.x, y: (self.y + 1) as i32 },
            Point { x: (self.x + 1) as i32, y: (self.y - 1) as i32 },
            Point { x: (self.x + 1) as i32, y: self.y },
            Point { x: (self.x + 1) as i32, y: (self.y + 1) as i32 },
        ]
    }

    /// Maps the four unit points to 0, 1, 2 and 3 for indexing a
    /// collection with 4 elements, via the magnitude of 2x + y + 1.
    ///
    /// > Note: Use of this method outside of the unit points
    /// > will return arbitrary and meaningless values.
    pub fn dir(&self) -> (r: usize)
        requires
            i32::MIN <= 2 * self.x <= i32::MAX,
            i32::MIN <= 2 * self.x + self.y <= i32::MAX,
            i32::MIN <= 2 * self.x + self.y + 1 <= i32::MAX,
        ensures
            r == self.dir_spec(),
    {
        let v: i32 = 2 * self.x + self.y + 1;
        if v == i32::MIN {
            0x8000_0000usize
        } else if v < 0 {
            (-v) as usize
        } else {
            v as usize
        }
    }

    /// Maps the four unit points to 2, 3, 0, and 1 for indexing a
    /// collection with 4 elements. Hits the index two away from
    /// the result of dir.
    ///
    /// > Note: Use of this method outside of the unit points
    /// > will return arbitrary and meaningless values.
    pub fn inv_dir(&self) -> (r: usize)
        requires
            i32::MIN <= 2 * self.x <= i32::MAX,
            i32::MIN <= 2 * self.x + self.y <= i32::MAX,
            i32::MIN <= 2 * self.x + self.y + 1 <= i32::MAX,
        ensures
            r == self.inv_dir_spec(),
    {
        let dir = self.dir();
        if dir < 2 {
            dir + 2
        } else {
            dir - 2
        }
    }

    /// Returns the squared Euclidean distance between self and other.
    pub fn dist_squared(self, other: Self) -> (r: i32)
        requires
            i32::MIN <= self.x - other.x <= i32::MAX,
            i32::MIN <= self.y - other.y <= i32::MAX,
            self.dist_squared_spec(other) <= i32::MAX,
        ensures
            r == self.dist_squared_spec(other),
    {
        let disp = self - other;
        proof {
            assert(disp.x * disp.x >= 0 && disp.y * disp.y >= 0) by (nonlinear_arith);
        }
        disp.x * disp.x + disp.y * disp.y
    }

    /// Returns the manhattan distance between self and other.
    pub fn manhattan_dist(self, other: Self) -> (r: i32)
        requires
            -i32::MAX <= self.x - other.x <= i32::MAX,
            -i32::MAX <= self.y - other.y <= i32::MAX,
            self.manhattan_dist_spec(other) <= i32::MAX,
        ensures
            r == self.manhattan_dist_spec(other),
    {
        let dx = self.x - other.x;
        let dy = self.y - other.y;
        let adx = if dx < 0 {
            -dx
        } else {
            dx
        };
        let ady = if dy < 0 {
            -dy
        } else {
            dy
        };
        adx + ady
    }

    /// Helper for converting an index into a two dimensional co-ordinate
    /// given the width of the space. It is assumed that the index is within
    /// the height boundary, so it is not required as an argument.
    pub fn convert_up(index: usize, width: usize) -> (r: Point)
        requires
            0 < width <= i32::MAX,
            index <= i32::MAX,
        ensures
            r.x == index as int % width as int,
            r.y == index as int / width as int,
    {
        proof {
            lemma_div_pos_is_pos(index as int, width as int);
            lemma_div_nonincreasing(index as int, width as int);
        }
        Point { x: (index % width) as i32, y: (index / width) as i32 }
    }

    /// Performs the inverse of convert_up; turns a point into an index
    /// given a width.
    pub fn convert_down(&self, width: usize) -> (r: usize)
        requires
            self.x >= 0,
            self.y >= 0,
            self.y * width + self.x <= usize::MAX,
        ensures
            r == self.y * width + self.x,
    {
        self.y as usize * width + self.x as usize
    }

    /// Returns every point with a distance of 1 away from the point,
    /// starting at offset (1, 0) and rotating clockwise three times.
    /// Does not include points with non integer co-ordinates.
    pub fn get_all_adjacent(&self) -> (r: Vec<Self>)
        requires
            i32::MIN < self.x < i32::MAX,
            i32::MIN < self.y < i32::MAX,
        ensures
            r@ == self.adjacent4(),
    {
        let mut points: Vec<Point> = Vec::new();
        points.push(Point::new(self.x + 1, self.y));
        points.push(Point::new(self.x, self.y - 1));
        points.push(Point::new(self.x - 1, self.y));
        points.push(Point::new(self.x, self.y + 1));
        proof {
            assert(points@ =~= self.adjacent4());
        }
        points
    }

    /// The same as get_all_adjacent, but also returns diagonally adjacent
    /// points, ordered by nested iteration over the x offset and then the
    /// y offset.
    pub fn get_all_adjacent_diagonal(&self) -> (r: Vec<Self>)
        requires
            i32::MIN < self.x < i32::MAX,
            i32::MIN < self.y < i32::MAX,
        ensures
            r@ == self.adjacent8(),
    {
        let mut points: Vec<Point> = Vec::new();
        points.push(Point::new(self.x - 1, self.y - 1));
        points.push(Point::new(self.x - 1, self.y));
        points.push(Point::new(self.x - 1, self.y + 1));
        points.push(Point::new(self.x, self.y - 1));
        points.push(Point::new(self.x, self.y + 1));
        points.push(Point::new(self.x + 1, self.y - 1));
        points.push(Point::new(self.x + 1, self.y));
        points.push(Point::new(self.x + 1, self.y + 1));
        proof {
            assert(points@ =~= self.adjacent8());
        }
        points
    }

    /// Returns an iterator over all the points on the line between src and
    /// dest, inclusive of both endpoints, enumerated by Bresenham's line
    /// algorithm.
    pub fn plot_line(src: Self, dest: Self) -> (r: line::LineIter)
        requires
            line::deltas_bounded(src, dest),
        ensures
            r.wf(),
            !r.is_done(),
            r.cur() == src,
            r.dest() == dest,
            r.points() == line::line_points(src, dest),
    {
        line::LineIter::new(src, dest)
    }

    /// Returns a vector of points wrapped in options that would be
    /// orthogonally adjacent to the point, in the order of
    /// `get_all_adjacent`. Takes a maximum x and y co-ordinate: a neighbour
    /// outside [0, max_x) x [0, max_y) is reported as `None`.
    pub fn get_adjacent(&self, max_x: i32, max_y: i32) -> (r: Vec<Option<Self>>)
        requires
            i32::MIN < self.x < i32::MAX,
            i32::MIN < self.y < i32::MAX,
        ensures
            r@.len() == 4,
            forall|i: int|
                0 <= i < 4 ==> r@[i] == (if self.adjacent4()[i].in_bounds(
                    max_x as int,
                    max_y as int,
                ) {
                    Some(self.adjacent4()[i])
                } else {
                    None::<Point>
                }),
    {
        let all = self.get_all_adjacent();
        let mut points: Vec<Option<Point>> = Vec::new();
        let mut i: usize = 0;
        while i < all.len()
            invariant
                all@ == self.adjacent4(),
                i <= 4,
                points@.len() == i,
                forall|j: int|
                    0 <= j < i ==> points@[j] == (if self.adjacent4()[j].in_bounds(
                        max_x as int,
                        max_y as int,
                    ) {
                        Some(self.adjacent4()[j])
                    } else {
                        None::<Point>
                    }),
            decreases 4 - i,
        {
            let p = all[i];
            if p.bounds_check(max_x, max_y) {
                points.push(Some(p));
            } else {
                points.push(None);
            }
            i = i + 1;
        }
        points
    }
}

/// Law: the four points returned by `get_all_adjacent` are exactly the
/// points at manhattan distance 1 from the given point, that is, those
/// differing from it by one unit on exactly one axis.
pub proof fn lemma_adjacent_is_unit_distance(p: Point)
    requires
        i32::MIN < p.x < i32::MAX,
        i32::MIN < p.y < i32::MAX,
    ensures
        p.adjacent4().len() == 4,
        forall|q: Point| #[trigger] p.adjacent4().contains(q) <==> p.manhattan_dist_spec(q) == 1,
{
    assert forall|q: Point|
        #[trigger] p.adjacent4().contains(q) <==> p.manhattan_dist_spec(q) == 1 by {
        if p.manhattan_dist_spec(q) == 1 {
            if q.x == p.x + 1 && q.y == p.y {
                assert(p.adjacent4()[0] == q);
            } else if q.x == p.x && q.y == p.y - 1 {
                assert(p.adjacent4()[1] == q);
            } else if q.x == p.x - 1 && q.y == p.y {
                assert(p.adjacent4()[2] == q);
            } else {
                assert(p.adjacent4()[3] == q);
            }
            assert(p.adjacent4().contains(q));
        }
    }
}

/// Law: the squared Euclidean distance is symmetric in its two points.
pub proof fn lemma_dist_squared_symmetric(p: Point, q: Point)
    ensures
        p.dist_squared_spec(q) == q.dist_squared_spec(p),
        p.manhattan_dist_spec(q) == q.manhattan_dist_spec(p),
{
    assert(p.dist_squared_spec(q) == q.dist_squared_spec(p)) by (nonlinear_arith);
}

/// Law: for a positive width, converting an index up to a co-ordinate
/// and back down with the same width yields the index: the y component
/// times the width plus the x component is the index again.
pub proof fn lemma_convert_round_trip(index: usize, width: usize)
    requires
        0 < width <= i32::MAX,
        index <= i32::MAX,
    ensures
        (index as int / width as int) * width + index as int % width as int == index,
{
    vstd::arithmetic::div_mod::lemma_fundamental_div_mod(index as int, width as int);
    assert((index as int / width as int) * width == width as int * (index as int
        / width as int)) by (nonlinear_arith);
}

/// Law: on the four unit points, `dir` takes each value in {0, 1, 2, 3}
/// exactly once, and `inv_dir` equals `(dir + 2) % 4`.
pub proof fn lemma_dir_unit_points()
    ensures
        (Point { x: 0i32, y: -1i32 }).dir_spec() == 0,
        (Point { x: -1i32, y: 0i32 }).dir_spec() == 1,
        (Point { x: 0i32, y: 1i32 }).dir_spec() == 2,
        (Point { x: 1i32, y: 0i32 }).dir_spec() == 3,
        (Point { x: 0i32, y: -1i32 }).inv_dir_spec() == ((Point { x: 0i32, y: -1i32 }).dir_spec() + 2) % 4,
        (Point { x: -1i32, y: 0i32 }).inv_dir_spec() == ((Point { x: -1i32, y: 0i32 }).dir_spec() + 2) % 4,
        (Point { x: 0i32, y: 1i32 }).inv_dir_spec() == ((Point { x: 0i32, y: 1i32 }).dir_spec() + 2) % 4,
        (Point { x: 1i32, y: 0i32 }).inv_dir_spec() == ((Point { x: 1i32, y: 0i32 }).dir_spec() + 2) % 4,
{
}

impl core::ops::Add for Point {
    type Output = Point;

    /// Returns a new point containing the sum of the points' x and y values.
    fn add(self, other: Point) -> Point {
        Point { x: self.x + other.x, y: self.y + other.y }
    }
}

impl vstd::std_specs::ops::AddSpecImpl for Point {
    open spec fn obeys_add_spec() -> bool {
        true
    }

    open spec fn add_req(self, rhs: Point) -> bool {
        &&& i32::MIN <= self.x + rhs.x <= i32::MAX
        &&& i32::MIN <= self.y + rhs.y <= i32::MAX
    }

    open spec fn add_spec(self, rhs: Point) -> Point {
        Point { x: (self.x + rhs.x) as i32, y: (self.y + rhs.y) as i32 }
    }
}

impl core::ops::Sub for Point {
    type Output = Point;

    /// Returns a new point containing the difference of the points' x and y values.
    fn sub(self, other: Point) -> Point {
        Point { x: self.x - other.x, y: self.y - other.y }
    }
}

impl vstd::std_specs::ops::SubSpecImpl for Point {
    open spec fn obeys_sub_spec() -> bool {
        true
    }

    open spec fn sub_req(self, rhs: Point) -> bool {
        &&& i32::MIN <= self.x - rhs.x <= i32::MAX
        &&& i32::MIN <= self.y - rhs.y <= i32::MAX
    }

    open spec fn sub_spec(self, rhs: Point) -> Point {
        Point { x: (self.x - rhs.x) as i32, y: (self.y - rhs.y) as i32 }
    }
}

impl core::ops::Neg for Point {
    type Output = Point;

    /// Returns a new point with the sign of each co-ordinate flipped.
    fn neg(self) -> Point {
        Point { x: -self.x, y: -self.y }
    }
}

impl vstd::std_specs::ops::NegSpecImpl for Point {
    open spec fn obeys_neg_spec() -> bool {
        true
    }

    open spec fn neg_req(self) -> bool {
        &&& self.x > i32::MIN
        &&& self.y > i32::MIN
    }

    open spec fn neg_spec(self) -> Point {
        Point { x: (-self.x) as i32, y: (-self.y) as i32 }
    }
}

impl core::ops::Div<i32> for Point {
    type Output = Point;

    /// Returns a new point containing each co-ordinate divided by the given
    /// divisor, rounding toward zero.
    fn div(self, other: i32) -> Point {
        Point { x: div_round_to_zero(self.x, other), y: div_round_to_zero(self.y, other) }
    }
}

impl vstd::std_specs::ops::DivSpecImpl<i32> for Point {
    open spec fn obeys_div_spec() -> bool {
        true
    }

    open spec fn div_req(self, rhs: i32) -> bool {
        &&& rhs != 0
        &&& !(self.x == i32::MIN && rhs == -1)
        &&& !(self.y == i32::MIN && rhs == -1)
    }

    open spec fn div_spec(self, rhs: i32) -> Point {
        Point {
            x: div_trunc(self.x as int, rhs as int) as i32,
            y: div_trunc(self.y as int, rhs as int) as i32,
        }
    }
}

impl From<(i32, i32)> for Point {
    /// Builds the point whose co-ordinates are the tuple's two components.
    fn from(val: (i32, i32)) -> Point {
        Point { x: val.0, y: val.1 }
    }
}

impl vstd::std_specs::convert::FromSpecImpl<(i32, i32)> for Point {
    open spec fn obeys_from_spec() -> bool {
        true
    }

    open spec fn from_spec(v: (i32, i32)) -> Point {
        Point { x: v.0, y: v.1 }
    }
}

impl From<Point> for (i32, i32) {
    /// Extracts the point's co-ordinates as a tuple.
    fn from(val: Point) -> (i32, i32) {
        (val.x, val.y)
    }
}

impl vstd::std_specs::convert::FromSpecImpl<Point> for (i32, i32) {
    open spec fn obeys_from_spec() -> bool {
        true
    }

    open spec fn from_spec(v: Point) -> (i32, i32) {
        (v.x, v.y)
    }
}

} // verus!
