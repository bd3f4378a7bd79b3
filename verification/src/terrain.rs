//! The ground and the closed boundary of the map that it is part of.
//!
//! Coordinates are of any copyable type `T`: the terrain arranges them and
//! never computes with them.

use vstd::prelude::*;

verus! {

/// A point of the plane.
#[derive(Clone, Copy, Debug, PartialEq)]
pub struct Vec2<T> {
    pub x: T,
    pub y: T,
}

impl<T: Copy> Vec2<T> {
    pub fn new(x: T, y: T) -> (r: Self)
        ensures
            r == (Vec2 { x, y }),
    {
        Vec2 { x, y }
    }
}

/// The points `(x[i], y[i])`, as far as both coordinates go.
pub open spec fn points_of<T>(x: Seq<T>, y: Seq<T>) -> Seq<Vec2<T>> {
    Seq::new(if x.len() <= y.len() { x.len() } else { y.len() }, |i: int| Vec2 { x: x[i], y: y[i] })
}

/// The corners of the closed boundary of the map, in the order in which it
/// is walked: from the upper left corner down to the ground, along the
/// ground, up to the upper right corner and back to the upper left one.
pub open spec fn boundary<T>(min_x: T, max_x: T, max_y: T, ground: Seq<Vec2<T>>) -> Seq<Vec2<T>> {
    seq![Vec2 { x: min_x, y: max_y }] + ground + seq![Vec2 { x: max_x, y: max_y }, Vec2 { x: min_x, y: max_y }]
}

/// The `k`-th segment of the walk along `corners`.
pub open spec fn segment<T>(corners: Seq<Vec2<T>>, k: int) -> (Vec2<T>, Vec2<T>) {
    (corners[k], corners[k + 1])
}

/// The segments of the walk along `corners`, in order.
pub open spec fn segments<T>(corners: Seq<Vec2<T>>) -> Seq<(Vec2<T>, Vec2<T>)> {
    Seq::new((corners.len() - 1) as nat, |k: int| segment(corners, k))
}

/// A copy of `v`.
fn copied<T: Copy>(v: &Vec<T>) -> (r: Vec<T>)
    ensures
        r@ == v@,
{
    let mut r: Vec<T> = Vec::new();
    let mut i: usize = 0;
    while i < v.len()
        invariant
            i <= v@.len(),
            r@ == v@.take(i as int),
        decreases v@.len() - i,
    {
        r.push(v[i]);
        i += 1;
    }
    r
}

/// The points of `x` and `y` paired up.
fn paired<T: Copy>(x: &[T], y: &[T]) -> (points: Vec<Vec2<T>>)
    ensures
        points@ == points_of(x@, y@),
{
    let n: usize = if x.len() <= y.len() { x.len() } else { y.len() };
    let mut points: Vec<Vec2<T>> = Vec::new();
    let mut i: usize = 0;
    while i < n
        invariant
            i <= n,
            n <= x@.len(),
            n <= y@.len(),
            n == x@.len() || n == y@.len(),
            points@.len() == i,
            forall|j: int| 0 <= j < i ==> #[trigger] points@[j] == (Vec2 { x: x@[j], y: y@[j] }),
        decreases n - i,
    {
        points.push(Vec2::new(x[i], y[i]));
        i += 1;
    }
    points
}

/// A walk along the closed boundary of a map, segment by segment.
pub struct MapIterator<T> {
    corners: Vec<Vec2<T>>,
    position: usize,
}

impl<T> MapIterator<T> {
    #[verifier::type_invariant]
    spec fn well_formed(self) -> bool {
        1 <= self.position <= self.corners@.len()
    }
}

impl<T: Copy> MapIterator<T> {
    /// The corners of the walk, the first one being where it starts.
    pub closed spec fn corners(self) -> Seq<Vec2<T>> {
        self.corners@
    }

    /// The number of segments that have been handed out.
    pub closed spec fn walked(self) -> int {
        self.position - 1
    }

    /// A walk along the boundary of the map whose ground is given by the
    /// coordinates `x` and `y`, as far as both go, and whose walls stand at
    /// `min_x` and `max_x` under a ceiling at `max_y`.
    pub fn new(min_x: T, max_x: T, max_y: T, x: &[T], y: &[T]) -> (r: Self)
        requires
            x@.len() + 3 <= usize::MAX || y@.len() + 3 <= usize::MAX,
        ensures
            r.corners() == boundary(min_x, max_x, max_y, points_of(x@, y@)),
            r.walked() == 0,
    {
        let ground = paired(x, y);
        let mut corners: Vec<Vec2<T>> = Vec::new();
        corners.push(Vec2::new(min_x, max_y));
        let mut i: usize = 0;
        while i < ground.len()
            invariant
                i <= ground@.len(),
                corners@ == seq![Vec2 { x: min_x, y: max_y }] + ground@.take(i as int),
            decreases ground@.len() - i,
        {
            corners.push(ground[i]);
            i += 1;
        }
        corners.push(Vec2::new(max_x, max_y));
        corners.push(Vec2::new(min_x, max_y));
        MapIterator { corners, position: 1 }
    }

    /// The next segment of the walk, until the walk is back where it began.
    pub fn next(&mut self) -> (r: Option<(Vec2<T>, Vec2<T>)>)
        ensures
            final(self).corners() == old(self).corners(),
            old(self).walked() + 1 < old(self).corners().len() ==> {
                &&& r == Some(segment(old(self).corners(), old(self).walked()))
                &&& final(self).walked() == old(self).walked() + 1
            },
            old(self).walked() + 1 >= old(self).corners().len() ==> {
                &&& r is None
                &&& final(self).walked() == old(self).walked()
            },
    {
        proof {
            use_type_invariant(&*self);
        }
        if self.position >= self.corners.len() {
            return None;
        }
        let segment = (self.corners[self.position - 1], self.corners[self.position]);
        self.position = self.position + 1;
        Some(segment)
    }
}

/// The ground of a map, as a line through points, and the bounds of the map.
#[derive(Debug)]
pub struct Terrain<T> {
    min_x: T,
    max_x: T,
    max_y: T,
    x: Vec<T>,
    y: Vec<T>,
}

impl<T> Terrain<T> {
    #[verifier::type_invariant]
    spec fn well_formed(self) -> bool {
        &&& self.x@.len() == self.y@.len()
        &&& self.x@.len() >= 2
        &&& self.x@.len() + 3 <= usize::MAX
    }
}

impl<T: Copy> Terrain<T> {
    /// The points of the ground; at least two.
    pub closed spec fn ground(self) -> Seq<Vec2<T>> {
        points_of(self.x@, self.y@)
    }

    /// The corners of the boundary of the map, in the order of the walk.
    pub closed spec fn corners(self) -> Seq<Vec2<T>> {
        boundary(self.min_x, self.max_x, self.max_y, points_of(self.x@, self.y@))
    }

    /// The upper bound of the map.
    pub closed spec fn upper_bound(self) -> T {
        self.max_y
    }

    /// A terrain through the points `(x[i], y[i])` in a map from `min_x` to
    /// `max_x` and up to `max_y`. There is one `y` for each `x`, and there are
    /// at least two points.
    pub fn new(min_x: T, max_x: T, max_y: T, x: Vec<T>, y: Vec<T>) -> (r: Self)
        requires
            x@.len() == y@.len(),
            x@.len() >= 2,
            x@.len() + 3 <= usize::MAX,
        ensures
            r.ground() == points_of(x@, y@),
            r.ground().len() == x@.len(),
            r.corners() == boundary(min_x, max_x, max_y, points_of(x@, y@)),
            r.upper_bound() == max_y,
    {
        Terrain { min_x, max_x, max_y, x, y }
    }

    /// The segments of the closed boundary of the map, in the order of the
    /// walk: the left wall, the ground, the right wall and the ceiling.
    pub fn iter_segments(&self) -> (r: Vec<(Vec2<T>, Vec2<T>)>)
        ensures
            r@ == segments(self.corners()),
            r@.len() == self.ground().len() + 2,
    {
        proof {
            use_type_invariant(self);
        }
        let mut walk = MapIterator::new(self.min_x, self.max_x, self.max_y, self.x.as_slice(), self.y.as_slice());
        let mut r: Vec<(Vec2<T>, Vec2<T>)> = Vec::new();
        let total: usize = self.x.len() + 2;
        let mut k: usize = 0;
        while k < total
            invariant
                k <= total,
                total + 1 == walk.corners().len(),
                walk.corners() == self.corners(),
                walk.walked() == k,
                r@.len() == k,
                forall|j: int| 0 <= j < k ==> #[trigger] r@[j] == segment(self.corners(), j),
            decreases total - k,
        {
            match walk.next() {
                Some(s) => {
                    r.push(s);
                },
                None => {},
            }
            k += 1;
        }
        r
    }

    /// Walks the boundary and asks `probe` about segment after segment: the
    /// first segment that `probe` has an answer for ends the walk, and is
    /// handed out by its place in the walk together with the answer.
    pub fn first_hit<R, F: Fn(&(Vec2<T>, Vec2<T>)) -> Option<R>>(&self, probe: F) -> (r: Option<(usize, R)>)
        requires
            forall|s: &(Vec2<T>, Vec2<T>)| call_requires(probe, (s,)),
        ensures
            match r {
                Some((k, answer)) => {
                    &&& k < segments(self.corners()).len()
                    &&& call_ensures(probe, (&segments(self.corners())[k as int],), Some(answer))
                    &&& forall|j: int|
                        0 <= j < k ==> call_ensures(
                            probe,
                            (&#[trigger] segments(self.corners())[j],),
                            None::<R>,
                        )
                },
                None => forall|j: int|
                    0 <= j < segments(self.corners()).len() ==> call_ensures(
                        probe,
                        (&#[trigger] segments(self.corners())[j],),
                        None::<R>,
                    ),
            },
    {
        let walk = self.iter_segments();
        let mut k: usize = 0;
        while k < walk.len()
            invariant
                k <= walk@.len(),
                walk@ == segments(self.corners()),
                forall|s: &(Vec2<T>, Vec2<T>)| call_requires(probe, (s,)),
                forall|j: int| 0 <= j < k ==> call_ensures(probe, (&#[trigger] walk@[j],), None::<R>),
            decreases walk@.len() - k,
        {
            match probe(&walk[k]) {
                Some(answer) => {
                    return Some((k, answer));
                },
                None => {},
            }
            k += 1;
        }
        None
    }

    /// Walks the ground alone, from its first point to its last, and asks
    /// `probe` about segment after segment, as `first_hit` does along the whole
    /// boundary. The walls and the ceiling are not asked about. A segment is
    /// handed out by its place in the walk along the boundary, where the
    /// ground begins at 1.
    pub fn first_hit_on_ground<R, F: Fn(&(Vec2<T>, Vec2<T>)) -> Option<R>>(&self, probe: F) -> (r: Option<
        (usize, R),
    >)
        requires
            forall|s: &(Vec2<T>, Vec2<T>)| call_requires(probe, (s,)),
        ensures
            match r {
                Some((k, answer)) => {
                    &&& 1 <= k < self.ground().len()
                    &&& call_ensures(probe, (&segments(self.corners())[k as int],), Some(answer))
                    &&& forall|j: int|
                        1 <= j < k ==> call_ensures(
                            probe,
                            (&#[trigger] segments(self.corners())[j],),
                            None::<R>,
                        )
                },
                None => forall|j: int|
                    1 <= j < self.ground().len() ==> call_ensures(
                        probe,
                        (&#[trigger] segments(self.corners())[j],),
                        None::<R>,
                    ),
            },
    {
        proof {
            use_type_invariant(self);
        }
        let walk = self.iter_segments();
        let end: usize = self.x.len();
        let mut k: usize = 1;
        while k < end
            invariant
                1 <= k <= end,
                end == self.ground().len(),
                end + 2 == walk@.len(),
                walk@ == segments(self.corners()),
                forall|s: &(Vec2<T>, Vec2<T>)| call_requires(probe, (s,)),
                forall|j: int| 1 <= j < k ==> call_ensures(probe, (&#[trigger] walk@[j],), None::<R>),
            decreases end - k,
        {
            match probe(&walk[k]) {
                Some(answer) => {
                    return Some((k, answer));
                },
                None => {},
            }
            k += 1;
        }
        None
    }

    /// The points of the ground.
    pub fn iter_points(&self) -> (r: Vec<Vec2<T>>)
        ensures
            r@ == self.ground(),
    {
        paired(self.x.as_slice(), self.y.as_slice())
    }

    /// A terrain with the same ground in the same map.
    pub fn duplicate(&self) -> (r: Self)
        ensures
            r.ground() == self.ground(),
            r.corners() == self.corners(),
            r.upper_bound() == self.upper_bound(),
    {
        proof {
            use_type_invariant(self);
        }
        let x = copied(&self.x);
        let y = copied(&self.y);
        Terrain { min_x: self.min_x, max_x: self.max_x, max_y: self.max_y, x, y }
    }

    /// The upper bound of the map.
    pub fn max_y(&self) -> (r: T)
        ensures
            r == self.upper_bound(),
    {
        self.max_y
    }
}

} // verus!
