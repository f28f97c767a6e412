use vstd::prelude::*;

use crate::boundary::Boundary;
use crate::geometry::Point;

verus! {

/// A probe cast from `origin` along `dir`; points on it are
/// `origin + lambda * dir` for `lambda >= 0`.
#[derive(Clone, Copy, Debug, PartialEq, Eq, Structural)]
pub struct Ray {
    pub origin: Point,
    pub dir: Point,
}

/// Where a ray meets a boundary, as exact fractions over the common
/// denominator `den > 0`:
/// - `k_num / den` is the position along the boundary, as a fraction of it;
/// - `lambda_num / den` is the position along the ray, in units of its `dir`;
/// - `(x_num / den, y_num / den)` is the point itself.
#[derive(Clone, Copy, Debug, PartialEq, Eq, Structural)]
pub struct Hit {
    pub k_num: i128,
    pub lambda_num: i128,
    pub den: i128,
    pub x_num: i128,
    pub y_num: i128,
}

/// The mathematical value of a [`Hit`].
pub struct HitModel {
    pub k: int,
    pub lambda: int,
    pub den: int,
    pub x: int,
    pub y: int,
}

impl View for Hit {
    type V = HitModel;

    open spec fn view(&self) -> HitModel {
        HitModel {
            k: self.k_num as int,
            lambda: self.lambda_num as int,
            den: self.den as int,
            x: self.x_num as int,
            y: self.y_num as int,
        }
    }
}

impl Ray {
    pub open spec fn in_range(self) -> bool {
        self.origin.in_range() && self.dir.in_range()
    }

    pub fn new(origin: Point, dir: Point) -> (r: Ray)
        ensures
            r.origin == origin,
            r.dir == dir,
    {
        Ray { origin, dir }
    }
}

/// Determinant of the system `b.origin + k * span(b) == r.origin + lambda * r.dir`;
/// zero when the ray and the boundary are parallel.
pub open spec fn det(r: Ray, b: Boundary) -> int {
    r.dir.x * b.span_y() - b.span_x() * r.dir.y
}

/// Numerator of the boundary parameter `k` by Cramer's rule.
pub open spec fn k_raw(r: Ray, b: Boundary) -> int {
    r.dir.x * (r.origin.y - b.origin.y) - r.dir.y * (r.origin.x - b.origin.x)
}

/// Numerator of the ray parameter `lambda` by Cramer's rule.
pub open spec fn lambda_raw(r: Ray, b: Boundary) -> int {
    b.span_x() * (r.origin.y - b.origin.y) - b.span_y() * (r.origin.x - b.origin.x)
}

/// `v`, negated when `d` is negative: brings a fraction over `d` to a
/// positive denominator.
pub open spec fn signed(d: int, v: int) -> int {
    if d < 0 {
        -v
    } else {
        v
    }
}

/// The solution of the ray/boundary system over a non-negative denominator.
pub open spec fn hit_model(r: Ray, b: Boundary) -> HitModel {
    let d = det(r, b);
    let k = signed(d, k_raw(r, b));
    let den = signed(d, d);
    HitModel {
        k,
        lambda: signed(d, lambda_raw(r, b)),
        den,
        x: den * b.origin.x + k * b.span_x(),
        y: den * b.origin.y + k * b.span_y(),
    }
}

/// The ray meets the boundary: not parallel, the meeting point lies in
/// `[0, 1)` along the boundary and not behind the ray's origin.
pub open spec fn hits(r: Ray, b: Boundary) -> bool {
    let h = hit_model(r, b);
    det(r, b) != 0 && 0 <= h.k < h.den && 0 <= h.lambda
}

/// `a` lies strictly nearer to the ray's origin than `b`.
pub open spec fn closer(a: HitModel, b: HitModel) -> bool {
    a.lambda * b.den < b.lambda * a.den
}

/// `h` is a hit of `r` on one of `bs`, and no hit of `r` on any of `bs` is
/// strictly nearer.
pub open spec fn is_nearest(r: Ray, bs: Seq<Boundary>, h: HitModel) -> bool {
    &&& exists|i: int| 0 <= i < bs.len() && hits(r, bs[i]) && hit_model(r, bs[i]) == h
    &&& forall|j: int|
        0 <= j < bs.len() && hits(r, #[trigger] bs[j]) ==> !closer(hit_model(r, bs[j]), h)
}

/// `h` is the hit of `r` on `bs[i]`, and every earlier boundary that `r`
/// meets lies strictly farther: among equally near hits the first one counts.
pub open spec fn is_first_nearest_at(r: Ray, bs: Seq<Boundary>, h: HitModel, i: int) -> bool {
    &&& 0 <= i < bs.len()
    &&& hits(r, bs[i])
    &&& hit_model(r, bs[i]) == h
    &&& forall|j: int| 0 <= j < i && hits(r, #[trigger] bs[j]) ==> closer(h, hit_model(r, bs[j]))
}

proof fn lemma_mul_abs_le(a: int, b: int, ma: int, mb: int) by (nonlinear_arith)
    requires
        -ma <= a <= ma,
        -mb <= b <= mb,
    ensures
        -(ma * mb) <= a * b <= ma * mb,
{
}

/// Bounds on the solution that keep the intersection arithmetic inside `i128`.
proof fn lemma_hit_bounds(r: Ray, b: Boundary)
    requires
        r.in_range(),
        b.in_range(),
    ensures
        -0x4000_0000_0000_0000 <= det(r, b) <= 0x4000_0000_0000_0000,
        -0x4000_0000_0000_0000 <= k_raw(r, b) <= 0x4000_0000_0000_0000,
        -0x8000_0000_0000_0000 <= lambda_raw(r, b) <= 0x8000_0000_0000_0000,
{
    let l: int = 0x4000_0000;
    let m: int = 0x8000_0000;
    lemma_mul_abs_le(r.dir.x as int, b.span_y(), l, m);
    lemma_mul_abs_le(b.span_x(), r.dir.y as int, m, l);
    lemma_mul_abs_le(r.dir.x as int, r.origin.y - b.origin.y as int, l, m);
    lemma_mul_abs_le(r.dir.y as int, r.origin.x - b.origin.x as int, l, m);
    lemma_mul_abs_le(b.span_x(), r.origin.y - b.origin.y as int, m, m);
    lemma_mul_abs_le(b.span_y(), r.origin.x - b.origin.x as int, m, m);
}

/// Cramer's rule solves the system: `k * s - l * dir == d * w`, coordinate by
/// coordinate.
proof fn lemma_cramer(d: int, k: int, l: int, dx: int, dy: int, sx: int, sy: int, wx: int, wy: int)
    requires
        d == dx * sy - sx * dy,
        k == dx * wy - dy * wx,
        l == sx * wy - sy * wx,
    ensures
        k * sx - l * dx == d * wx,
        k * sy - l * dy == d * wy,
{
    assert(k * sx == dx * wy * sx - dy * wx * sx) by (nonlinear_arith)
        requires k == dx * wy - dy * wx;
    assert(l * dx == sx * wy * dx - sy * wx * dx) by (nonlinear_arith)
        requires l == sx * wy - sy * wx;
    assert(d * wx == dx * sy * wx - sx * dy * wx) by (nonlinear_arith)
        requires d == dx * sy - sx * dy;
    assert(dx * wy * sx == sx * wy * dx) by (nonlinear_arith);
    assert(dy * wx * sx == sx * dy * wx) by (nonlinear_arith);
    assert(sy * wx * dx == dx * sy * wx) by (nonlinear_arith);
    assert(k * sy == dx * wy * sy - dy * wx * sy) by (nonlinear_arith)
        requires k == dx * wy - dy * wx;
    assert(l * dy == sx * wy * dy - sy * wx * dy) by (nonlinear_arith)
        requires l == sx * wy - sy * wx;
    assert(d * wy == dx * sy * wy - sx * dy * wy) by (nonlinear_arith)
        requires d == dx * sy - sx * dy;
    assert(dx * wy * sy == dx * sy * wy) by (nonlinear_arith);
    assert(dy * wx * sy == sy * wx * dy) by (nonlinear_arith);
    assert(sx * wy * dy == sx * dy * wy) by (nonlinear_arith);
}

proof fn lemma_distribute(d: int, a: int, b: int)
    ensures
        d * (a - b) == d * a - d * b,
        (-d) * a == -(d * a),
{
    assert(d * (a - b) == d * a - d * b) by (nonlinear_arith);
    assert((-d) * a == -(d * a)) by (nonlinear_arith);
}

/// The meeting point seen from the ray's side: `origin + lambda * dir`.
pub proof fn lemma_hit_on_ray(r: Ray, b: Boundary)
    ensures
        hit_model(r, b).x == hit_model(r, b).den * r.origin.x + hit_model(r, b).lambda * r.dir.x,
        hit_model(r, b).y == hit_model(r, b).den * r.origin.y + hit_model(r, b).lambda * r.dir.y,
{
    let (ox, oy, dx, dy) = (r.origin.x as int, r.origin.y as int, r.dir.x as int, r.dir.y as int);
    let (bx, by, sx, sy) = (b.origin.x as int, b.origin.y as int, b.span_x(), b.span_y());
    let d = det(r, b);
    let k = k_raw(r, b);
    let l = lambda_raw(r, b);
    lemma_cramer(d, k, l, dx, dy, sx, sy, ox - bx, oy - by);
    lemma_distribute(d, ox, bx);
    lemma_distribute(d, oy, by);
    lemma_distribute(d, bx, 0);
    lemma_distribute(d, by, 0);
    lemma_distribute(d, ox, 0);
    lemma_distribute(d, oy, 0);
    lemma_distribute(k, sx, 0);
    lemma_distribute(k, sy, 0);
    lemma_distribute(l, dx, 0);
    lemma_distribute(l, dy, 0);
}

impl Ray {
    /// Where this ray meets `b`, if it does.
    ///
    /// Parallel lines never meet; otherwise the meeting point must lie on the
    /// segment (`0 <= k < 1`, its far end excluded) and not behind the ray.
    pub fn intersect(&self, b: &Boundary) -> (r: Option<Hit>)
        requires
            self.in_range(),
            b.in_range(),
        ensures
            r is Some <==> hits(*self, *b),
            r matches Some(h) ==> h@ == hit_model(*self, *b),
            det(*self, *b) == 0 ==> r is None,
            r matches Some(h) ==> 0 <= h.k_num < h.den && 0 <= h.lambda_num,
    {
        let dx = self.dir.x as i128;
        let dy = self.dir.y as i128;
        let sx = b.end.x as i128 - b.origin.x as i128;
        let sy = b.end.y as i128 - b.origin.y as i128;
        let wx = self.origin.x as i128 - b.origin.x as i128;
        let wy = self.origin.y as i128 - b.origin.y as i128;
        proof {
            let l30: int = 0x4000_0000;
            let l31: int = 0x8000_0000;
            lemma_mul_abs_le(dx as int, sy as int, l30, l31);
            lemma_mul_abs_le(sx as int, dy as int, l31, l30);
            lemma_mul_abs_le(dx as int, wy as int, l30, l31);
            lemma_mul_abs_le(dy as int, wx as int, l30, l31);
            lemma_mul_abs_le(sx as int, wy as int, l31, l31);
            lemma_mul_abs_le(sy as int, wx as int, l31, l31);
        }
        let d = dx * sy - sx * dy;
        if d == 0 {
            return None;
        }
        let k = dx * wy - dy * wx;
        let l = sx * wy - sy * wx;
        let (den, k, l) = if d < 0 {
            (-d, -k, -l)
        } else {
            (d, k, l)
        };
        if l >= 0 && k >= 0 && k < den {
            let bx = b.origin.x as i128;
            let by = b.origin.y as i128;
            proof {
                let l30: int = 0x4000_0000;
                let l31: int = 0x8000_0000;
                let l62: int = 0x4000_0000_0000_0000;
                lemma_mul_abs_le(den as int, bx as int, l62, l30);
                lemma_mul_abs_le(den as int, by as int, l62, l30);
                lemma_mul_abs_le(k as int, sx as int, l62, l31);
                lemma_mul_abs_le(k as int, sy as int, l62, l31);
            }
            Some(Hit { k_num: k, lambda_num: l, den, x_num: den * bx + k * sx, y_num: den * by + k * sy })
        } else {
            None
        }
    }

    /// The nearest hit of this ray on any of `bounds`, or `None` when it meets
    /// none of them.
    ///
    /// Boundaries are tested in order and a later hit replaces the best one
    /// only when it is strictly nearer.
    pub fn nearest(&self, bounds: &Vec<Boundary>) -> (r: Option<Hit>)
        requires
            self.in_range(),
            forall|i: int| 0 <= i < bounds@.len() ==> (#[trigger] bounds@[i]).in_range(),
        ensures
            r is None <==> forall|i: int| 0 <= i < bounds@.len() ==> !hits(*self, #[trigger] bounds@[i]),
            r matches Some(h) ==> is_nearest(*self, bounds@, h@),
            resolves(*self, bounds@, hit_view(r)),
            r matches Some(h) ==> exists|i: int| is_first_nearest_at(*self, bounds@, h@, i),
    {
        let mut best: Option<Hit> = None;
        let ghost mut at: int = 0;
        let mut i: usize = 0;
        while i < bounds.len()
            invariant
                self.in_range(),
                forall|j: int| 0 <= j < bounds@.len() ==> (#[trigger] bounds@[j]).in_range(),
                0 <= i <= bounds@.len(),
                best is None <==> forall|j: int| 0 <= j < i ==> !hits(*self, #[trigger] bounds@[j]),
                best matches Some(h) ==> {
                    &&& 0 < h.den <= 0x4000_0000_0000_0000
                    &&& 0 <= h.lambda_num <= 0x8000_0000_0000_0000
                    &&& forall|j: int| 0 <= j < i && hits(*self, #[trigger] bounds@[j])
                        ==> !closer(hit_model(*self, bounds@[j]), h@)
                    &&& at < i
                    &&& is_first_nearest_at(*self, bounds@, h@, at)
                },
            decreases bounds@.len() - i,
        {
            let b = &bounds[i];
            proof {
                lemma_hit_bounds(*self, *b);
            }
            match self.intersect(b) {
                Some(h) => {
                    let replace = match best {
                        None => true,
                        Some(cur) => {
                            proof {
                                let l62: int = 0x4000_0000_0000_0000;
                                let l63: int = 0x8000_0000_0000_0000;
                                lemma_mul_abs_le(h.lambda_num as int, cur.den as int, l63, l62);
                                lemma_mul_abs_le(cur.lambda_num as int, h.den as int, l63, l62);
                            }
                            h.lambda_num * cur.den < cur.lambda_num * h.den
                        },
                    };
                    if replace {
                        proof {
                            if let Some(cur) = best {
                                assert forall|j: int| 0 <= j < i && hits(*self, #[trigger] bounds@[j])
                                    implies !closer(hit_model(*self, bounds@[j]), h@) by {
                                    let o = hit_model(*self, bounds@[j]);
                                    assert(!closer(o, cur@));
                                    lemma_closer_transitive(o, cur@, h@);
                                }
                                assert forall|j: int| 0 <= j < i && hits(*self, #[trigger] bounds@[j])
                                    implies closer(h@, hit_model(*self, bounds@[j])) by {
                                    let o = hit_model(*self, bounds@[j]);
                                    assert(!closer(o, cur@));
                                    lemma_closer_through(h@, cur@, o);
                                }
                            }
                            at = i as int;
                        }
                        best = Some(h);
                    } else {
                        proof {
                            let cur = best.unwrap();
                            assert(!closer(h@, cur@));
                        }
                    }
                },
                None => {},
            }
            i += 1;
        }
        best
    }
}

/// Among positive denominators, strictly nearer than a hit that is no nearer
/// than a third is strictly nearer than that third.
proof fn lemma_closer_through(a: HitModel, b: HitModel, c: HitModel)
    requires
        a.den > 0,
        b.den > 0,
        c.den > 0,
        closer(a, b),
        !closer(c, b),
    ensures
        closer(a, c),
{
    assert(a.lambda * c.den < c.lambda * a.den) by (nonlinear_arith)
        requires
            a.den > 0,
            b.den > 0,
            c.den > 0,
            a.lambda * b.den < b.lambda * a.den,
            b.lambda * c.den <= c.lambda * b.den,
    ;
}

/// Among positive denominators, "no nearer than" chains.
proof fn lemma_closer_transitive(a: HitModel, b: HitModel, c: HitModel)
    requires
        a.den > 0,
        b.den > 0,
        c.den > 0,
        !closer(a, b),
        closer(c, b),
    ensures
        !closer(a, c),
{
    // b.lambda * a.den <= a.lambda * b.den and c.lambda * b.den < b.lambda * c.den
    assert(c.lambda * a.den <= a.lambda * c.den) by (nonlinear_arith)
        requires
            a.den > 0,
            b.den > 0,
            c.den > 0,
            b.lambda * a.den <= a.lambda * b.den,
            c.lambda * b.den < b.lambda * c.den,
    ;
}

/// Two hits lie at the same distance along the ray and at the same point.
pub open spec fn same_place(a: HitModel, b: HitModel) -> bool {
    &&& a.lambda * b.den == b.lambda * a.den
    &&& a.x * b.den == b.x * a.den
    &&& a.y * b.den == b.y * a.den
}

/// The mathematical value of an optional hit.
pub open spec fn hit_view(o: Option<Hit>) -> Option<HitModel> {
    match o {
        Some(h) => Some(h@),
        None => None,
    }
}

/// What [`Ray::nearest`] promises of its result `o` for the boundaries `bs`.
pub open spec fn resolves(r: Ray, bs: Seq<Boundary>, o: Option<HitModel>) -> bool {
    match o {
        None => forall|i: int| 0 <= i < bs.len() ==> !hits(r, #[trigger] bs[i]),
        Some(h) => is_nearest(r, bs, h),
    }
}

proof fn lemma_found_in_permutation(r: Ray, bs1: Seq<Boundary>, bs2: Seq<Boundary>, i: int)
    requires
        bs1.to_multiset() == bs2.to_multiset(),
        0 <= i < bs1.len(),
        hits(r, bs1[i]),
    ensures
        exists|j: int| 0 <= j < bs2.len() && bs2[j] == bs1[i],
{
    vstd::seq_lib::to_multiset_contains(bs1, bs1[i]);
    vstd::seq_lib::to_multiset_contains(bs2, bs1[i]);
    assert(bs1.contains(bs1[i]));
}

/// The nearest hit does not depend on the order in which the boundaries are
/// tested: for any reordering of the same boundaries, a ray either meets none
/// of them both times, or its nearest hits lie at the same distance and at the
/// same point.
pub proof fn lemma_nearest_order_independent(
    r: Ray,
    bs1: Seq<Boundary>,
    bs2: Seq<Boundary>,
    o1: Option<HitModel>,
    o2: Option<HitModel>,
)
    requires
        bs1.to_multiset() == bs2.to_multiset(),
        resolves(r, bs1, o1),
        resolves(r, bs2, o2),
    ensures
        o1 is None <==> o2 is None,
        (o1, o2) matches (Some(a), Some(b)) ==> same_place(a, b),
{
    if let Some(a) = o1 {
        let i = choose|i: int| 0 <= i < bs1.len() && hits(r, bs1[i]) && hit_model(r, bs1[i]) == a;
        lemma_found_in_permutation(r, bs1, bs2, i);
        let j = choose|j: int| 0 <= j < bs2.len() && bs2[j] == bs1[i];
        assert(hits(r, bs2[j]));
        if let Some(b) = o2 {
            let q = choose|q: int| 0 <= q < bs2.len() && hits(r, bs2[q]) && hit_model(r, bs2[q]) == b;
            lemma_found_in_permutation(r, bs2, bs1, q);
            let p = choose|p: int| 0 <= p < bs1.len() && bs1[p] == bs2[q];
            assert(hits(r, bs1[p]));
            assert(!closer(a, b));
            assert(!closer(b, a));
            lemma_hit_on_ray(r, bs1[i]);
            lemma_hit_on_ray(r, bs2[q]);
            lemma_same_lambda_same_point(a, b, r.origin.x as int, r.dir.x as int);
            lemma_same_lambda_same_point(a, b, r.origin.y as int, r.dir.y as int);
        }
    } else if let Some(b) = o2 {
        let q = choose|q: int| 0 <= q < bs2.len() && hits(r, bs2[q]) && hit_model(r, bs2[q]) == b;
        lemma_found_in_permutation(r, bs2, bs1, q);
        let p = choose|p: int| 0 <= p < bs1.len() && bs1[p] == bs2[q];
        assert(hits(r, bs1[p]));
    }
}

proof fn lemma_same_lambda_same_point(a: HitModel, b: HitModel, o: int, d: int)
    requires
        a.lambda * b.den == b.lambda * a.den,
    ensures
        (a.den * o + a.lambda * d) * b.den == (b.den * o + b.lambda * d) * a.den,
{
    assert((a.den * o + a.lambda * d) * b.den == a.den * b.den * o + (a.lambda * b.den) * d)
        by (nonlinear_arith);
    assert((b.den * o + b.lambda * d) * a.den == a.den * b.den * o + (b.lambda * a.den) * d)
        by (nonlinear_arith);
}

} // verus!
