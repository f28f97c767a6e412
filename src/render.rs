use vstd::prelude::*;

use crate::boundary::Boundary;
use crate::geometry::Point;
use crate::ray::{hit_view, resolves, Hit, Ray};

verus! {

/// How a frame is drawn: the overhead map of rays and walls, or the
/// projected first-person view, one shaded column per ray.
#[derive(Clone, Copy, Debug, PartialEq, Eq, Structural)]
pub enum RenderMode {
    Overhead,
    Projected,
}

impl RenderMode {
    /// The mode a session starts in.
    pub fn initial() -> (r: RenderMode)
        ensures
            r == RenderMode::Projected,
    {
        RenderMode::Projected
    }

    /// The other mode.
    pub fn toggled(self) -> (r: RenderMode)
        ensures
            r != self,
    {
        match self {
            RenderMode::Overhead => RenderMode::Projected,
            RenderMode::Projected => RenderMode::Overhead,
        }
    }
}

/// Rust's integer division, which rounds toward zero.
pub open spec fn div_toward_zero(a: int, b: int) -> int {
    if a >= 0 {
        a / b
    } else {
        -((-a) / b)
    }
}

/// The column indices of a screen whose horizontal extent is `left..right`,
/// with columns `resolution` pixels wide: from `left / resolution` up to, not
/// including, `right / resolution`, both rounded toward zero. Column `i`
/// stands at screen x `i * resolution`.
pub fn column_indices(left: i32, right: i32, resolution: i32) -> (r: Vec<i32>)
    requires
        resolution > 0,
    ensures
        r@.len() == if div_toward_zero(right as int, resolution as int) >= div_toward_zero(
            left as int,
            resolution as int,
        ) {
            div_toward_zero(right as int, resolution as int) - div_toward_zero(
                left as int,
                resolution as int,
            )
        } else {
            0
        },
        forall|j: int|
            0 <= j < r@.len() ==> #[trigger] r@[j] == div_toward_zero(left as int, resolution as int)
                + j,
{
    let first = left / resolution;
    let last = right / resolution;
    let mut r: Vec<i32> = Vec::new();
    let mut i: i32 = first;
    while i < last
        invariant
            first == div_toward_zero(left as int, resolution as int),
            last == div_toward_zero(right as int, resolution as int),
            first <= i,
            i <= last || (i == first && last < first),
            r@.len() == i - first,
            forall|j: int| 0 <= j < r@.len() ==> #[trigger] r@[j] == first + j,
        decreases last - i,
    {
        r.push(i);
        i = i + 1;
    }
    r
}

/// Resolves one ray per column: all cast from `origin`, the `j`-th along
/// `dirs[j]`, each against every boundary.
pub fn cast_all(origin: Point, dirs: &Vec<Point>, bounds: &Vec<Boundary>) -> (r: Vec<Option<Hit>>)
    requires
        origin.in_range(),
        forall|j: int| 0 <= j < dirs@.len() ==> (#[trigger] dirs@[j]).in_range(),
        forall|i: int| 0 <= i < bounds@.len() ==> (#[trigger] bounds@[i]).in_range(),
    ensures
        r@.len() == dirs@.len(),
        forall|j: int|
            0 <= j < r@.len() ==> resolves(
                Ray { origin, dir: dirs@[j] },
                bounds@,
                hit_view(#[trigger] r@[j]),
            ),
{
    let mut r: Vec<Option<Hit>> = Vec::new();
    let mut j: usize = 0;
    while j < dirs.len()
        invariant
            origin.in_range(),
            forall|k: int| 0 <= k < dirs@.len() ==> (#[trigger] dirs@[k]).in_range(),
            forall|i: int| 0 <= i < bounds@.len() ==> (#[trigger] bounds@[i]).in_range(),
            j <= dirs@.len(),
            r@.len() == j,
            forall|k: int|
                0 <= k < j ==> resolves(
                    Ray { origin, dir: dirs@[k] },
                    bounds@,
                    hit_view(#[trigger] r@[k]),
                ),
        decreases dirs@.len() - j,
    {
        let ray = Ray::new(origin, dirs[j]);
        r.push(ray.nearest(bounds));
        j += 1;
    }
    r
}

} // verus!
