use vstd::prelude::*;

use crate::geometry::Point;

verus! {

/// A finite wall segment running from `origin` to `end`.
///
/// The segment's direction is `end - origin`; a position along it is written
/// as a fraction `k` of the whole, so `0 <= k < 1` covers the segment with its
/// far end left open.
#[derive(Clone, Copy, Debug, PartialEq, Eq, Structural)]
pub struct Boundary {
    pub origin: Point,
    pub end: Point,
}

/// Why a boundary could not be built.
#[derive(Clone, Copy, Debug, PartialEq, Eq, Structural)]
pub enum BoundaryError {
    /// Start and end coincide: the segment has no length and no direction.
    Degenerate,
}

/// An axis-aligned rectangle given by its horizontal and vertical extents.
#[derive(Clone, Copy, Debug, PartialEq, Eq, Structural)]
pub struct Rect {
    pub x_start: i32,
    pub x_end: i32,
    pub y_start: i32,
    pub y_end: i32,
}

impl Boundary {
    /// Horizontal component of the segment's direction.
    pub open spec fn span_x(self) -> int {
        self.end.x - self.origin.x
    }

    /// Vertical component of the segment's direction.
    pub open spec fn span_y(self) -> int {
        self.end.y - self.origin.y
    }

    /// A boundary with a direction: its two ends differ.
    pub open spec fn wf(self) -> bool {
        self.origin != self.end
    }

    pub open spec fn in_range(self) -> bool {
        self.origin.in_range() && self.end.in_range()
    }

    /// Builds the segment from `start` to `end`, refusing one of zero length.
    pub fn new(start: Point, end: Point) -> (r: Result<Boundary, BoundaryError>)
        ensures
            start == end <==> r == Err::<Boundary, BoundaryError>(BoundaryError::Degenerate),
            start != end ==> r == Ok::<Boundary, BoundaryError>(Boundary { origin: start, end }),
            r matches Ok(b) ==> b.wf(),
    {
        if start.x == end.x && start.y == end.y {
            Err(BoundaryError::Degenerate)
        } else {
            Ok(Boundary { origin: start, end })
        }
    }

    /// The four edges of `rect`: left, top, right, bottom.
    ///
    /// Fails when the rectangle has no width or no height, since an edge would
    /// then be degenerate.
    pub fn from_rect(rect: Rect) -> (r: Result<Vec<Boundary>, BoundaryError>)
        ensures
            (rect.x_start == rect.x_end || rect.y_start == rect.y_end) <==> r is Err,
            r matches Ok(v) ==> v@ == rect_edges(rect),
            r matches Ok(v) ==> forall|i: int| 0 <= i < v@.len() ==> (#[trigger] v@[i]).wf(),
    {
        let x0 = rect.x_start;
        let x1 = rect.x_end;
        let y0 = rect.y_start;
        let y1 = rect.y_end;
        let mut edges: Vec<Boundary> = Vec::new();
        edges.push(Boundary::new(Point::new(x0, y0), Point::new(x0, y1))?);
        edges.push(Boundary::new(Point::new(x0, y0), Point::new(x1, y0))?);
        edges.push(Boundary::new(Point::new(x1, y1), Point::new(x1, y0))?);
        edges.push(Boundary::new(Point::new(x1, y1), Point::new(x0, y1))?);
        proof {
            assert(edges@ =~= rect_edges(rect));
        }
        Ok(edges)
    }
}

/// The edges of a rectangle in the order left, top, right, bottom.
pub open spec fn rect_edges(rect: Rect) -> Seq<Boundary> {
    let (x0, x1, y0, y1) = (rect.x_start, rect.x_end, rect.y_start, rect.y_end);
    seq![
        Boundary { origin: Point { x: x0, y: y0 }, end: Point { x: x0, y: y1 } },
        Boundary { origin: Point { x: x0, y: y0 }, end: Point { x: x1, y: y0 } },
        Boundary { origin: Point { x: x1, y: y1 }, end: Point { x: x1, y: y0 } },
        Boundary { origin: Point { x: x1, y: y1 }, end: Point { x: x0, y: y1 } },
    ]
}

} // verus!
