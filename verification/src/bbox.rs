//! Bounding boxes, as the drawing backend reports them.

use vstd::prelude::*;
use crate::error::RenderingError;

verus! {

/// A rectangle with its sides along the axes, in units.
#[derive(Clone, Copy, Debug, PartialEq, Eq, Structural)]
pub struct Rect {
    pub x0: i64,
    pub y0: i64,
    pub x1: i64,
    pub y1: i64,
}

/// The extent of what was drawn: nothing, or a rectangle.
#[derive(Clone, Copy, Debug, PartialEq, Eq, Structural)]
pub struct BoundingBox {
    pub rect: Option<Rect>,
}

/// The smaller of two coordinates.
pub open spec fn spec_min(a: i64, b: i64) -> i64 {
    if a <= b {
        a
    } else {
        b
    }
}

/// The larger of two coordinates.
pub open spec fn spec_max(a: i64, b: i64) -> i64 {
    if a >= b {
        a
    } else {
        b
    }
}

/// The smallest extent that holds `a` and `b`.
pub open spec fn union(a: BoundingBox, b: BoundingBox) -> BoundingBox {
    match (a.rect, b.rect) {
        (None, _) => b,
        (_, None) => a,
        (Some(r), Some(s)) => BoundingBox {
            rect: Some(
                Rect {
                    x0: spec_min(r.x0, s.x0),
                    y0: spec_min(r.y0, s.y0),
                    x1: spec_max(r.x1, s.x1),
                    y1: spec_max(r.y1, s.y1),
                },
            ),
        },
    }
}

/// The smallest extent that holds the first `n` of the boxes.
pub open spec fn union_of(boxes: Seq<BoundingBox>, n: int) -> BoundingBox
    decreases n,
{
    if n <= 0 || n > boxes.len() {
        BoundingBox { rect: None }
    } else {
        union(union_of(boxes, n - 1), boxes[n - 1])
    }
}

impl BoundingBox {
    /// The extent of nothing.
    pub fn new() -> (r: BoundingBox)
        ensures
            r.rect is None,
    {
        BoundingBox { rect: None }
    }

    /// Widens this extent so that it holds `src` too.
    pub fn insert(&mut self, src: &BoundingBox)
        ensures
            *final(self) == union(*old(self), *src),
    {
        match (self.rect, src.rect) {
            (None, _) => {
                self.rect = src.rect;
            },
            (_, None) => {},
            (Some(r), Some(s)) => {
                self.rect = Some(
                    Rect {
                        x0: if r.x0 <= s.x0 {
                            r.x0
                        } else {
                            s.x0
                        },
                        y0: if r.y0 <= s.y0 {
                            r.y0
                        } else {
                            s.y0
                        },
                        x1: if r.x1 >= s.x1 {
                            r.x1
                        } else {
                            s.x1
                        },
                        y1: if r.y1 >= s.y1 {
                            r.y1
                        } else {
                            s.y1
                        },
                    },
                );
            },
        }
    }
}

/// What drawing one span gave.
pub struct DrawOutcome {
    pub result: Result<BoundingBox, RenderingError>,
}

/// The index of the first failure at or after `i`, or the number of outcomes
/// if there is none.
pub open spec fn first_failure(outcomes: Seq<DrawOutcome>, i: int) -> int
    decreases outcomes.len() - i,
{
    if 0 <= i < outcomes.len() && outcomes[i].result is Ok {
        first_failure(outcomes, i + 1)
    } else {
        i
    }
}

/// The extents of the outcomes, in order; nothing stands for a failure.
pub open spec fn extents(outcomes: Seq<DrawOutcome>) -> Seq<BoundingBox> {
    Seq::new(
        outcomes.len(),
        |i: int|
            match outcomes[i].result {
                Ok(b) => b,
                Err(_) => BoundingBox { rect: None },
            },
    )
}

/// The extent of an element from what drawing each of its spans gave, in
/// order: the first failure, or else the smallest extent that holds the
/// extents of all spans.
pub fn aggregate(outcomes: &Vec<DrawOutcome>) -> (r: Result<BoundingBox, RenderingError>)
    ensures
        match r {
            Ok(b) => first_failure(outcomes@, 0) >= outcomes@.len() && b == union_of(
                extents(outcomes@),
                outcomes@.len() as int,
            ),
            Err(e) => first_failure(outcomes@, 0) < outcomes@.len() && (outcomes@[first_failure(
                outcomes@,
                0,
            )].result matches Err(f) && e@ == f@),
        },
{
    let mut bbox = BoundingBox::new();
    let mut i: usize = 0;
    while i < outcomes.len()
        invariant
            i <= outcomes@.len(),
            first_failure(outcomes@, i as int) == first_failure(outcomes@, 0),
            bbox == union_of(extents(outcomes@), i as int),
        decreases outcomes@.len() - i,
    {
        match &outcomes[i].result {
            Ok(span_bbox) => {
                bbox.insert(span_bbox);
            },
            Err(e) => {
                return Err(e.duplicate());
            },
        }
        i = i + 1;
    }
    Ok(bbox)
}

} // verus!
