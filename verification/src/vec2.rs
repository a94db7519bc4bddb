//! Two-dimensional fixed-point vectors.

use vstd::prelude::*;

verus! {

/// A position or displacement in sub-pixel units.
#[derive(Clone, Copy, Debug, PartialEq, Eq, Structural)]
pub struct I64x2 {
    pub x: i64,
    pub y: i64,
}

impl I64x2 {
    pub fn new(x: i64, y: i64) -> (r: Self)
        ensures
            r.x == x,
            r.y == y,
    {
        Self { x, y }
    }

    pub fn splat(x: i64) -> (r: Self)
        ensures
            r.x == x,
            r.y == x,
    {
        Self { x, y: x }
    }

    pub fn zero() -> (r: Self)
        ensures
            r.x == 0,
            r.y == 0,
    {
        Self { x: 0, y: 0 }
    }

    /// The sum of the two vectors, or `None` if a component leaves the range of `i64`.
    pub fn checked_add(self, other: Self) -> (r: Option<Self>)
        ensures
            r.is_some() <==> (i64::MIN <= self.x + other.x <= i64::MAX && i64::MIN <= self.y
                + other.y <= i64::MAX),
            r.is_some() ==> r.unwrap().x == self.x + other.x && r.unwrap().y == self.y + other.y,
    {
        match (self.x.checked_add(other.x), self.y.checked_add(other.y)) {
            (Some(x), Some(y)) => Some(Self { x, y }),
            _ => None,
        }
    }
}

} // verus!
