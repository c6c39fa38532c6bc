//! Neighborhood shapes.

use vstd::prelude::*;

verus! {

/// Trait for types describing neighborhood shapes. Broadly speaking, a
/// Neighborhood is defined by its origin and a set of pixels whose
/// position is relative to the origin.
pub trait Neighborhood {
    /// The origin of the neighborhood.
    spec fn origin_spec(self) -> (u32, u32);

    /// Return the origin of the neighborhood.
    fn origin(&self) -> (r: (u32, u32))
        ensures
            r == self.origin_spec(),
    ;
}

/// Rectangular neighborhood with a specified origin.
#[derive(Debug, Clone, Copy, PartialEq, Eq)]
pub struct RectNeighborhood {
    /// Width and height of the neighborhood.
    pub size: (u32, u32),
    /// The origin, relative to the top-left corner.
    pub origin: (u32, u32),
}

impl Neighborhood for RectNeighborhood {
    open spec fn origin_spec(self) -> (u32, u32) {
        self.origin
    }

    fn origin(&self) -> (r: (u32, u32)) {
        self.origin
    }
}

impl RectNeighborhood {
    /// Create a new `RectNeighborhood`. The origin must be inside of the
    /// neighborhood and the size must be non-zero; otherwise `None` is
    /// returned.
    pub fn new(size: (u32, u32), origin: (u32, u32)) -> (r: Option<RectNeighborhood>)
        ensures
            r is Some <==> origin.0 < size.0 && origin.1 < size.1 && size.0 > 0 && size.1 > 0,
            r is Some ==> r->Some_0 == (RectNeighborhood { size, origin }),
    {
        if origin.0 < size.0 && origin.1 < size.1 && size.0 > 0 && size.1 > 0 {
            Some(RectNeighborhood { size, origin })
        } else {
            None
        }
    }
}

} // verus!
