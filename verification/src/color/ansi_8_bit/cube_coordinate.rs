use vstd::prelude::*;

verus! {

/// One coordinate of the 6x6x6 color cube, on the interval [0, 5].
#[derive(Clone, Copy, PartialEq, Eq, Structural, PartialOrd, Ord, Hash, Debug, Default)]
pub struct CubeCoordinate {
    pub coordinate: u8,
}

impl CubeCoordinate {
    pub open spec fn wf(self) -> bool {
        self.coordinate <= 5
    }

    /// Builds a coordinate, clamping the argument to [0, 5].
    pub fn new(coordinate: u8) -> (r: CubeCoordinate)
        ensures
            r.coordinate == if coordinate > 5 {
                5
            } else {
                coordinate as int
            },
            r.wf(),
    {
        if 5 < coordinate {
            CubeCoordinate { coordinate: 5 }
        } else {
            CubeCoordinate { coordinate }
        }
    }

    /// Builds a coordinate; `None` when the argument is above 5.
    pub fn try_new(value: u8) -> (r: Option<CubeCoordinate>)
        ensures
            r == if value <= 5 {
                Some(CubeCoordinate { coordinate: value })
            } else {
                None::<CubeCoordinate>
            },
    {
        if value <= 5 {
            Some(CubeCoordinate { coordinate: value })
        } else {
            None
        }
    }

    /// The coordinate as a plain integer.
    pub fn get(&self) -> (r: u8)
        ensures
            r == self.coordinate,
    {
        self.coordinate
    }
}

} // verus!
