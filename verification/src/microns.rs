//! Fixed-point distances: one unit is one micrometer.

use vstd::prelude::*;

verus! {

/// The integer `v` brought into the range of `i32`.
pub open spec fn clamp_i32(v: int) -> int {
    if v > i32::MAX {
        i32::MAX as int
    } else if v < i32::MIN {
        i32::MIN as int
    } else {
        v
    }
}

/// A distance or an extrusion amount in micrometers.
#[derive(Clone, Copy, Debug, PartialEq, Eq, Structural, Hash, Ord)]
pub struct Microns(pub i32);

impl View for Microns {
    type V = int;

    open spec fn view(&self) -> int {
        self.0 as int
    }
}

impl Microns {
    /// No distance at all.
    pub fn zero() -> (r: Microns)
        ensures
            r == Microns(0),
    {
        Microns(0)
    }

    /// The marker of an axis that has no value yet. It is not a coordinate.
    pub fn unset() -> (r: Microns)
        ensures
            r == Microns(i32::MIN),
    {
        Microns(i32::MIN)
    }

    /// The magnitude of the amount. `MIN` has none that fits, and is left out.
    pub fn abs(&self) -> (r: Microns)
        requires
            self@ != i32::MIN,
        ensures
            r@ == if self@ < 0 { -self@ } else { self@ },
    {
        if self.0 < 0 {
            Microns(-self.0)
        } else {
            Microns(self.0)
        }
    }
}

impl core::ops::Add for Microns {
    type Output = Microns;

    /// Saturating sum.
    fn add(self, rhs: Microns) -> (r: Microns) {
        let wide: i64 = self.0 as i64 + rhs.0 as i64;
        if wide > i32::MAX as i64 {
            Microns(i32::MAX)
        } else if wide < i32::MIN as i64 {
            Microns(i32::MIN)
        } else {
            Microns(wide as i32)
        }
    }
}

impl vstd::std_specs::ops::AddSpecImpl for Microns {
    open spec fn obeys_add_spec() -> bool {
        true
    }

    open spec fn add_req(self, rhs: Microns) -> bool {
        true
    }

    open spec fn add_spec(self, rhs: Microns) -> Microns {
        Microns(clamp_i32(self@ + rhs@) as i32)
    }
}

impl core::ops::Sub for Microns {
    type Output = Microns;

    /// Saturating difference.
    fn sub(self, rhs: Microns) -> (r: Microns) {
        let wide: i64 = self.0 as i64 - rhs.0 as i64;
        if wide > i32::MAX as i64 {
            Microns(i32::MAX)
        } else if wide < i32::MIN as i64 {
            Microns(i32::MIN)
        } else {
            Microns(wide as i32)
        }
    }
}

impl vstd::std_specs::ops::SubSpecImpl for Microns {
    open spec fn obeys_sub_spec() -> bool {
        true
    }

    open spec fn sub_req(self, rhs: Microns) -> bool {
        true
    }

    open spec fn sub_spec(self, rhs: Microns) -> Microns {
        Microns(clamp_i32(self@ - rhs@) as i32)
    }
}

/// Names for the five axes of a position.
pub trait Vec5 {
    spec fn axes(&self) -> Seq<Microns>;

    fn x(&self) -> (r: Microns)
        ensures
            r == self.axes()[0],
    ;

    fn y(&self) -> (r: Microns)
        ensures
            r == self.axes()[1],
    ;

    fn z(&self) -> (r: Microns)
        ensures
            r == self.axes()[2],
    ;

    fn e(&self) -> (r: Microns)
        ensures
            r == self.axes()[3],
    ;

    fn f(&self) -> (r: Microns)
        ensures
            r == self.axes()[4],
    ;
}

impl Vec5 for [Microns; 5] {
    open spec fn axes(&self) -> Seq<Microns> {
        self@
    }

    fn x(&self) -> (r: Microns) {
        self[0]
    }

    fn y(&self) -> (r: Microns) {
        self[1]
    }

    fn z(&self) -> (r: Microns) {
        self[2]
    }

    fn e(&self) -> (r: Microns) {
        self[3]
    }

    fn f(&self) -> (r: Microns) {
        self[4]
    }
}

} // verus!
