//! Grid coordinates and their arithmetic.

use std::cmp::Ordering;
use std::ops::{Add, Sub};
use vstd::prelude::*;
use vstd::std_specs::cmp::PartialOrdSpecImpl;
use vstd::std_specs::convert::FromSpecImpl;
use vstd::std_specs::ops::{AddSpecImpl, SubSpecImpl};

verus! {

/// A cell position: column `x` and row `y`, both counted from zero.
#[derive(Debug, Copy, Clone, Ord, Eq, PartialEq, Hash, Structural)]
pub struct Coordinates {
    pub x: u16,
    pub y: u16,
}

/// The value nearest to `v` that a `u16` can hold.
pub open spec fn clamp_to_u16(v: int) -> u16 {
    if v < 0 {
        0u16
    } else if v > u16::MAX {
        u16::MAX
    } else {
        v as u16
    }
}

/// Moves one component by a signed step and stops at either end of the range.
fn shift_component(v: u16, step: i8) -> (r: u16)
    ensures
        r == clamp_to_u16(v + step),
{
    let moved: i32 = v as i32 + step as i32;
    if moved < 0 {
        0
    } else if moved > 65535 {
        65535
    } else {
        moved as u16
    }
}

impl Coordinates {
    /// Whether `self` and `other` are distinct cells that touch by a side or a corner.
    pub open spec fn is_adjacent(self, other: Coordinates) -> bool {
        &&& self != other
        &&& -1 <= self.x - other.x <= 1
        &&& -1 <= self.y - other.y <= 1
    }

    /// Whether `self` comes before `other` when the cells are read row by
    /// row, each row from left to right.
    pub open spec fn reads_before(self, other: Coordinates) -> bool {
        self.y < other.y || (self.y == other.y && self.x < other.x)
    }

    /// The position reached by the signed step `(dx, dy)`, if both components
    /// stay within the 16-bit range.
    pub open spec fn spec_offset(self, dx: int, dy: int) -> Option<Coordinates> {
        if 0 <= self.x + dx <= u16::MAX && 0 <= self.y + dy <= u16::MAX {
            Some(Coordinates { x: (self.x + dx) as u16, y: (self.y + dy) as u16 })
        } else {
            None
        }
    }

    /// Steps by `(dx, dy)` without clamping: `None` when the step leaves the range.
    pub fn checked_offset(self, dx: i8, dy: i8) -> (r: Option<Coordinates>)
        ensures
            r == self.spec_offset(dx as int, dy as int),
    {
        let x: i32 = self.x as i32 + dx as i32;
        let y: i32 = self.y as i32 + dy as i32;
        if 0 <= x && x <= 65535 && 0 <= y && y <= 65535 {
            Some(Coordinates { x: x as u16, y: y as u16 })
        } else {
            None
        }
    }
}

impl From<(u16, u16)> for Coordinates {
    fn from(pair: (u16, u16)) -> (r: Self) {
        Coordinates { x: pair.0, y: pair.1 }
    }
}

impl FromSpecImpl<(u16, u16)> for Coordinates {
    open spec fn obeys_from_spec() -> bool {
        true
    }

    open spec fn from_spec(pair: (u16, u16)) -> Self {
        Coordinates { x: pair.0, y: pair.1 }
    }
}

/// Component-wise sum. The caller keeps both sums within the 16-bit range.
impl Add for Coordinates {
    type Output = Coordinates;

    fn add(self, rhs: Coordinates) -> (r: Coordinates) {
        Coordinates { x: self.x + rhs.x, y: self.y + rhs.y }
    }
}

impl AddSpecImpl for Coordinates {
    open spec fn obeys_add_spec() -> bool {
        true
    }

    open spec fn add_req(self, rhs: Coordinates) -> bool {
        self.x + rhs.x <= u16::MAX && self.y + rhs.y <= u16::MAX
    }

    open spec fn add_spec(self, rhs: Coordinates) -> Coordinates {
        Coordinates { x: (self.x + rhs.x) as u16, y: (self.y + rhs.y) as u16 }
    }
}

/// Sum with a signed offset. A component that would leave the 16-bit range
/// stops at the boundary instead of wrapping.
impl Add<(i8, i8)> for Coordinates {
    type Output = Coordinates;

    fn add(self, rhs: (i8, i8)) -> (r: Coordinates) {
        Coordinates { x: shift_component(self.x, rhs.0), y: shift_component(self.y, rhs.1) }
    }
}

impl AddSpecImpl<(i8, i8)> for Coordinates {
    open spec fn obeys_add_spec() -> bool {
        true
    }

    open spec fn add_req(self, rhs: (i8, i8)) -> bool {
        true
    }

    open spec fn add_spec(self, rhs: (i8, i8)) -> Coordinates {
        Coordinates { x: clamp_to_u16(self.x + rhs.0), y: clamp_to_u16(self.y + rhs.1) }
    }
}

/// Component-wise difference that stops at zero.
impl Sub for Coordinates {
    type Output = Coordinates;

    fn sub(self, rhs: Coordinates) -> (r: Coordinates) {
        Coordinates { x: self.x.saturating_sub(rhs.x), y: self.y.saturating_sub(rhs.y) }
    }
}

impl SubSpecImpl for Coordinates {
    open spec fn obeys_sub_spec() -> bool {
        true
    }

    open spec fn sub_req(self, rhs: Coordinates) -> bool {
        true
    }

    open spec fn sub_spec(self, rhs: Coordinates) -> Coordinates {
        Coordinates { x: clamp_to_u16(self.x - rhs.x), y: clamp_to_u16(self.y - rhs.y) }
    }
}

impl Default for Coordinates {
    fn default() -> (r: Self)
        ensures
            r == (Coordinates { x: 0, y: 0 }),
    {
        Coordinates { x: 0, y: 0 }
    }
}

/// Coordinates are ordered by column first, then by row.
impl PartialOrd for Coordinates {
    fn partial_cmp(&self, other: &Coordinates) -> (r: Option<Ordering>) {
        if self.x < other.x {
            Some(Ordering::Less)
        } else if self.x > other.x {
            Some(Ordering::Greater)
        } else if self.y < other.y {
            Some(Ordering::Less)
        } else if self.y > other.y {
            Some(Ordering::Greater)
        } else {
            Some(Ordering::Equal)
        }
    }
}

impl PartialOrdSpecImpl for Coordinates {
    open spec fn obeys_partial_cmp_spec() -> bool {
        true
    }

    open spec fn partial_cmp_spec(&self, other: &Coordinates) -> Option<Ordering> {
        if self.x < other.x {
            Some(Ordering::Less)
        } else if self.x > other.x {
            Some(Ordering::Greater)
        } else if self.y < other.y {
            Some(Ordering::Less)
        } else if self.y > other.y {
            Some(Ordering::Greater)
        } else {
            Some(Ordering::Equal)
        }
    }
}

} // verus!
