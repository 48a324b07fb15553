//! The ethnicity flag set: ten self-reported categories held in a
//! fixed-width bitmask.

use vstd::prelude::*;

verus! {

/// Bit for the NativeAmerican flag.
pub const NATIVE_AMERICAN: u16 = 0x0001;
/// Bit for the SoutheastAsian flag.
pub const SOUTHEAST_ASIAN: u16 = 0x0002;
/// Bit for the BlackAfricanDescent flag.
pub const BLACK_AFRICAN_DESCENT: u16 = 0x0004;
/// Bit for the EastAsian flag.
pub const EAST_ASIAN: u16 = 0x0008;
/// Bit for the HispanicLatino flag.
pub const HISPANIC_LATINO: u16 = 0x0010;
/// Bit for the MiddleEastern flag (not supported for race mapping).
pub const MIDDLE_EASTERN: u16 = 0x0020;
/// Bit for the PacificIslander flag.
pub const PACIFIC_ISLANDER: u16 = 0x0040;
/// Bit for the SouthAsian flag.
pub const SOUTH_ASIAN: u16 = 0x0080;
/// Bit for the WhiteCaucasian flag.
pub const WHITE_CAUCASIAN: u16 = 0x0100;
/// Bit for the Other flag.
pub const OTHER: u16 = 0x8000;

/// The three flags whose combinations map to the Asian race category.
pub const ASIAN_FLAGS: u16 = SOUTHEAST_ASIAN | EAST_ASIAN | SOUTH_ASIAN;

/// An immutable set of ethnicity flags.  Multiple flags may be set at once;
/// the empty set is a valid value but cannot be classified into a race.
#[derive(Clone, Copy, PartialEq, Eq, Structural, Debug)]
pub struct Ethnicities(pub u16);

impl Ethnicities {
    /// The raw bitmask.
    pub fn bits(&self) -> (b: u16)
        ensures
            b == self.0,
    {
        self.0
    }

    /// Whether a given flag is present in the set.
    pub open spec fn has(self, flag: u16) -> bool {
        self.0 & flag != 0
    }

    /// Builds the set from one indicator per category.
    pub fn from_flags(
        native_american: bool,
        southeast_asian: bool,
        black_african_descent: bool,
        east_asian: bool,
        hispanic_latino: bool,
        middle_eastern: bool,
        pacific_islander: bool,
        south_asian: bool,
        white_caucasian: bool,
        other: bool,
    ) -> (e: Ethnicities)
        ensures
            e.0 == (if native_american { NATIVE_AMERICAN } else { 0 })
                | (if southeast_asian { SOUTHEAST_ASIAN } else { 0 })
                | (if black_african_descent { BLACK_AFRICAN_DESCENT } else { 0 })
                | (if east_asian { EAST_ASIAN } else { 0 })
                | (if hispanic_latino { HISPANIC_LATINO } else { 0 })
                | (if middle_eastern { MIDDLE_EASTERN } else { 0 })
                | (if pacific_islander { PACIFIC_ISLANDER } else { 0 })
                | (if south_asian { SOUTH_ASIAN } else { 0 })
                | (if white_caucasian { WHITE_CAUCASIAN } else { 0 })
                | (if other { OTHER } else { 0 }),
    {
        Ethnicities(
            (if native_american { NATIVE_AMERICAN } else { 0 })
                | (if southeast_asian { SOUTHEAST_ASIAN } else { 0 })
                | (if black_african_descent { BLACK_AFRICAN_DESCENT } else { 0 })
                | (if east_asian { EAST_ASIAN } else { 0 })
                | (if hispanic_latino { HISPANIC_LATINO } else { 0 })
                | (if middle_eastern { MIDDLE_EASTERN } else { 0 })
                | (if pacific_islander { PACIFIC_ISLANDER } else { 0 })
                | (if south_asian { SOUTH_ASIAN } else { 0 })
                | (if white_caucasian { WHITE_CAUCASIAN } else { 0 })
                | (if other { OTHER } else { 0 }),
        )
    }
}

impl From<u16> for Ethnicities {
    fn from(bits: u16) -> (e: Self) {
        Ethnicities(bits)
    }
}

impl vstd::std_specs::convert::FromSpecImpl<u16> for Ethnicities {
    open spec fn obeys_from_spec() -> bool {
        true
    }

    open spec fn from_spec(bits: u16) -> Self {
        Ethnicities(bits)
    }
}

} // verus!
