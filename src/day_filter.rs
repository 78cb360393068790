//! Sets of weekdays, one bit per day.

use vstd::prelude::*;

verus! {

/// A set of days of the week: one bit per day, Monday in the highest of seven
/// bits and Sunday in the lowest.
#[derive(Clone, Copy, Debug, PartialEq, Eq, Structural, PartialOrd, Ord, Hash)]
pub struct DayFilter(pub u8);

/// The bit of weekday `w`, counted from Monday (0) to Sunday (6).
pub open spec fn weekday_bit(w: int) -> u8 {
    if w == 0 {
        0x40u8
    } else if w == 1 {
        0x20u8
    } else if w == 2 {
        0x10u8
    } else if w == 3 {
        0x08u8
    } else if w == 4 {
        0x04u8
    } else if w == 5 {
        0x02u8
    } else if w == 6 {
        0x01u8
    } else {
        0u8
    }
}

proof fn lemma_weekday_bits(b: u8)
    ensures
        (b & 0x40 != 0) == ((b / 64) % 2 == 1),
        (b & 0x20 != 0) == ((b / 32) % 2 == 1),
        (b & 0x10 != 0) == ((b / 16) % 2 == 1),
        (b & 0x08 != 0) == ((b / 8) % 2 == 1),
        (b & 0x04 != 0) == ((b / 4) % 2 == 1),
        (b & 0x02 != 0) == ((b / 2) % 2 == 1),
        (b & 0x01 != 0) == (b % 2 == 1),
{
    assert((b & 0x40 != 0) == ((b / 64) % 2 == 1) && (b & 0x20 != 0) == ((b / 32) % 2 == 1) && (b
        & 0x10 != 0) == ((b / 16) % 2 == 1) && (b & 0x08 != 0) == ((b / 8) % 2 == 1) && (b & 0x04
        != 0) == ((b / 4) % 2 == 1) && (b & 0x02 != 0) == ((b / 2) % 2 == 1) && (b & 0x01 != 0) == (
    b % 2 == 1)) by (bit_vector);
}

impl DayFilter {
    /// Monday
    pub fn monday() -> (r: DayFilter)
        ensures
            r.0 == 0x40,
            forall|w: int| r.has_weekday(w) <==> w == 0,
    {
        proof {
            lemma_weekday_bits(0x40);
        }
        DayFilter(0x40)
    }
    /// Tuesday
    pub fn tuesday() -> (r: DayFilter)
        ensures
            r.0 == 0x20,
            forall|w: int| r.has_weekday(w) <==> w == 1,
    {
        proof {
            lemma_weekday_bits(0x20);
        }
        DayFilter(0x20)
    }
    /// Wednesday
    pub fn wednesday() -> (r: DayFilter)
        ensures
            r.0 == 0x10,
            forall|w: int| r.has_weekday(w) <==> w == 2,
    {
        proof {
            lemma_weekday_bits(0x10);
        }
        DayFilter(0x10)
    }
    /// Thursday
    pub fn thursday() -> (r: DayFilter)
        ensures
            r.0 == 0x08,
            forall|w: int| r.has_weekday(w) <==> w == 3,
    {
        proof {
            lemma_weekday_bits(0x08);
        }
        DayFilter(0x08)
    }
    /// Friday
    pub fn friday() -> (r: DayFilter)
        ensures
            r.0 == 0x04,
            forall|w: int| r.has_weekday(w) <==> w == 4,
    {
        proof {
            lemma_weekday_bits(0x04);
        }
        DayFilter(0x04)
    }
    /// Saturday
    pub fn saturday() -> (r: DayFilter)
        ensures
            r.0 == 0x02,
            forall|w: int| r.has_weekday(w) <==> w == 5,
    {
        proof {
            lemma_weekday_bits(0x02);
        }
        DayFilter(0x02)
    }
    /// Sunday
    pub fn sunday() -> (r: DayFilter)
        ensures
            r.0 == 0x01,
            forall|w: int| r.has_weekday(w) <==> w == 6,
    {
        proof {
            lemma_weekday_bits(0x01);
        }
        DayFilter(0x01)
    }
    /// Every day of the week. Equivalent to `ANYDAY`.
    pub fn everyday() -> (r: DayFilter)
        ensures
            r.0 == 0x7f,
            forall|w: int| r.has_weekday(w) <==> 0 <= w < 7,
    {
        proof {
            lemma_weekday_bits(0x7f);
        }
        DayFilter(0x7f)
    }
    /// Any day of the week. Equivalent to `EVERYDAY`.
    pub fn anyday() -> (r: DayFilter)
        ensures
            r.0 == 0x7f,
            forall|w: int| r.has_weekday(w) <==> 0 <= w < 7,
    {
        proof {
            lemma_weekday_bits(0x7f);
        }
        DayFilter(0x7f)
    }
    /// Monday to Friday.
    pub fn weekdays() -> (r: DayFilter)
        ensures
            r.0 == 0x7c,
            forall|w: int| r.has_weekday(w) <==> 0 <= w < 5,
    {
        proof {
            lemma_weekday_bits(0x7c);
        }
        DayFilter(0x7c)
    }
    /// Saturday and Sunday.
    pub fn weekends() -> (r: DayFilter)
        ensures
            r.0 == 0x03,
            forall|w: int| r.has_weekday(w) <==> 5 <= w < 7,
    {
        proof {
            lemma_weekday_bits(0x03);
        }
        DayFilter(0x03)
    }

    /// Weekday `w` (Monday 0 to Sunday 6) is in the set.
    pub open spec fn has_weekday(self, w: int) -> bool {
        0 <= w < 7 && self.0 & weekday_bit(w) != 0
    }

    /// Some weekday is in the set.
    pub open spec fn has_some_weekday(self) -> bool {
        exists|w: int| self.has_weekday(w)
    }

    /// The set of no day.
    pub fn empty() -> (r: DayFilter)
        ensures
            forall|w: int| !r.has_weekday(w),
    {
        let r = DayFilter(0);
        assert forall|w: int| !r.has_weekday(w) by {
            assert(0u8 & weekday_bit(w) == 0) by (bit_vector);
        }
        r
    }

    /// The raw bits of the set.
    pub fn bits(&self) -> (r: u8)
        ensures
            r == self.0,
    {
        self.0
    }

    /// The set with the given bits, those above the seventh dropped.
    pub fn from_bits_truncate(bits: u8) -> (r: DayFilter)
        ensures
            r.0 == bits & 0x7f,
    {
        DayFilter(bits & 0x7f)
    }

    /// Weekday `weekday` (Monday 0 to Sunday 6) is in the set.
    pub fn contains_weekday(&self, weekday: u32) -> (r: bool)
        requires
            weekday < 7,
        ensures
            r == self.has_weekday(weekday as int),
    {
        let bit: u8 = if weekday == 0 {
            0x40
        } else if weekday == 1 {
            0x20
        } else if weekday == 2 {
            0x10
        } else if weekday == 3 {
            0x08
        } else if weekday == 4 {
            0x04
        } else if weekday == 5 {
            0x02
        } else {
            0x01
        };
        self.0 & bit != 0
    }

    /// Every day of `other` is in this set.
    pub fn contains(&self, other: DayFilter) -> (r: bool)
        ensures
            r == (self.0 & other.0 == other.0),
    {
        self.0 & other.0 == other.0
    }

    /// The days that are in either set.
    pub fn union(self, other: DayFilter) -> (r: DayFilter)
        ensures
            r.0 == self.0 | other.0,
            forall|w: int| r.has_weekday(w) <==> (self.has_weekday(w) || other.has_weekday(w)),
    {
        let r = DayFilter(self.0 | other.0);
        assert forall|w: int| r.has_weekday(w) <==> (self.has_weekday(w) || other.has_weekday(w)) by {
            let a = self.0;
            let b = other.0;
            let m = weekday_bit(w);
            assert((a | b) & m != 0 <==> (a & m != 0 || b & m != 0)) by (bit_vector);
        }
        r
    }

    /// No weekday is in the set.
    pub fn is_empty(&self) -> (r: bool)
        ensures
            r == !self.has_some_weekday(),
    {
        let b = self.0;
        let r = b & 0x7f == 0;
        assert(r == (b & 0x40 == 0 && b & 0x20 == 0 && b & 0x10 == 0 && b & 0x08 == 0 && b & 0x04
            == 0 && b & 0x02 == 0 && b & 0x01 == 0)) by (bit_vector)
            requires
                r == (b & 0x7f == 0),
        ;
        if !r {
            assert(self.has_weekday(0) || self.has_weekday(1) || self.has_weekday(2)
                || self.has_weekday(3) || self.has_weekday(4) || self.has_weekday(5)
                || self.has_weekday(6));
        }
        r
    }
}

} // verus!
