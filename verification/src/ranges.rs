use vstd::prelude::*;

verus! {

/// One end of a row-key range, as a caller states it.
#[derive(Clone, Copy, Debug, PartialEq, Eq)]
pub enum KeyBound {
    /// The bound value itself belongs to the range.
    Included(u64),
    /// The bound value is just outside the range.
    Excluded(u64),
    /// No bound was given.
    Unbounded,
}

/// A canonical half-open row-key range `[start, end)`.
#[derive(Clone, Copy, Debug, PartialEq, Eq)]
pub struct RowRange {
    pub start: u64,
    pub end: u64,
}

/// The first row key a start bound admits.
pub open spec fn start_key_of(b: KeyBound) -> int {
    match b {
        KeyBound::Included(v) => v as int,
        KeyBound::Excluded(v) => v as int + 1,
        KeyBound::Unbounded => 0,
    }
}

/// The first row key past the end bound.
pub open spec fn end_key_of(b: KeyBound) -> int {
    match b {
        KeyBound::Included(v) => v as int + 1,
        KeyBound::Excluded(v) => v as int,
        KeyBound::Unbounded => u64::MAX as int,
    }
}

/// Normalizes an arbitrary bound pair into a canonical half-open range
/// over the unsigned row-key domain. An unbounded start maps to `0`; an
/// unbounded end maps to the maximum representable row key.
pub fn to_range(start: KeyBound, end: KeyBound) -> (r: RowRange)
    requires
        start matches KeyBound::Excluded(v) ==> v < u64::MAX,
        end matches KeyBound::Included(v) ==> v < u64::MAX,
    ensures
        r.start as int == start_key_of(start),
        r.end as int == end_key_of(end),
{
    let s: u64 = match start {
        KeyBound::Included(v) => v,
        KeyBound::Excluded(v) => v + 1,
        KeyBound::Unbounded => 0,
    };
    let e: u64 = match end {
        KeyBound::Included(v) => v + 1,
        KeyBound::Excluded(v) => v,
        KeyBound::Unbounded => u64::MAX,
    };
    RowRange { start: s, end: e }
}

} // verus!
