//! The Japanese era calendar: conversion between (era, era-relative year)
//! and Gregorian dates, with the exact era-transition boundaries.

use crate::LawDataError;
use vstd::prelude::*;

verus! {

/// One named epoch of the Japanese era calendar. The chronological order is
/// given by an explicit rank, not by declaration order.
#[derive(Debug, Clone, Copy, PartialEq, Eq, Hash, Structural)]
pub enum Era {
    Meiji,
    Taisho,
    Showa,
    Heisei,
    Reiwa,
}

impl Era {
    /// Explicit chronological rank of the era: earlier eras rank lower.
    pub open spec fn rank_spec(self) -> int {
        match self {
            Era::Meiji => 0,
            Era::Taisho => 1,
            Era::Showa => 2,
            Era::Heisei => 3,
            Era::Reiwa => 4,
        }
    }

    /// Chronological rank, for callers that order eras.
    pub fn rank(self) -> (r: u8)
        ensures
            r == self.rank_spec(),
    {
        match self {
            Era::Meiji => 0,
            Era::Taisho => 1,
            Era::Showa => 2,
            Era::Heisei => 3,
            Era::Reiwa => 4,
        }
    }
}

/// The era a name denotes: exactly the five recognized names, matched
/// case-sensitively.
pub open spec fn era_from_name_spec(s: Seq<char>) -> Option<Era> {
    if s == "Meiji"@ {
        Some(Era::Meiji)
    } else if s == "Taisho"@ {
        Some(Era::Taisho)
    } else if s == "Showa"@ {
        Some(Era::Showa)
    } else if s == "Heisei"@ {
        Some(Era::Heisei)
    } else if s == "Reiwa"@ {
        Some(Era::Reiwa)
    } else {
        None
    }
}

/// Matches an era name against the five recognized names.
pub fn era_from_name(s: &str) -> (r: Option<Era>)
    ensures
        r == era_from_name_spec(s@),
{
    if crate::strutil::str_eq(s, "Meiji") {
        Some(Era::Meiji)
    } else if crate::strutil::str_eq(s, "Taisho") {
        Some(Era::Taisho)
    } else if crate::strutil::str_eq(s, "Showa") {
        Some(Era::Showa)
    } else if crate::strutil::str_eq(s, "Heisei") {
        Some(Era::Heisei)
    } else if crate::strutil::str_eq(s, "Reiwa") {
        Some(Era::Reiwa)
    } else {
        None
    }
}

/// Offset added to an era-relative year to obtain the Gregorian year.
pub open spec fn era_offset(era: Era) -> int {
    match era {
        Era::Meiji => 1867,
        Era::Taisho => 1911,
        Era::Showa => 1925,
        Era::Heisei => 1988,
        Era::Reiwa => 2018,
    }
}

/// A Gregorian date packed as a single comparable integer
/// `year * 10000 + month * 100 + day`.
pub open spec fn packed_date(year: int, month: int, day: int) -> int {
    year * 10000 + month * 100 + day
}

/// First packed date of each era: the first day of a new era belongs to the
/// new era, never to the old one.
pub open spec fn era_start(era: Era) -> int {
    match era {
        Era::Meiji => 18681023,
        Era::Taisho => 19120730,
        Era::Showa => 19261225,
        Era::Heisei => 19890108,
        Era::Reiwa => 20190501,
    }
}

/// Last packed date of each era; Reiwa is open-ended.
pub open spec fn era_end(era: Era) -> Option<int> {
    match era {
        Era::Meiji => Some(19120729),
        Era::Taisho => Some(19261224),
        Era::Showa => Some(19890107),
        Era::Heisei => Some(20190430),
        Era::Reiwa => None,
    }
}

/// Subtrahend that the era table takes from a Gregorian year to obtain the
/// era-relative year. For every era but Taisho this equals `era_offset`; the
/// table subtracts 1920 for Taisho although Taisho 1 is 1912, so Taisho era
/// years disagree with `era_offset` by nine years.
pub open spec fn era_table_sub(era: Era) -> int {
    match era {
        Era::Taisho => 1920,
        _ => era_offset(era),
    }
}

/// The era that a packed Gregorian date falls in, or `None` for a date
/// strictly before the start of Meiji.
pub open spec fn era_of_packed(t: int) -> Option<Era> {
    if 18681023 <= t <= 19120729 {
        Some(Era::Meiji)
    } else if 19120730 <= t <= 19261224 {
        Some(Era::Taisho)
    } else if 19261225 <= t <= 19890107 {
        Some(Era::Showa)
    } else if 19890108 <= t <= 20190430 {
        Some(Era::Heisei)
    } else if 20190501 <= t {
        Some(Era::Reiwa)
    } else {
        None
    }
}

/// What `ad_to_era` returns: the era of the packed date together with the
/// era-relative year, which the table can make zero or negative for a part
/// of the Taisho range.
pub open spec fn ad_to_era_spec(year: int, month: int, day: int) -> Option<(Era, int)> {
    match era_of_packed(packed_date(year, month, day)) {
        Some(era) => Some((era, year - era_table_sub(era))),
        None => None,
    }
}

/// Converts an era-relative year to the Gregorian year by the fixed
/// per-era offset.
pub fn era_to_ad(era: Era, year: u64) -> (r: u64)
    requires
        era_offset(era) + year <= u64::MAX,
    ensures
        r == era_offset(era) + year,
{
    match era {
        Era::Meiji => 1867 + year,
        Era::Taisho => 1911 + year,
        Era::Showa => 1925 + year,
        Era::Heisei => 1988 + year,
        Era::Reiwa => 2018 + year,
    }
}

/// The per-era offset as a machine integer.
pub fn era_offset_exec(era: Era) -> (r: u64)
    ensures
        r == era_offset(era),
{
    match era {
        Era::Meiji => 1867,
        Era::Taisho => 1911,
        Era::Showa => 1925,
        Era::Heisei => 1988,
        Era::Reiwa => 2018,
    }
}

/// Resolves a Gregorian date against the era boundary table.
///
/// Fails with `DateOutOfRange` for a date strictly before the start of
/// Meiji, and likewise for the dates from 1912-07-30 through 1919-12-31:
/// the table's Taisho subtrahend would give those a negative era year,
/// which the result type cannot carry.
pub fn ad_to_era(year: u64, month: u64, day: u64) -> (r: Result<(Era, u64), LawDataError>)
    requires
        month <= 99,
        day <= 99,
        packed_date(year as int, month as int, day as int) <= u64::MAX,
    ensures
        match r {
            Ok((era, y)) => ad_to_era_spec(year as int, month as int, day as int) == Some(
                (era, y as int),
            ),
            Err(e) => {
                &&& e is DateOutOfRange
                &&& match ad_to_era_spec(year as int, month as int, day as int) {
                    Some((era, y)) => y < 0,
                    None => true,
                }
            },
        },
{
    let t: u64 = year * 10000 + month * 100 + day;
    if 18681023 <= t && t <= 19120729 {
        Ok((Era::Meiji, year - 1867))
    } else if 19120730 <= t && t <= 19261224 {
        if year < 1920 {
            Err(LawDataError::DateOutOfRange)
        } else {
            Ok((Era::Taisho, year - 1920))
        }
    } else if 19261225 <= t && t <= 19890107 {
        Ok((Era::Showa, year - 1925))
    } else if 19890108 <= t && t <= 20190430 {
        Ok((Era::Heisei, year - 1988))
    } else if 20190501 <= t {
        Ok((Era::Reiwa, year - 2018))
    } else {
        Err(LawDataError::DateOutOfRange)
    }
}

/// Round trip of the two conversions: for every era except Taisho (whose
/// table subtrahend disagrees with its offset) and every era-relative year,
/// a Gregorian date that lies inside the era's boundary interval resolves
/// back to the same era and year.
pub proof fn lemma_era_round_trip(era: Era, year: u64, month: int, day: int)
    requires
        era != Era::Taisho,
        era_offset(era) + year <= u64::MAX,
        era_start(era) <= packed_date(era_offset(era) + year, month, day),
        match era_end(era) {
            Some(last) => packed_date(era_offset(era) + year, month, day) <= last,
            None => true,
        },
    ensures
        ad_to_era_spec(era_offset(era) + year, month, day) == Some((era, year as int)),
{
}

} // verus!

