//! The logging verbosity level the session options ask for.
//!
//! Levels are an index 0..=5, from everything off at 0, through errors,
//! warnings, information and debug output, to full tracing at 5. The
//! default sits at 3; each verbose flag adds one and each quiet flag
//! removes one, clamped into the valid range.

use vstd::prelude::*;

verus! {

/// The level index for given quiet/verbose counts: 3 + verbose - quiet,
/// clamped into 0..=5.
pub open spec fn spec_log_level(quiet: i8, verbose: i8) -> int {
    let raw = 3 + verbose - quiet;
    if raw < 0 {
        0
    } else if raw > 5 {
        5
    } else {
        raw
    }
}

/// Computes the verbosity level index from the counts of quiet and
/// verbose flags.
pub fn get_log_level(quiet: i8, verbose: i8) -> (r: u8)
    ensures
        r == spec_log_level(quiet, verbose),
        r <= 5,
{
    let raw: i16 = 3i16 + (verbose as i16) - (quiet as i16);
    if raw < 0 {
        0
    } else if raw > 5 {
        5
    } else {
        raw as u8
    }
}

} // verus!
