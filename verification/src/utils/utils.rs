//! What a reply takes from outside: a name that no other reply has, and the
//! time.
use chrono::Utc;
use uuid::Uuid;
use vstd::prelude::*;

verus! {

/// A fresh random identifier, written out: `Uuid::new_v4`, then its
/// `to_string`. Nothing is claimed of the text.
#[verifier::external_body]
pub fn generate_uuid() -> String {
    Uuid::new_v4().to_string()
}

/// The current time, in seconds since the start of 1970: `Utc::now`, then
/// `DateTime::timestamp` to read the seconds off it. Nothing is claimed of
/// the count.
#[verifier::external_body]
pub fn get_current_timestamp() -> i64 {
    Utc::now().timestamp()
}

/// `seconds` read as an unsigned number of 64 bits: itself where it is not
/// negative, and 2^64 more where it is.
pub open spec fn as_unsigned(seconds: i64) -> int {
    if seconds >= 0 {
        seconds as int
    } else {
        seconds + 0x1_0000_0000_0000_0000
    }
}

/// The seconds since the epoch as a reply carries them.
pub fn epoch_seconds(seconds: i64) -> (r: u64)
    ensures
        r == as_unsigned(seconds),
{
    if seconds >= 0 {
        seconds as u64
    } else {
        // `seconds + 2^63` fits a `u64`, and 2^63 more is what is asked for.
        ((seconds + i64::MAX) + 1) as u64 + 0x8000_0000_0000_0000u64
    }
}

} // verus!
