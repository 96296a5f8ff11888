//! Password hashing and the time stamps that posts and comments carry.
use std::collections::hash_map::DefaultHasher;
use std::hash::Hasher;
use std::time::{Duration, SystemTime, UNIX_EPOCH};
use std::fmt::Write;
use vstd::prelude::*;
use vstd::std_specs::hash::DefaultHasherAdditionalSpecFns;

use crate::text::{
    decimal, lemma_parse_padded, pad_seconds, padded_decimal, parse_decimal, parse_u64_decimal,
    u64_to_decimal,
};

verus! {

/// The stored hash of a password: the decimal numeral of what a fresh
/// `DefaultHasher` finishes with after being fed the password's UTF-8 bytes.
pub open spec fn password_hash(password: Seq<char>) -> Seq<char> {
    decimal(
        DefaultHasher::spec_finish(seq![vstd::utf8::encode_utf8(password)]) as nat,
    )
}

/// Hashes a password with the standard library's `DefaultHasher` and writes
/// the 64-bit hash in decimal.
pub fn hash_password(password: &str) -> (hashed: String)
    ensures
        hashed@ == password_hash(password@),
        hashed@ == decimal(
            DefaultHasher::spec_finish(seq![vstd::utf8::encode_utf8(password@)]) as nat,
        ),
{
    let mut hasher = DefaultHasher::new();
    hasher.write(password.as_bytes());
    let hashed = hasher.finish();
    proof {
        assert(hasher@ =~= seq![vstd::utf8::encode_utf8(password@)]);
    }
    u64_to_decimal(hashed)
}

/// A password's hash is taken over the whole password: it is the decimal
/// numeral of what the hasher finishes with after being fed every UTF-8 byte
/// of the password, in order, in one write.
pub proof fn lemma_password_hash_covers_whole_password(password: Seq<char>)
    ensures
        password_hash(password) == decimal(
            DefaultHasher::spec_finish(seq![vstd::utf8::encode_utf8(password)]) as nat,
        ),
{
}

/// `std::time::SystemTime`, carried through opaquely.
#[verifier::external_type_specification]
#[verifier::external_body]
pub struct ExSystemTime(SystemTime);

/// Calls `SystemTime::now`. The current time of the system clock; nothing is
/// promised of the value.
#[verifier::external_body]
fn system_time_now() -> SystemTime {
    SystemTime::now()
}

/// Calls `SystemTime::duration_since` with `UNIX_EPOCH` as the earlier time.
/// `None` stands for its error (the time lies before the epoch); nothing is
/// promised of the duration.
#[verifier::external_body]
fn duration_since_unix_epoch(time: &SystemTime) -> Option<Duration> {
    time.duration_since(UNIX_EPOCH).ok()
}

/// Calls `Duration::as_secs`: the whole seconds of a duration. The duration is
/// opaque here, so nothing is promised of the number.
#[verifier::external_body]
fn duration_whole_seconds(duration: &Duration) -> u64 {
    duration.as_secs()
}

/// A reading of the clock in the stored form: `secs` seconds since the Unix
/// epoch padded with zeros to twenty digits, or `None` where the clock read a
/// time before the epoch (`secs` is `None`).
pub fn padded_seconds_since_epoch(secs: Option<u64>) -> (date: Option<String>)
    ensures
        secs is None ==> date is None,
        secs matches Some(n) ==> (date matches Some(d) && d@ == padded_decimal(n as nat)
            && d@.len() == 20),
{
    match secs {
        None => None,
        Some(n) => Some(pad_seconds(n)),
    }
}

/// The current time as seconds since the Unix epoch, padded with zeros to
/// twenty digits so that stored dates sort as text in time order. `None`
/// where the system clock reads a time before the epoch.
pub fn current_time_as_padded_string() -> (date: Option<String>)
    ensures
        date matches Some(d) ==> (exists|secs: u64| d@ == padded_decimal(secs as nat)),
        date matches Some(d) ==> d@.len() == 20,
{
    let now = system_time_now();
    let seconds_since_epoch = match duration_since_unix_epoch(&now) {
        None => None,
        Some(since_epoch) => Some(duration_whole_seconds(&since_epoch)),
    };
    padded_seconds_since_epoch(seconds_since_epoch)
}

/// What chrono writes for the instant `secs` seconds after the Unix epoch in
/// UTC under the strftime-style format `fmt`: `None` where chrono has no date
/// for that instant or the format cannot be written.
pub uninterp spec fn chrono_utc_format(secs: int, fmt: Seq<char>) -> Option<Seq<char>>;

/// Calls `chrono::DateTime::<Utc>::from_timestamp(secs, 0)` and writes the
/// instant with `DateTime::format(fmt)`. The contract claims only that the
/// outcome is a function of `secs` and `fmt` (named `chrono_utc_format`),
/// `None` standing for an instant out of chrono's range or a format error.
#[verifier::external_body]
fn format_utc_timestamp(secs: i64, fmt: &str) -> (r: Option<String>)
    ensures
        r matches Some(s) ==> chrono_utc_format(secs as int, fmt@) == Some(s@),
        r is None ==> chrono_utc_format(secs as int, fmt@) is None,
{
    match chrono::DateTime::from_timestamp(secs, 0) {
        None => None,
        Some(instant) => {
            let mut out = String::new();
            match write!(out, "{}", instant.format(fmt)) {
                Ok(()) => Some(out),
                Err(_) => None,
            }
        },
    }
}

/// The format in which the dates of posts and comments are shown.
pub const DATE_FORMAT: &'static str = "%b %-d, %Y, at %-k:%M";

/// The date text shown under a post or comment: the stored timestamp read as
/// seconds since the epoch and written in UTC under `fmt`.
pub open spec fn date_string(padded: Seq<char>, fmt: Seq<char>) -> Option<Seq<char>> {
    match parse_decimal(padded) {
        None => None,
        Some(secs) => if secs <= i64::MAX {
            chrono_utc_format(secs as int, fmt)
        } else {
            None
        },
    }
}

/// Turns a stored timestamp into readable date text under the format `fmt`;
/// `None` where the stored text is not a timestamp or chrono cannot write it.
pub fn padded_time_to_date_string(padded: &str, fmt: &str) -> (r: Option<String>)
    ensures
        r matches Some(s) ==> date_string(padded@, fmt@) == Some(s@),
        r is None <==> date_string(padded@, fmt@) is None,
        r matches Some(s) ==> (parse_decimal(padded@) matches Some(n) && n <= i64::MAX
            && chrono_utc_format(n as int, fmt@) == Some(s@)),
        r is None <==> (parse_decimal(padded@) matches Some(n) ==> (n > i64::MAX
            || chrono_utc_format(n as int, fmt@) is None)),
{
    match parse_u64_decimal(padded) {
        None => None,
        Some(secs) => {
            if secs > i64::MAX as u64 {
                None
            } else {
                format_utc_timestamp(secs as i64, fmt)
            }
        },
    }
}

/// A stored timestamp is shown as chrono's UTC text of exactly the number of
/// seconds it was stored from, and is not shown where that number lies past
/// what chrono takes (`i64::MAX`).
pub proof fn lemma_stored_date_is_its_instant(secs: u64, fmt: Seq<char>)
    ensures
        secs <= i64::MAX ==> date_string(padded_decimal(secs as nat), fmt) == chrono_utc_format(
            secs as int,
            fmt,
        ),
        secs > i64::MAX ==> date_string(padded_decimal(secs as nat), fmt) is None,
{
    lemma_parse_padded(secs);
}

} // verus!
