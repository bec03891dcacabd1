//! The few values only the machine can provide: the home directory and
//! the clock. Each is a trusted wrapper around one outside call; nothing
//! is promised of their results beyond what the outside crate documents.

use vstd::prelude::*;

use chrono::Datelike;

verus! {

/// Relies on `dirs::home_dir`: the user's home directory, when the
/// platform reports one. The result depends on the environment, so
/// nothing is promised of it.
#[verifier::external_body]
pub fn home_dir() -> (r: Option<String>)
{
    dirs::home_dir().map(|p| p.to_string_lossy().into_owned())
}

/// Relies on `chrono::Utc::now`: seconds since the Unix epoch at the
/// moment of the call. The clock decides the result, so nothing is
/// promised of it.
#[verifier::external_body]
pub fn now_epoch_seconds() -> (r: i64)
{
    chrono::Utc::now().timestamp()
}

/// Relies on `chrono::Local::now`: the local calendar date at the moment
/// of the call, as year, month and day. The month and day ranges are the
/// calendar\'s own; the clock decides the values.
#[verifier::external_body]
pub fn today_ymd() -> (r: (i32, u8, u8))
    ensures
        1 <= r.1 <= 12,
        1 <= r.2 <= 31,
{
    let d = chrono::Local::now().date_naive();
    (d.year(), d.month() as u8, d.day() as u8)
}

} // verus!
