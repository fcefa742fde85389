//! The local wall clock, read through chrono.
use vstd::prelude::*;
use chrono::Timelike;

verus! {

/// `chrono::offset::Local::now()`, read as `(hour, minute)` through
/// `Timelike::hour` and `Timelike::minute`, which chrono documents as
/// `0..=23` and `0..=59`. Which instant it reads is up to the machine, so
/// nothing else is claimed of the result. It takes no input; chrono panics
/// only on the machine's state (a system clock set before 1970, or a time
/// zone it cannot look up), as the same call does wherever it is made.
#[verifier::external_body]
fn local_clock() -> (hm: (u32, u32))
    ensures
        hm.0 < 24,
        hm.1 < 60,
{
    let now = chrono::offset::Local::now();
    (now.hour(), now.minute())
}

/// Minutes since midnight at `hour`:`minute`.
pub fn minute_of_day(hour: u32, minute: u32) -> (m: u32)
    requires
        hour < 24,
        minute < 60,
    ensures
        m == hour * 60 + minute,
        m < 1440,
{
    hour * 60 + minute
}

/// Minutes since local midnight, as the clock reads now (see
/// `minute_of_day`); which minute that is, is up to the machine.
pub fn local_now_minutes() -> (m: u32)
    ensures
        m < 1440,
{
    let (h, mi) = local_clock();
    minute_of_day(h, mi)
}

} // verus!
