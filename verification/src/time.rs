//! The clock text for the display's time register, `HH:MM` in local time.
//!
//! Reading the wall clock is the one thing the library takes from an outside
//! crate here; turning the hour and minute into register bytes is verified.

use chrono::Timelike;
use vstd::prelude::*;

verus! {

use crate::utils::{dec2_u64, lemma_dec2_len, push_dec2_u64};

/// Relies on chrono: `Local::now()` for the current local time, and
/// `Timelike::hour` and `Timelike::minute` on it, which chrono documents as
/// returning the hour number from 0 to 23 and the minute number from 0 to
/// 59. Nothing more is assumed: the value itself depends on the clock.
#[verifier::external_body]
fn local_hour_minute() -> (r: (u8, u8))
    ensures
        r.0 < 24,
        r.1 < 60,
{
    let now = chrono::Local::now();
    ((now.hour() % 24) as u8, (now.minute() % 60) as u8)
}

/// The five clock bytes: two hour digits, a colon, two minute digits.
pub open spec fn time_text_spec(hour: u8, minute: u8) -> Seq<u8> {
    dec2_u64(hour as u64) + seq![0x3au8] + dec2_u64(minute as u64)
}

/// Renders `hour` and `minute` as the display's `HH:MM` clock text.
pub fn render_time(hour: u8, minute: u8) -> (r: Vec<u8>)
    requires
        hour < 24,
        minute < 60,
    ensures
        r@ == time_text_spec(hour, minute),
        r@.len() == 5,
{
    let mut r: Vec<u8> = Vec::new();
    push_dec2_u64(&mut r, hour as u64);
    r.push(0x3a);
    push_dec2_u64(&mut r, minute as u64);
    proof {
        lemma_dec2_len(hour as u64);
        lemma_dec2_len(minute as u64);
        assert(r@ =~= time_text_spec(hour, minute));
    }
    r
}

/// The clock text for this moment, read from the local clock. Always five
/// bytes in the `HH:MM` shape, whatever the clock returned.
pub fn current_time_text() -> (r: Vec<u8>)
    ensures
        r@.len() == 5,
        exists|h: u8, m: u8| h < 24 && m < 60 && r@ == time_text_spec(h, m),
{
    let (h, m) = local_hour_minute();
    let r = render_time(h, m);
    proof {
        assert(h < 24 && m < 60 && r@ == time_text_spec(h, m));
    }
    r
}

} // verus!
