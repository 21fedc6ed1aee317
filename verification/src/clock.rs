//! Capture timestamps: seconds and microseconds since the Unix epoch,
//! written as `<secs>.<micros>` with the microseconds zero padded to
//! six digits.  Timestamps only label logged packets; no protocol
//! decision reads them.

use vstd::prelude::*;
use crate::numeric::{dec_str_of, pad_str_of, u64_to_string, u64_to_padded_string};
use crate::text::push_char;

verus! {

/// Relies on std::time::SystemTime::now and Duration::duration_since:
/// seconds and microseconds since the Unix epoch; the microsecond part
/// of a Duration is below one million.  Fails only when the clock
/// stands before the epoch.
#[verifier::external_body]
fn now_unix() -> (r: Result<(u64, u32), String>)
    ensures
        r matches Ok(t) ==> t.1 < 1000000,
{
    match std::time::SystemTime::now().duration_since(std::time::UNIX_EPOCH) {
        Ok(d) => Ok((d.as_secs(), d.subsec_micros())),
        Err(e) => Err(format!("failed to get unixtime: {}", e)),
    }
}

/// The timestamp text for a capture instant.
pub open spec fn timestamp_str(secs: u64, micros: u32) -> Seq<char> {
    dec_str_of(secs as nat) + seq!['.'] + pad_str_of(micros as nat, 6)
}

/// Writes one capture instant as `<secs>.<micros>`.
pub fn format_timestamp(secs: u64, micros: u32) -> (r: String)
    ensures
        r@ == timestamp_str(secs, micros),
{
    let mut s = u64_to_string(secs);
    push_char(&mut s, '.');
    let frac = u64_to_padded_string(micros as u64, 6);
    s.append(frac.as_str());
    proof {
        assert(s@ =~= timestamp_str(secs, micros));
    }
    s
}

/// Reads the clock and formats it; the error text is surfaced when the
/// clock stands before the Unix epoch.
pub fn get_timestamp() -> (r: Result<String, String>)
    ensures
        r matches Ok(t) ==> exists|secs: u64, micros: u32|
            micros < 1000000 && t@ == timestamp_str(secs, micros),
{
    match now_unix() {
        Ok((secs, micros)) => {
            let t = format_timestamp(secs, micros);
            proof {
                assert(micros < 1000000 && t@ == timestamp_str(secs, micros));
            }
            Ok(t)
        },
        Err(e) => Err(e),
    }
}

} // verus!
