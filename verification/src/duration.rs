//! Rendering of an elapsed wall-clock time, used for the per-request log
//! line.  The unit is chosen by the largest nonzero component: seconds,
//! then milliseconds, then microseconds, then nanoseconds.

use vstd::prelude::*;
use crate::strutil::{dec_digits, spec_zero_pad, u64_to_string, zero_pad};

verus! {

pub const NANOS_PER_SEC: u32 = 1_000_000_000;

/// The log form of a duration given as whole seconds plus the nanosecond
/// remainder below one second:
/// - at least one second: `{secs}.{millis as a three-digit fraction}s`;
/// - at least one millisecond: `{millis}.{micros below the millisecond}ms`;
/// - at least one microsecond: `{micros}.{nanos below the microsecond}μs`;
/// - otherwise: `{nanos}ns`.
pub open spec fn spec_format_duration(secs: u64, subsec_nanos: u32) -> Seq<char> {
    let millis = subsec_nanos / 1_000_000;
    let micros = (subsec_nanos / 1000) % 1000;
    let nanos = subsec_nanos % 1000;
    if secs > 0 {
        dec_digits(secs as nat) + "."@ + spec_zero_pad(dec_digits(millis as nat), 3) + "s"@
    } else if millis > 0 {
        dec_digits(millis as nat) + "."@ + dec_digits(micros as nat) + "ms"@
    } else if micros > 0 {
        dec_digits(micros as nat) + "."@ + dec_digits(nanos as nat) + "μs"@
    } else {
        dec_digits(nanos as nat) + "ns"@
    }
}

/// Renders an elapsed time, as [`spec_format_duration`] describes.
pub fn format_duration(secs: u64, subsec_nanos: u32) -> (r: String)
    requires
        subsec_nanos < NANOS_PER_SEC,
    ensures
        r@ == spec_format_duration(secs, subsec_nanos),
{
    let millis: u32 = subsec_nanos / 1_000_000;
    let micros: u32 = (subsec_nanos / 1000) % 1000;
    let nanos: u32 = subsec_nanos % 1000;
    if secs > 0 {
        let mut out = u64_to_string(secs);
        out.append(".");
        let padded = zero_pad(u64_to_string(millis as u64).as_str(), 3);
        out.append(padded.as_str());
        out.append("s");
        proof {
            reveal_strlit(".");
            reveal_strlit("s");
            assert(out@ =~= spec_format_duration(secs, subsec_nanos));
        }
        out
    } else if millis > 0 {
        let mut out = u64_to_string(millis as u64);
        out.append(".");
        out.append(u64_to_string(micros as u64).as_str());
        out.append("ms");
        proof {
            reveal_strlit(".");
            reveal_strlit("ms");
            assert(out@ =~= spec_format_duration(secs, subsec_nanos));
        }
        out
    } else if micros > 0 {
        let mut out = u64_to_string(micros as u64);
        out.append(".");
        out.append(u64_to_string(nanos as u64).as_str());
        out.append("μs");
        proof {
            reveal_strlit(".");
            reveal_strlit("μs");
            assert(out@ =~= spec_format_duration(secs, subsec_nanos));
        }
        out
    } else {
        let mut out = u64_to_string(nanos as u64);
        out.append("ns");
        proof {
            reveal_strlit("ns");
            assert(out@ =~= spec_format_duration(secs, subsec_nanos));
        }
        out
    }
}

} // verus!
