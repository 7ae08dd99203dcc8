//! The encoder's closing summary line (`... Lsize=  1024kB time=00:01:00.00 bitrate= 139.8kbits/s`).
use vstd::prelude::*;
use crate::progress::{
    or_zero, or_zero_exec, rate_field, rate_field_exec, size_field, size_field_exec, time_field,
    time_field_exec,
};
use crate::text::chars_of;
use crate::units::{dec_or_zero, dec_or_zero_exec, Decimal};

verus! {

/// The final size, duration and average bit rate (in kbit/s) of an encode.
#[derive(Debug, Clone, Copy, PartialEq, Eq)]
pub struct EncodeSummary {
    pub final_size_bytes: u64,
    pub duration_us: u64,
    pub avg_bitrate_kbps: Decimal,
}

/// The summary that a line gives, where it has any of its three fragments;
/// a missing one counts as zero.
pub open spec fn summary_of(s: Seq<char>) -> Option<EncodeSummary> {
    let size = size_field(s, "Lsize="@);
    let time = time_field(s, "time="@);
    let rate = rate_field(s, "bitrate="@);
    if size is None && time is None && rate is None {
        None
    } else {
        Some(
            EncodeSummary {
                final_size_bytes: or_zero(size),
                duration_us: or_zero(time),
                avg_bitrate_kbps: dec_or_zero(rate),
            },
        )
    }
}

/// Reads the closing summary line; nothing where it has no summary fragment.
pub fn parse_summary_line(line: &str) -> (r: Option<EncodeSummary>)
    ensures
        r == summary_of(line@),
{
    let s = chars_of(line);
    let size = size_field_exec(s.as_slice(), "Lsize=");
    let time = time_field_exec(s.as_slice(), "time=");
    let rate = rate_field_exec(s.as_slice(), "bitrate=");
    if size.is_none() && time.is_none() && rate.is_none() {
        return None;
    }
    Some(
        EncodeSummary {
            final_size_bytes: or_zero_exec(size),
            duration_us: or_zero_exec(time),
            avg_bitrate_kbps: dec_or_zero_exec(rate),
        },
    )
}

} // verus!
