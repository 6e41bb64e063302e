//! A UTC timestamp as plain calendar fields, and its two Signature V4
//! renderings: the `YYYYMMDD'T'HHMMSS'Z'` instant and the `YYYYMMDD`
//! date stamp.
//!
//! The signer takes the timestamp as an argument; reading the clock is
//! the caller's business, which keeps every derivation deterministic.

use vstd::prelude::*;

verus! {

/// A point in time on the UTC calendar, held as plain fields.
#[derive(Clone, Copy, Debug)]
pub struct UtcTimestamp {
    pub year: u32,
    pub month: u32,
    pub day: u32,
    pub hour: u32,
    pub minute: u32,
    pub second: u32,
}

impl UtcTimestamp {
    /// The fields form a plausible UTC calendar time with a four-digit
    /// year.
    pub open spec fn wf(self) -> bool {
        &&& 1 <= self.year <= 9999
        &&& 1 <= self.month <= 12
        &&& 1 <= self.day <= 31
        &&& self.hour <= 23
        &&& self.minute <= 59
        &&& self.second <= 59
    }
}

/// Two zero-padded decimal digits of `n`, for `n < 100`.
pub open spec fn spec_dec2(n: nat) -> Seq<u8> {
    seq![(0x30 + (n / 10) % 10) as u8, (0x30 + n % 10) as u8]
}

/// Four zero-padded decimal digits of `n`, for `n < 10000`.
pub open spec fn spec_dec4(n: nat) -> Seq<u8> {
    seq![
        (0x30 + (n / 1000) % 10) as u8,
        (0x30 + (n / 100) % 10) as u8,
        (0x30 + (n / 10) % 10) as u8,
        (0x30 + n % 10) as u8,
    ]
}

/// The `YYYYMMDD` date stamp of a timestamp.
pub open spec fn spec_date_stamp(ts: UtcTimestamp) -> Seq<u8> {
    spec_dec4(ts.year as nat) + spec_dec2(ts.month as nat) + spec_dec2(ts.day as nat)
}

/// The `YYYYMMDD'T'HHMMSS'Z'` instant of a timestamp.
pub open spec fn spec_amz_date(ts: UtcTimestamp) -> Seq<u8> {
    spec_date_stamp(ts) + seq![0x54u8] + spec_dec2(ts.hour as nat) + spec_dec2(ts.minute as nat)
        + spec_dec2(ts.second as nat) + seq![0x5au8]
}

fn push_dec2(out: &mut Vec<u8>, n: u32)
    requires
        n < 100,
    ensures
        final(out)@ == old(out)@ + spec_dec2(n as nat),
{
    out.push(0x30 + ((n / 10) % 10) as u8);
    out.push(0x30 + (n % 10) as u8);
    proof {
        assert(final(out)@ =~= old(out)@ + spec_dec2(n as nat));
    }
}

fn push_dec4(out: &mut Vec<u8>, n: u32)
    requires
        n < 10000,
    ensures
        final(out)@ == old(out)@ + spec_dec4(n as nat),
{
    out.push(0x30 + ((n / 1000) % 10) as u8);
    out.push(0x30 + ((n / 100) % 10) as u8);
    out.push(0x30 + ((n / 10) % 10) as u8);
    out.push(0x30 + (n % 10) as u8);
    proof {
        assert(final(out)@ =~= old(out)@ + spec_dec4(n as nat));
    }
}

/// Renders the `YYYYMMDD` date stamp.
pub fn date_stamp_bytes(ts: &UtcTimestamp) -> (r: Vec<u8>)
    requires
        ts.wf(),
    ensures
        r@ == spec_date_stamp(*ts),
{
    let mut out: Vec<u8> = Vec::new();
    push_dec4(&mut out, ts.year);
    push_dec2(&mut out, ts.month);
    push_dec2(&mut out, ts.day);
    proof {
        assert(out@ =~= spec_date_stamp(*ts));
    }
    out
}

/// Renders the `YYYYMMDD'T'HHMMSS'Z'` instant.
pub fn amz_date_bytes(ts: &UtcTimestamp) -> (r: Vec<u8>)
    requires
        ts.wf(),
    ensures
        r@ == spec_amz_date(*ts),
{
    let mut out: Vec<u8> = Vec::new();
    push_dec4(&mut out, ts.year);
    push_dec2(&mut out, ts.month);
    push_dec2(&mut out, ts.day);
    out.push(0x54);
    push_dec2(&mut out, ts.hour);
    push_dec2(&mut out, ts.minute);
    push_dec2(&mut out, ts.second);
    out.push(0x5a);
    proof {
        assert(out@ =~= spec_amz_date(*ts));
    }
    out
}

} // verus!
