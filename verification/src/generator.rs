use vstd::prelude::*;

use crate::errors::UuidError;
use crate::ident::{Identifier, ts_of, version_of, variant_of, TS_MILLIS_LIMIT};
use crate::text::{format_spec, is_canonical};

verus! {

broadcast use crate::ident::lemma_identifier_len;

/// A generated identifier's timestamp survives the round trip through raw
/// bytes: if `generate_from_timestamp(t)` yielded the bytes `generated`,
/// `encode` turned them into `encoded`, and `decode` accepted those back as
/// `decoded`, then the timestamp field extracted from `decoded` is exactly
/// `t`. The hypotheses are precisely what the contracts of those three
/// functions ensure of their results.
pub proof fn lemma_timestamp_survives_byte_round_trip(
    generated: Seq<u8>,
    encoded: Seq<u8>,
    decoded: Seq<u8>,
    t: u64,
)
    requires
        t < TS_MILLIS_LIMIT,
        ts_of(generated) == t,
        encoded == generated,
        decoded == encoded,
    ensures
        ts_of(decoded) == t,
{
}

/// Relies on `uuid::Uuid::new_v7` with `uuid::Timestamp::from_unix` and
/// `uuid::NoContext`: the result's first 48 bits are the millisecond value
/// `seconds * 1000 + nanos / 1_000_000`, big-endian, its version nibble is 7,
/// its variant bits are `10`, and every other bit is random.
#[verifier::external_body]
fn new_v7_bytes(seconds: u64, nanos: u32) -> (r: [u8; 16])
    requires
        seconds * 1000 + nanos as int / 1_000_000 < TS_MILLIS_LIMIT,
    ensures
        ts_of(r@) == seconds * 1000 + nanos as int / 1_000_000,
        version_of(r@) == 7,
        variant_of(r@) == 2,
{
    uuid::Uuid::new_v7(uuid::Timestamp::from_unix(uuid::NoContext, seconds, nanos)).into_bytes()
}

/// Relies on `uuid::Uuid::now_v7`: whatever the clock read, the result's
/// version nibble is 7 and its variant bits are `10`.
#[verifier::external_body]
fn now_v7_bytes() -> (r: [u8; 16])
    ensures
        version_of(r@) == 7,
        variant_of(r@) == 2,
{
    uuid::Uuid::now_v7().into_bytes()
}

/// Generates an identifier from the current wall-clock time and fresh random
/// bits.
pub fn generate_now() -> (r: Identifier)
    ensures
        version_of(r@) == 7,
        variant_of(r@) == 2,
{
    Identifier::from_bytes(now_v7_bytes())
}

/// Generates an identifier whose timestamp field is exactly `millis`, with
/// fresh random bits everywhere else. A timestamp that does not fit the
/// 48-bit field is rejected.
pub fn generate_from_timestamp(millis: u64) -> (r: Result<Identifier, UuidError>)
    ensures
        millis < TS_MILLIS_LIMIT <==> r is Ok,
        r matches Ok(id) ==> ts_of(id@) == millis && version_of(id@) == 7 && variant_of(id@)
            == 2,
        millis >= TS_MILLIS_LIMIT ==> r == Err::<Identifier, UuidError>(UuidError::Overflow),
{
    if millis >= TS_MILLIS_LIMIT {
        return Err(UuidError::Overflow);
    }
    let seconds = millis / 1000;
    let rem = millis % 1000;
    let nanos = (rem * 1_000_000) as u32;
    proof {
        vstd::arithmetic::div_mod::lemma_fundamental_div_mod(millis as int, 1000);
        vstd::arithmetic::div_mod::lemma_div_multiples_vanish(rem as int, 1_000_000);
        assert(nanos as int / 1_000_000 == rem as int);
        assert(seconds * 1000 + nanos as int / 1_000_000 == millis);
    }
    Ok(Identifier::from_bytes(new_v7_bytes(seconds, nanos)))
}

/// Generates an identifier from the current time and renders it canonically:
/// the result is always the canonical string of some identifier with version
/// 7 and the fixed variant.
pub fn generate() -> (r: String)
    ensures
        exists|b: Seq<u8>|
            b.len() == 16 && version_of(b) == 7 && variant_of(b) == 2 && r@ == #[trigger] format_spec(b),
        is_canonical(r@),
{
    let id = generate_now();
    id.format()
}

/// Generates an identifier at the given millisecond timestamp and renders it
/// canonically; a timestamp that does not fit the 48-bit field is rejected.
pub fn generate_from_ms(millis: u64) -> (r: Result<String, UuidError>)
    ensures
        millis < TS_MILLIS_LIMIT <==> r is Ok,
        r matches Ok(s) ==> exists|b: Seq<u8>|
            b.len() == 16 && ts_of(b) == millis && version_of(b) == 7 && variant_of(b) == 2
                && s@ == #[trigger] format_spec(b),
        r matches Ok(s) ==> is_canonical(s@),
        millis >= TS_MILLIS_LIMIT ==> r == Err::<String, UuidError>(UuidError::Overflow),
{
    match generate_from_timestamp(millis) {
        Ok(id) => Ok(id.format()),
        Err(e) => Err(e),
    }
}

} // verus!
