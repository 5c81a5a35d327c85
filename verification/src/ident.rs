use vstd::prelude::*;

use crate::errors::UuidError;

verus! {

/// One more than the largest millisecond timestamp that fits the 48-bit
/// timestamp field of an identifier.
pub const TS_MILLIS_LIMIT: u64 = 0x1_0000_0000_0000;

/// The millisecond timestamp held in the first 48 bits of an identifier's
/// bytes, read big-endian.
pub open spec fn ts_of(s: Seq<u8>) -> int
    recommends
        s.len() == 16,
{
    s[0] * 0x100_0000_0000 + s[1] * 0x1_0000_0000 + s[2] * 0x100_0000 + s[3] * 0x1_0000
        + s[4] * 0x100 + s[5]
}

/// The 4-bit version field of an identifier's bytes: the high nibble of the
/// seventh byte.
pub open spec fn version_of(s: Seq<u8>) -> int
    recommends
        s.len() == 16,
{
    (s[6] as int) / 16
}

/// The 2-bit variant field of an identifier's bytes: the top two bits of the
/// ninth byte.
pub open spec fn variant_of(s: Seq<u8>) -> int
    recommends
        s.len() == 16,
{
    (s[8] as int) / 64
}

/// A 128-bit time-ordered unique identifier: 48 bits of big-endian
/// millisecond timestamp, a fixed version field of 7, a fixed variant field
/// of 2, and random bits everywhere else.
#[derive(Clone, Copy, Debug)]
pub struct Identifier {
    bytes: [u8; 16],
}

impl View for Identifier {
    type V = Seq<u8>;

    closed spec fn view(&self) -> Seq<u8> {
        self.bytes@
    }
}

/// Whether byte sequence `a` is lexicographically below `b` with the first
/// difference at index `i`.
pub open spec fn lex_less_at(a: Seq<u8>, b: Seq<u8>, i: int) -> bool {
    &&& 0 <= i < a.len()
    &&& i < b.len()
    &&& a[i] < b[i]
    &&& forall|j: int| 0 <= j < i ==> a[j] == b[j]
}

/// Whether byte sequence `a` sorts strictly before `b` when compared
/// lexicographically, byte by byte.
pub open spec fn lex_less(a: Seq<u8>, b: Seq<u8>) -> bool {
    exists|i: int| lex_less_at(a, b, i)
}

/// An identifier with a strictly smaller timestamp field sorts strictly
/// before one with a larger timestamp field when the raw bytes are compared
/// lexicographically: the 48 timestamp bits are the most significant and are
/// laid out big-endian.
pub proof fn lemma_ts_order_implies_lex_order(a: Seq<u8>, b: Seq<u8>)
    requires
        a.len() == 16,
        b.len() == 16,
        ts_of(a) < ts_of(b),
    ensures
        lex_less(a, b),
{
    if a[0] != b[0] {
        assert(a[0] < b[0]);
        assert(lex_less_at(a, b, 0));
    } else if a[1] != b[1] {
        assert(a[1] < b[1]);
        assert(lex_less_at(a, b, 1));
    } else if a[2] != b[2] {
        assert(a[2] < b[2]);
        assert(lex_less_at(a, b, 2));
    } else if a[3] != b[3] {
        assert(a[3] < b[3]);
        assert(lex_less_at(a, b, 3));
    } else if a[4] != b[4] {
        assert(a[4] < b[4]);
        assert(lex_less_at(a, b, 4));
    } else {
        assert(a[5] < b[5]);
        assert(lex_less_at(a, b, 5));
    }
}

/// In a strictly increasing stamp sequence, any earlier stamp is below any
/// later one.
proof fn lemma_strictly_increasing(stamps: Seq<u64>, i: int, j: int)
    requires
        forall|k: int| 0 <= k < stamps.len() - 1 ==> #[trigger] stamps[k] < stamps[k + 1],
        0 <= i < j < stamps.len(),
    ensures
        stamps[i] < stamps[j],
    decreases j - i,
{
    if j > i + 1 {
        lemma_strictly_increasing(stamps, i, j - 1);
    }
}

/// Identifiers generated at strictly increasing millisecond timestamps carry
/// timestamp fields in the same strict order, and their raw bytes sort in
/// generation order.
pub proof fn lemma_generation_monotonic(stamps: Seq<u64>, ids: Seq<Seq<u8>>, i: int, j: int)
    requires
        ids.len() == stamps.len(),
        forall|k: int| 0 <= k < ids.len() ==> (#[trigger] ids[k]).len() == 16,
        forall|k: int| 0 <= k < ids.len() ==> ts_of(#[trigger] ids[k]) == stamps[k],
        forall|k: int| 0 <= k < stamps.len() - 1 ==> #[trigger] stamps[k] < stamps[k + 1],
        0 <= i < j < ids.len(),
    ensures
        ts_of(ids[i]) < ts_of(ids[j]),
        lex_less(ids[i], ids[j]),
{
    lemma_strictly_increasing(stamps, i, j);
    lemma_ts_order_implies_lex_order(ids[i], ids[j]);
}

/// Every identifier views as exactly 16 bytes.
pub broadcast proof fn lemma_identifier_len(id: Identifier)
    ensures
        (#[trigger] id@).len() == 16,
{
}

impl Identifier {
    /// Reinterprets 16 raw bytes as an identifier, without validating the
    /// version or variant fields.
    pub fn from_bytes(bytes: [u8; 16]) -> (r: Self)
        ensures
            r@ == bytes@,
    {
        Identifier { bytes }
    }

    /// Returns the raw big-endian byte layout of the identifier, exactly 16
    /// bytes.
    pub fn encode(&self) -> (r: [u8; 16])
        ensures
            r@ == self@,
    {
        self.bytes
    }

    /// Reinterprets a byte sequence as an identifier. Any 16-byte input is
    /// accepted as it stands; any other length is rejected.
    pub fn decode(input: &[u8]) -> (r: Result<Self, UuidError>)
        ensures
            input@.len() == 16 ==> (r matches Ok(id) && id@ == input@),
            input@.len() != 16 ==> r == Err::<Identifier, UuidError>(UuidError::InvalidLength),
    {
        if input.len() != 16 {
            return Err(UuidError::InvalidLength);
        }
        let mut bytes: [u8; 16] = [0; 16];
        let mut i: usize = 0;
        while i < 16
            invariant
                i <= 16,
                input@.len() == 16,
                forall|j: int| 0 <= j < i ==> bytes@[j] == input@[j],
            decreases 16 - i,
        {
            bytes[i] = input[i];
            i += 1;
        }
        proof {
            assert(bytes@ =~= input@);
        }
        Ok(Identifier { bytes })
    }

    /// The millisecond timestamp embedded in the identifier's first 48 bits.
    pub fn timestamp_ms(&self) -> (r: u64)
        ensures
            r == ts_of(self@),
            r < TS_MILLIS_LIMIT,
    {
        (self.bytes[0] as u64) * 0x100_0000_0000 + (self.bytes[1] as u64) * 0x1_0000_0000
            + (self.bytes[2] as u64) * 0x100_0000 + (self.bytes[3] as u64) * 0x1_0000
            + (self.bytes[4] as u64) * 0x100 + (self.bytes[5] as u64)
    }

    /// The identifier's 4-bit version field.
    pub fn version(&self) -> (r: u8)
        ensures
            r == version_of(self@),
    {
        self.bytes[6] / 16
    }

    /// The identifier's 2-bit variant field.
    pub fn variant(&self) -> (r: u8)
        ensures
            r == variant_of(self@),
    {
        self.bytes[8] / 64
    }
}

} // verus!
