//! Spinel's packed unsigned integers: little-endian base-128 in one to three
//! octets, the high bit of each octet marking that another one follows.
use crate::buf::push_all;
use crate::error::Error;
use vstd::prelude::*;

verus! {

/// The largest value that three octets can carry.
pub const PACKED_U32_MAX: u32 = 2_097_151;

/// The number of octets in the canonical encoding of `v`.
pub open spec fn packed_len_of(v: nat) -> nat {
    if v < 128 {
        1
    } else if v < 16_384 {
        2
    } else {
        3
    }
}

/// The canonical (shortest) encoding of `v`, for `v <= PACKED_U32_MAX`.
pub open spec fn packed_bytes(v: nat) -> Seq<u8> {
    if v < 128 {
        seq![v as u8]
    } else if v < 16_384 {
        seq![(v % 128 + 128) as u8, (v / 128) as u8]
    } else {
        seq![(v % 128 + 128) as u8, ((v / 128) % 128 + 128) as u8, (v / 16_384) as u8]
    }
}

/// How many octets the packed integer at the front of `b` takes: the position
/// of the first octet whose high bit is clear, plus one, looking at no more
/// than three octets; zero when there is no such octet among them.
pub open spec fn packed_count(b: Seq<u8>) -> nat {
    if b.len() > 0 && b[0] < 128 {
        1
    } else if b.len() > 1 && b[1] < 128 {
        2
    } else if b.len() > 2 && b[2] < 128 {
        3
    } else {
        0
    }
}

/// The value of the packed integer at the front of `b` (zero when there is none).
pub open spec fn packed_value(b: Seq<u8>) -> nat {
    let c = packed_count(b);
    if c == 1 {
        b[0] as nat
    } else if c == 2 {
        ((b[0] - 128) + 128 * b[1]) as nat
    } else if c == 3 {
        ((b[0] - 128) + 128 * (b[1] - 128) + 16_384 * b[2]) as nat
    } else {
        0
    }
}

/// Decoding the canonical encoding of `v`, whatever octets follow it, gives
/// back `v` and the encoding's length.
pub proof fn lemma_packed_round_trip(v: nat, rest: Seq<u8>)
    requires
        v <= PACKED_U32_MAX,
    ensures
        packed_bytes(v).len() == packed_len_of(v),
        packed_count(packed_bytes(v) + rest) == packed_len_of(v),
        packed_value(packed_bytes(v) + rest) == v,
{
    let b = packed_bytes(v) + rest;
    if v < 128 {
        assert(b[0] == v);
    } else if v < 16_384 {
        assert(b[0] == v % 128 + 128);
        assert(b[1] == v / 128);
        assert(v == v % 128 + 128 * (v / 128)) by (nonlinear_arith);
    } else {
        assert(v / 16_384 < 128) by (nonlinear_arith)
            requires
                v <= 2_097_151,
        ;
        assert(b[0] == v % 128 + 128);
        assert(b[1] == (v / 128) % 128 + 128);
        assert(b[2] == v / 16_384);
        assert(v == v % 128 + 128 * ((v / 128) % 128) + 16_384 * (v / 16_384)) by (nonlinear_arith);
    }
}

/// A packed integer is never shorter than the canonical encoding of its value,
/// and it has that length exactly when it is that encoding: the one with no
/// zero octet left behind a continuation.
pub proof fn lemma_packed_canonical(b: Seq<u8>)
    requires
        packed_count(b) > 0,
    ensures
        packed_value(b) <= PACKED_U32_MAX,
        packed_len_of(packed_value(b)) <= packed_count(b),
        packed_len_of(packed_value(b)) == packed_count(b) <==> b.subrange(
            0,
            packed_count(b) as int,
        ) == packed_bytes(packed_value(b)),
        packed_len_of(packed_value(b)) == packed_count(b) <==> (packed_count(b) == 1 || b[packed_count(b)
            - 1] != 0),
{
    let c = packed_count(b);
    let v = packed_value(b);
    if c == 2 {
        let d0 = b[0] - 128;
        assert(v == d0 + 128 * b[1]);
        assert(v % 128 == d0 && v / 128 == b[1]) by (nonlinear_arith)
            requires
                v == d0 + 128 * b[1],
                0 <= d0 < 128,
        ;
        if b[1] != 0 {
            assert(b.subrange(0, 2) =~= packed_bytes(v));
        } else {
            assert(b.subrange(0, 2)[1] != packed_bytes(v)[1] || b.subrange(0, 2).len() != packed_bytes(v).len());
        }
    } else if c == 3 {
        let d0 = b[0] - 128;
        let d1 = b[1] - 128;
        assert(v == d0 + 128 * d1 + 16_384 * b[2]);
        assert(v % 128 == d0 && (v / 128) % 128 == d1 && v / 16_384 == b[2] && v / 128 == d1 + 128
            * b[2]) by (nonlinear_arith)
            requires
                v == d0 + 128 * d1 + 16_384 * b[2],
                0 <= d0 < 128,
                0 <= d1 < 128,
        ;
        assert(v >= 16_384 <==> b[2] != 0) by (nonlinear_arith)
            requires
                v == d0 + 128 * d1 + 16_384 * b[2],
                0 <= d0 < 128,
                0 <= d1 < 128,
        ;
        if b[2] != 0 {
            assert(b.subrange(0, 3) =~= packed_bytes(v));
        } else {
            assert(b.subrange(0, 3).len() != packed_bytes(v).len());
        }
    } else {
        assert(b.subrange(0, 1) =~= packed_bytes(v));
    }
}

/// A packed [`u32`] value as it stands on the wire, padded with zeros.
#[derive(Clone, Copy, Debug, PartialEq, Eq)]
pub struct PackedU32 {
    pub array: [u8; 3],
}

impl PackedU32 {
    /// Encode `value`, returning the octets (zero-padded) and how many of them
    /// are used.
    pub fn encode(value: u32) -> (r: ([u8; 3], usize))
        requires
            value <= PACKED_U32_MAX,
        ensures
            r.1 == packed_len_of(value as nat),
            r.0@.subrange(0, r.1 as int) == packed_bytes(value as nat),
            forall|i: int| r.1 <= i < 3 ==> r.0@[i] == 0,
    {
        let low = (value % 128) as u8;
        let rest = value / 128;
        if rest == 0 {
            return ([low, 0, 0], 1);
        }
        let mid = (rest % 128) as u8;
        let high = rest / 128;
        if high == 0 {
            return ([low + 128, mid, 0], 2);
        }
        ([low + 128, mid + 128, high as u8], 3)
    }

    /// Decode the packed integer at the front of `bytes`, returning its value
    /// and the number of octets read. The count is zero when none of the first
    /// three octets ends the integer.
    pub fn decode(bytes: &[u8]) -> (r: (u32, usize))
        ensures
            r.1 == packed_count(bytes@),
            r.0 == packed_value(bytes@),
            r.0 <= PACKED_U32_MAX,
    {
        let n = bytes.len();
        if n > 0 && bytes[0] < 128 {
            return (bytes[0] as u32, 1);
        }
        if n > 1 && bytes[1] < 128 {
            return ((bytes[0] - 128) as u32 + 128 * bytes[1] as u32, 2);
        }
        if n > 2 && bytes[2] < 128 {
            return (
                (bytes[0] - 128) as u32 + 128 * (bytes[1] - 128) as u32 + 16_384 * bytes[2] as u32,
                3,
            );
        }
        (0, 0)
    }

    /// The number of octets that `value` takes when packed.
    pub fn packed_len(value: u32) -> (r: usize)
        ensures
            r == packed_len_of(value as nat),
    {
        if value <= 127 {
            1
        } else if value <= 16_383 {
            2
        } else {
            3
        }
    }

    /// Pack `value` and append it to `buffer`, returning the number of octets written.
    pub fn write_to_buffer(value: u32, buffer: &mut Vec<u8>) -> (r: usize)
        requires
            value <= PACKED_U32_MAX,
        ensures
            final(buffer)@ == old(buffer)@ + packed_bytes(value as nat),
            r == packed_len_of(value as nat),
    {
        let (array, count) = Self::encode(value);
        push_all(buffer, &array[0..count]);
        count
    }

    /// The position of the first octet of `value` whose high bit is clear, plus
    /// one; zero when every octet has it set.
    pub fn count_bytes(value: &[u8]) -> (r: usize)
        ensures
            r <= value@.len(),
            r == 0 ==> forall|i: int| 0 <= i < value@.len() ==> value@[i] >= 128,
            r > 0 ==> value@[r - 1] < 128 && forall|i: int| 0 <= i < r - 1 ==> value@[i] >= 128,
    {
        let mut i: usize = 0;
        while i < value.len()
            invariant
                i <= value@.len(),
                forall|j: int| 0 <= j < i ==> value@[j] >= 128,
            decreases value@.len() - i,
        {
            if value[i] < 128 {
                return i + 1;
            }
            i = i + 1;
        }
        0
    }

    /// The packed integer at the front of `bytes`, as its octets. Fails with
    /// [`Error::PackedU32ByteCount`] when none of the first three octets ends it.
    pub fn try_from(bytes: &[u8]) -> (r: Result<PackedU32, Error>)
        ensures
            packed_count(bytes@) == 0 ==> r == Err::<PackedU32, Error>(Error::PackedU32ByteCount),
            packed_count(bytes@) > 0 ==> (r matches Ok(p) && p.array@.subrange(
                0,
                packed_count(bytes@) as int,
            ) == bytes@.subrange(0, packed_count(bytes@) as int) && forall|i: int|
                packed_count(bytes@) <= i < 3 ==> p.array@[i] == 0),
    {
        let count = Self::count_bytes(bytes);
        if count == 0 || count > 3 {
            return Err(Error::PackedU32ByteCount);
        }
        let mut array: [u8; 3] = [0, 0, 0];
        if count == 1 {
            array = [bytes[0], 0, 0];
        } else if count == 2 {
            array = [bytes[0], bytes[1], 0];
        } else {
            array = [bytes[0], bytes[1], bytes[2]];
        }
        Ok(PackedU32 { array })
    }

    /// The value that this packed integer holds (zero when it does not end
    /// within its three octets).
    pub fn value(&self) -> (r: u32)
        ensures
            r == packed_value(self.array@),
    {
        Self::decode(&self.array).0
    }

    /// The number of octets that this packed value uses.
    pub fn len(&self) -> (r: usize)
        ensures
            r == packed_count(self.array@),
    {
        let r = Self::count_bytes(&self.array);
        proof {
            if r > 3 {
                assert(self.array@[0] >= 128);
            }
        }
        r
    }
}

impl From<PackedU32> for u32 {
    fn from(packed: PackedU32) -> (r: u32) {
        packed.value()
    }
}

impl vstd::std_specs::convert::FromSpecImpl<PackedU32> for u32 {
    open spec fn obeys_from_spec() -> bool {
        true
    }

    open spec fn from_spec(packed: PackedU32) -> u32 {
        packed_value(packed.array@) as u32
    }
}

} // verus!
