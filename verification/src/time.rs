//! Conversion of timestamps to and from their big endian byte form.
//!
//! A timestamp is held as signed nanoseconds since the unix epoch: negative
//! values lie before the epoch.

use vstd::prelude::*;

verus! {

/// The eight big endian bytes of `x`.
pub open spec fn be_bytes_of(x: int) -> Seq<u8> {
    let x = x as u64;
    seq![
        (x >> 56u64) as u8,
        (x >> 48u64) as u8,
        (x >> 40u64) as u8,
        (x >> 32u64) as u8,
        (x >> 24u64) as u8,
        (x >> 16u64) as u8,
        (x >> 8u64) as u8,
        x as u8,
    ]
}

/// The number whose big endian bytes are `b` (which holds eight bytes).
pub open spec fn u64_of_be_bytes(b: Seq<u8>) -> u64 {
    ((b[0] as u64) << 56u64) | ((b[1] as u64) << 48u64) | ((b[2] as u64) << 40u64) | ((b[3] as u64)
        << 32u64) | ((b[4] as u64) << 24u64) | ((b[5] as u64) << 16u64) | ((b[6] as u64) << 8u64) | (
    b[7] as u64)
}

/// The big endian bytes of `x`.
pub fn u64_to_be_bytes(x: u64) -> (bytes: [u8; 8])
    ensures
        bytes@ == be_bytes_of(x as int),
{
    let bytes = [
        (x >> 56u64) as u8,
        (x >> 48u64) as u8,
        (x >> 40u64) as u8,
        (x >> 32u64) as u8,
        (x >> 24u64) as u8,
        (x >> 16u64) as u8,
        (x >> 8u64) as u8,
        x as u8,
    ];
    assert(bytes@ =~= be_bytes_of(x as int));
    bytes
}

/// The number whose big endian bytes are `bytes`.
pub fn u64_from_be_bytes(bytes: &[u8]) -> (x: u64)
    requires
        bytes@.len() == 8,
    ensures
        x == u64_of_be_bytes(bytes@),
{
    ((bytes[0] as u64) << 56u64) | ((bytes[1] as u64) << 48u64) | ((bytes[2] as u64) << 40u64) | ((
    bytes[3] as u64) << 32u64) | ((bytes[4] as u64) << 24u64) | ((bytes[5] as u64) << 16u64) | ((
    bytes[6] as u64) << 8u64) | (bytes[7] as u64)
}

/// Decoding the big endian bytes of a number gives back the number.
pub proof fn lemma_be_bytes_roundtrip(x: u64)
    ensures
        u64_of_be_bytes(be_bytes_of(x as int)) == x,
{
    let b = be_bytes_of(x as int);
    let (b0, b1, b2, b3, b4, b5, b6, b7) = (b[0], b[1], b[2], b[3], b[4], b[5], b[6], b[7]);
    assert(b0 == (x >> 56u64) as u8 && b1 == (x >> 48u64) as u8 && b2 == (x >> 40u64) as u8 && b3 == (x
        >> 32u64) as u8 && b4 == (x >> 24u64) as u8 && b5 == (x >> 16u64) as u8 && b6 == (x >> 8u64) as u8
        && b7 == x as u8);
    assert(((b0 as u64) << 56u64) | ((b1 as u64) << 48u64) | ((b2 as u64) << 40u64) | ((b3 as u64)
        << 32u64) | ((b4 as u64) << 24u64) | ((b5 as u64) << 16u64) | ((b6 as u64) << 8u64) | (b7 as u64)
        == x) by (bit_vector)
        requires
            b0 == (x >> 56u64) as u8 && b1 == (x >> 48u64) as u8 && b2 == (x >> 40u64) as u8 && b3 == (x
                >> 32u64) as u8 && b4 == (x >> 24u64) as u8 && b5 == (x >> 16u64) as u8 && b6 == (x
                >> 8u64) as u8 && b7 == x as u8,
    ;
}

/// The signed timestamp whose bit pattern is the unsigned number `x`.
pub open spec fn signed_of(x: u64) -> i64 {
    x as i64
}

/// Convert a timestamp (signed nanoseconds since the epoch) to its eight
/// big endian bytes (two's complement).
pub fn system_time_to_bytes(nanos: i64) -> (bytes: [u8; 8])
    ensures
        bytes@ == be_bytes_of(nanos as int),
{
    u64_to_be_bytes(nanos as u64)
}

/// Convert eight big endian bytes back to a timestamp.
///
/// `bytes` must hold eight bytes: a byte array of another length holds no
/// timestamp, and reading it is a fault.
pub fn system_time_from_bytes(bytes: &[u8]) -> (nanos: i64)
    requires
        bytes@.len() == 8,
    ensures
        nanos == signed_of(u64_of_be_bytes(bytes@)),
{
    u64_from_be_bytes(bytes) as i64
}

/// Reading back the bytes of a timestamp gives the timestamp.
pub proof fn law_time_bytes_roundtrip(nanos: i64)
    ensures
        signed_of(u64_of_be_bytes(be_bytes_of(nanos as int))) == nanos,
{
    let x = nanos as u64;
    lemma_be_bytes_roundtrip(x);
    assert(be_bytes_of(nanos as int) == be_bytes_of(x as int));
    assert((x as i64) == nanos) by (bit_vector)
        requires
            x == nanos as u64,
    ;
}

/// The distance of a timestamp from the epoch, and on which side of the
/// epoch it lies (`true`: before).
///
/// The distance of a negative timestamp is computed as `-(nanos + 1) + 1`,
/// which does not overflow for the smallest timestamp.
pub fn split_timestamp(nanos: i64) -> (split: (bool, u64))
    ensures
        split.0 == (nanos < 0),
        nanos >= 0 ==> split.1 == nanos,
        nanos < 0 ==> split.1 == -nanos,
{
    if nanos >= 0 {
        (false, nanos as u64)
    } else {
        (true, (-(nanos + 1)) as u64 + 1)
    }
}


/// Whether `a` comes before `b` in lexicographic byte order (the order of
/// keys in the store): at the first position where they differ `a` holds the
/// smaller byte, or `a` is a proper prefix of `b`.
pub open spec fn bytes_lt(a: Seq<u8>, b: Seq<u8>) -> bool {
    ||| exists|k: int| 0 <= k < a.len() && k < b.len() && a.take(k) == b.take(k) && #[trigger] a[k] < b[k]
    ||| a.len() < b.len() && b.take(a.len() as int) == a
}

/// The big endian bytes of a smaller number come first in byte order.
proof fn lemma_be_bytes_lt(x: u64, y: u64)
    requires
        x < y,
    ensures
        bytes_lt(be_bytes_of(x as int), be_bytes_of(y as int)),
{
    let a = be_bytes_of(x as int);
    let b = be_bytes_of(y as int);
    assert(a[0] == (x >> 56u64) as u8 && b[0] == (y >> 56u64) as u8);
    assert(a[1] == (x >> 48u64) as u8 && b[1] == (y >> 48u64) as u8);
    assert(a[2] == (x >> 40u64) as u8 && b[2] == (y >> 40u64) as u8);
    assert(a[3] == (x >> 32u64) as u8 && b[3] == (y >> 32u64) as u8);
    assert(a[4] == (x >> 24u64) as u8 && b[4] == (y >> 24u64) as u8);
    assert(a[5] == (x >> 16u64) as u8 && b[5] == (y >> 16u64) as u8);
    assert(a[6] == (x >> 8u64) as u8 && b[6] == (y >> 8u64) as u8);
    assert(a[7] == x as u8 && b[7] == y as u8);
    let k = if a[0] != b[0] {
        0int
    } else if a[1] != b[1] {
        1int
    } else if a[2] != b[2] {
        2int
    } else if a[3] != b[3] {
        3int
    } else if a[4] != b[4] {
        4int
    } else if a[5] != b[5] {
        5int
    } else if a[6] != b[6] {
        6int
    } else {
        7int
    };
    // The first differing byte of the smaller number is the smaller one.
    assert(a[k] < b[k]) by {
        let (x0, x1, x2, x3, x4, x5, x6, x7) = (a[0], a[1], a[2], a[3], a[4], a[5], a[6], a[7]);
        let (y0, y1, y2, y3, y4, y5, y6, y7) = (b[0], b[1], b[2], b[3], b[4], b[5], b[6], b[7]);
        assert(
            (x0 == (x >> 56u64) as u8 && x1 == (x >> 48u64) as u8 && x2 == (x >> 40u64) as u8 && x3 == (x >> 32u64) as u8
            && x4 == (x >> 24u64) as u8 && x5 == (x >> 16u64) as u8 && x6 == (x >> 8u64) as u8 && x7 == x as u8
            && y0 == (y >> 56u64) as u8 && y1 == (y >> 48u64) as u8 && y2 == (y >> 40u64) as u8 && y3 == (y >> 32u64) as u8
            && y4 == (y >> 24u64) as u8 && y5 == (y >> 16u64) as u8 && y6 == (y >> 8u64) as u8 && y7 == y as u8
            && x < y) ==> (
            (x0 != y0 ==> x0 < y0)
            && (x0 == y0 && x1 != y1 ==> x1 < y1)
            && (x0 == y0 && x1 == y1 && x2 != y2 ==> x2 < y2)
            && (x0 == y0 && x1 == y1 && x2 == y2 && x3 != y3 ==> x3 < y3)
            && (x0 == y0 && x1 == y1 && x2 == y2 && x3 == y3 && x4 != y4 ==> x4 < y4)
            && (x0 == y0 && x1 == y1 && x2 == y2 && x3 == y3 && x4 == y4 && x5 != y5 ==> x5 < y5)
            && (x0 == y0 && x1 == y1 && x2 == y2 && x3 == y3 && x4 == y4 && x5 == y5 && x6 != y6 ==> x6 < y6)
            && (x0 == y0 && x1 == y1 && x2 == y2 && x3 == y3 && x4 == y4 && x5 == y5 && x6 == y6 ==> x7 < y7))
        ) by (bit_vector);
    }
    assert(a.take(k) =~= b.take(k));
}

/// Byte order is irreflexive and asymmetric on sequences of one length.
proof fn lemma_bytes_lt_asymmetric(a: Seq<u8>, b: Seq<u8>)
    requires
        a.len() == b.len(),
        bytes_lt(a, b),
    ensures
        !bytes_lt(b, a),
        a != b,
{
    let k = choose|k: int| 0 <= k < a.len() && k < b.len() && a.take(k) == b.take(k) && #[trigger] a[k] < b[k];
    if bytes_lt(b, a) {
        let j = choose|j: int| 0 <= j < b.len() && j < a.len() && b.take(j) == a.take(j) && #[trigger] b[j] < a[j];
        if j < k {
            assert(a.take(k)[j] == b.take(k)[j]);
        } else if k < j {
            assert(a.take(j)[k] == b.take(j)[k]);
        }
    }
}

/// Timestamps from the epoch on are stored in eight bytes that order as the
/// timestamps do: the earlier timestamp has the smaller key, and two keys are
/// equal only for equal timestamps.
pub proof fn law_time_bytes_order(t1: i64, t2: i64)
    requires
        0 <= t1,
        0 <= t2,
    ensures
        be_bytes_of(t1 as int).len() == 8,
        t1 < t2 <==> bytes_lt(be_bytes_of(t1 as int), be_bytes_of(t2 as int)),
        t1 == t2 <==> be_bytes_of(t1 as int) == be_bytes_of(t2 as int),
{
    let a = be_bytes_of(t1 as int);
    let b = be_bytes_of(t2 as int);
    let x = t1 as u64;
    let y = t2 as u64;
    assert(x as int == t1 && y as int == t2);
    assert(a == be_bytes_of(x as int) && b == be_bytes_of(y as int));
    if t1 < t2 {
        lemma_be_bytes_lt(x, y);
        lemma_bytes_lt_asymmetric(a, b);
    } else if t2 < t1 {
        lemma_be_bytes_lt(y, x);
        lemma_bytes_lt_asymmetric(b, a);
    } else {
        assert(!bytes_lt(a, b)) by {
            if bytes_lt(a, b) {
                lemma_bytes_lt_asymmetric(a, b);
            }
        }
    }
}

} // verus!
