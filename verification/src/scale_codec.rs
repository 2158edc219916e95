use vstd::prelude::*;

use crate::le::{
    lemma_u64_le_bytes_roundtrip, lemma_u64_le_value_roundtrip, u64_from_le_bytes, u64_le_bytes,
};
use crate::list::ProgressiveList;
use crate::ssz_codec::ssz_encoding;

verus! {

/// The SCALE compact encoding of a collection's length `n` (at most `u32::MAX`):
/// one, two or four little-endian bytes holding `n` shifted left by two with the
/// mode in the low two bits, or the byte `3` followed by the four bytes of `n`.
pub open spec fn compact_len_encoding(n: nat) -> Seq<u8> {
    if n < 0x40 {
        seq![(n * 4) as u8]
    } else if n < 0x4000 {
        let v = n * 4 + 1;
        seq![(v % 256) as u8, (v / 256) as u8]
    } else if n < 0x4000_0000 {
        let v = n * 4 + 2;
        seq![
            (v % 256) as u8,
            ((v / 0x100) % 256) as u8,
            ((v / 0x1_0000) % 256) as u8,
            (v / 0x100_0000) as u8,
        ]
    } else {
        seq![
            3u8,
            (n % 256) as u8,
            ((n / 0x100) % 256) as u8,
            ((n / 0x1_0000) % 256) as u8,
            (n / 0x100_0000) as u8,
        ]
    }
}

/// The SCALE encoding of a list of `u64`: its compact length, then each
/// element's eight little-endian bytes.
pub open spec fn scale_encoding(s: Seq<u64>) -> Seq<u8> {
    compact_len_encoding(s.len()) + ssz_encoding(s)
}

/// The value of two little-endian bytes.
pub open spec fn le2(b0: u8, b1: u8) -> int {
    b0 + 0x100 * b1
}

/// The value of four little-endian bytes.
pub open spec fn le4(b0: u8, b1: u8, b2: u8, b3: u8) -> int {
    b0 + 0x100 * b1 + 0x1_0000 * b2 + 0x100_0000 * b3
}

/// Reading a compact `u32` length from the front of `b`: the length and the number of
/// bytes it took, or `None` where the bytes run out or the encoding is not the
/// shortest one for its value.
pub open spec fn compact_len_decoding(b: Seq<u8>) -> Option<(nat, nat)> {
    if b.len() == 0 {
        None
    } else if b[0] % 4 == 0 {
        Some(((b[0] / 4) as nat, 1))
    } else if b[0] % 4 == 1 {
        if b.len() < 2 {
            None
        } else {
            let x = le2(b[0], b[1]) / 4;
            if 0x40 <= x < 0x4000 {
                Some((x as nat, 2))
            } else {
                None
            }
        }
    } else if b[0] % 4 == 2 {
        if b.len() < 4 {
            None
        } else {
            let x = le4(b[0], b[1], b[2], b[3]) / 4;
            if 0x4000 <= x < 0x4000_0000 {
                Some((x as nat, 4))
            } else {
                None
            }
        }
    } else {
        if b[0] / 4 != 0 || b.len() < 5 {
            None
        } else {
            let x = le4(b[1], b[2], b[3], b[4]);
            if 0x4000_0000 <= x {
                Some((x as nat, 5))
            } else {
                None
            }
        }
    }
}

/// Reading a SCALE-encoded list of `u64` from the front of `b`: the elements and the
/// number of bytes read, or `None` where the length is malformed or the elements
/// that it announces are not all there. Bytes after them are left unread.
pub open spec fn scale_decoding(b: Seq<u8>) -> Option<(Seq<u64>, nat)> {
    match compact_len_decoding(b) {
        None => None,
        Some((n, c)) => if b.len() < c + 8 * n {
            None
        } else {
            Some(
                (
                    Seq::new(
                        n,
                        |i: int| u64_from_le_bytes(b.subrange(c + 8 * i, c + 8 * i + 8)),
                    ),
                    c + 8 * n,
                ),
            )
        },
    }
}

/// How many bytes a failed reading of a SCALE-encoded list of `u64` from the front
/// of `b` has taken: the bytes of the compact length that were read before the
/// length was refused, or the whole compact length where the elements it announces
/// are not all there. A read that does not fit takes nothing.
pub open spec fn scale_decoding_failure_read(b: Seq<u8>) -> nat {
    if b.len() == 0 {
        0
    } else if b[0] % 4 == 0 {
        1
    } else if b[0] % 4 == 1 {
        if b.len() < 2 {
            1
        } else {
            2
        }
    } else if b[0] % 4 == 2 {
        if b.len() < 4 {
            1
        } else {
            4
        }
    } else {
        if b[0] / 4 != 0 || b.len() < 5 {
            1
        } else {
            5
        }
    }
}

/// Why SCALE bytes do not decode to a list.
#[derive(Debug, PartialEq, Eq, Clone, Copy)]
pub enum ScaleDecodeError {
    /// The bytes are not the SCALE encoding of a list of `u64`.
    Malformed,
    /// A list of a fixed length decoded to another number of elements.
    WrongNumberOfElements,
    /// A list with a maximum length decoded to more elements than that.
    TooManyElements,
}

/// Calls `<[u64] as parity_scale_codec::Encode>::encode_to` on a `Vec<u8>`, which
/// appends the compact length and then the elements' little-endian bytes. The outside
/// code panics on a collection of more than `u32::MAX` elements.
#[verifier::external_body]
fn slice_u64_encode_to(s: &[u64], dest: &mut Vec<u8>)
    requires
        s@.len() <= u32::MAX,
    ensures
        final(dest)@ == old(dest)@ + scale_encoding(s@),
{
    parity_scale_codec::Encode::encode_to(s, dest)
}

/// Calls `<Vec<u64> as parity_scale_codec::Decode>::decode` on a byte slice: it reads a
/// compact `u32` length, refuses a non-canonical one, checks that the bytes for that
/// many elements are there, reads them, and leaves the slice after them. On an error
/// the slice is left after the bytes read so far: a read that does not fit takes
/// nothing, and the element check comes before any element is read.
#[verifier::external_body]
fn vec_u64_decode(input: &mut &[u8]) -> (r: Result<Vec<u64>, ScaleDecodeError>)
    ensures
        r is Ok <==> scale_decoding(old(input)@) is Some,
        r matches Ok(v) ==> {
            &&& v@ == scale_decoding(old(input)@).unwrap().0
            &&& final(input)@ == old(input)@.skip(scale_decoding(old(input)@).unwrap().1 as int)
        },
        r matches Err(e) ==> {
            &&& e == ScaleDecodeError::Malformed
            &&& final(input)@ == old(input)@.skip(scale_decoding_failure_read(old(input)@) as int)
        },
{
    match <Vec<u64> as parity_scale_codec::Decode>::decode(input) {
        Ok(v) => Ok(v),
        Err(_) => Err(ScaleDecodeError::Malformed),
    }
}

impl ProgressiveList<u64> {
    /// Appends the list's SCALE encoding, that of its elements as a plain slice.
    pub fn encode_to(&self, dest: &mut Vec<u8>)
        requires
            self@.len() <= u32::MAX,
        ensures
            final(dest)@ == old(dest)@ + scale_encoding(self@),
    {
        slice_u64_encode_to(self.as_slice(), dest)
    }

    /// The list's SCALE encoding.
    pub fn encode(&self) -> (bytes: Vec<u8>)
        requires
            self@.len() <= u32::MAX,
        ensures
            bytes@ == scale_encoding(self@),
    {
        let mut dest: Vec<u8> = Vec::new();
        self.encode_to(&mut dest);
        assert(dest@ =~= scale_encoding(self@));
        dest
    }

    /// Decodes a list from the front of `input` and advances `input` past it. A
    /// progressive list has no capacity, so there is no length rule to re-apply.
    pub fn decode(input: &mut &[u8]) -> (r: Result<Self, ScaleDecodeError>)
        ensures
            r is Ok <==> scale_decoding(old(input)@) is Some,
            r matches Ok(list) ==> {
                &&& list@ == scale_decoding(old(input)@).unwrap().0
                &&& final(input)@ == old(input)@.skip(
                    scale_decoding(old(input)@).unwrap().1 as int,
                )
            },
            r matches Err(e) ==> {
                &&& e == ScaleDecodeError::Malformed
                &&& final(input)@ == old(input)@.skip(
                    scale_decoding_failure_read(old(input)@) as int,
                )
            },
    {
        match vec_u64_decode(input) {
            Ok(v) => Ok(ProgressiveList::new(v)),
            Err(e) => Err(e),
        }
    }
}

/// Appends the SCALE encoding of a list of exactly `n` elements, which is that of
/// its elements as a plain slice.
pub fn encode_fixed_vector_u64(v: &[u64], n: usize, dest: &mut Vec<u8>)
    requires
        v@.len() == n,
        n <= u32::MAX,
    ensures
        final(dest)@ == old(dest)@ + scale_encoding(v@),
{
    slice_u64_encode_to(v, dest)
}

/// Appends the SCALE encoding of a list of at most `max` elements, which is that
/// of its elements as a plain slice.
pub fn encode_variable_list_u64(v: &[u64], max: usize, dest: &mut Vec<u8>)
    requires
        v@.len() <= max,
        v@.len() <= u32::MAX,
    ensures
        final(dest)@ == old(dest)@ + scale_encoding(v@),
{
    slice_u64_encode_to(v, dest)
}

/// Decodes a list that must hold exactly `n` elements from the front of `input`,
/// re-applying that length rule to what the plain list decoding gives.
pub fn decode_fixed_vector_u64(input: &mut &[u8], n: usize) -> (r: Result<
    Vec<u64>,
    ScaleDecodeError,
>)
    ensures
        match scale_decoding(old(input)@) {
            None => {
                &&& r == Err::<Vec<u64>, ScaleDecodeError>(ScaleDecodeError::Malformed)
                &&& final(input)@ == old(input)@.skip(
                    scale_decoding_failure_read(old(input)@) as int,
                )
            },
            Some((v, c)) => if v.len() == n {
                r matches Ok(w) && w@ == v && final(input)@ == old(input)@.skip(c as int)
            } else {
                &&& r == Err::<Vec<u64>, ScaleDecodeError>(ScaleDecodeError::WrongNumberOfElements)
                &&& final(input)@ == old(input)@.skip(c as int)
            },
        },
{
    let v = vec_u64_decode(input)?;
    if v.len() == n {
        Ok(v)
    } else {
        Err(ScaleDecodeError::WrongNumberOfElements)
    }
}

/// Decodes a list of at most `max` elements from the front of `input`,
/// re-applying that length rule to what the plain list decoding gives.
pub fn decode_variable_list_u64(input: &mut &[u8], max: usize) -> (r: Result<
    Vec<u64>,
    ScaleDecodeError,
>)
    ensures
        match scale_decoding(old(input)@) {
            None => {
                &&& r == Err::<Vec<u64>, ScaleDecodeError>(ScaleDecodeError::Malformed)
                &&& final(input)@ == old(input)@.skip(
                    scale_decoding_failure_read(old(input)@) as int,
                )
            },
            Some((v, c)) => if v.len() <= max {
                r matches Ok(w) && w@ == v && final(input)@ == old(input)@.skip(c as int)
            } else {
                &&& r == Err::<Vec<u64>, ScaleDecodeError>(ScaleDecodeError::TooManyElements)
                &&& final(input)@ == old(input)@.skip(c as int)
            },
        },
{
    let v = vec_u64_decode(input)?;
    if v.len() <= max {
        Ok(v)
    } else {
        Err(ScaleDecodeError::TooManyElements)
    }
}

/// Reading the compact encoding of a length gives the length back and stops
/// where the encoding ends, whatever follows it.
pub proof fn lemma_compact_len_roundtrip(n: nat, rest: Seq<u8>)
    requires
        n <= u32::MAX,
    ensures
        compact_len_decoding(compact_len_encoding(n) + rest) == Some(
            (n, compact_len_encoding(n).len()),
        ),
{
    let e = compact_len_encoding(n);
    let b = e + rest;
    if n < 0x40 {
        assert(b[0] == e[0]);
        assert(b[0] % 4 == 0 && b[0] / 4 == n);
    } else if n < 0x4000 {
        let v = n * 4 + 1;
        assert(b[0] == e[0] && b[1] == e[1]);
        assert(le2(b[0], b[1]) == v && b[0] % 4 == 1 && v / 4 == n) by (nonlinear_arith)
            requires
                v == n * 4 + 1,
                0x40 <= n < 0x4000,
                b[0] == (v % 256) as u8,
                b[1] == (v / 256) as u8,
        ;
    } else if n < 0x4000_0000 {
        let v = n * 4 + 2;
        assert(b[0] == e[0] && b[1] == e[1] && b[2] == e[2] && b[3] == e[3]);
        assert(le4(b[0], b[1], b[2], b[3]) == v && b[0] % 4 == 2 && v / 4 == n)
            by (nonlinear_arith)
            requires
                v == n * 4 + 2,
                0x4000 <= n < 0x4000_0000,
                b[0] == (v % 256) as u8,
                b[1] == ((v / 0x100) % 256) as u8,
                b[2] == ((v / 0x1_0000) % 256) as u8,
                b[3] == (v / 0x100_0000) as u8,
        ;
    } else {
        assert(b[0] == e[0] && b[1] == e[1] && b[2] == e[2] && b[3] == e[3] && b[4] == e[4]);
        assert(le4(b[1], b[2], b[3], b[4]) == n) by (nonlinear_arith)
            requires
                0x4000_0000 <= n <= u32::MAX,
                b[1] == (n % 256) as u8,
                b[2] == ((n / 0x100) % 256) as u8,
                b[3] == ((n / 0x1_0000) % 256) as u8,
                b[4] == (n / 0x100_0000) as u8,
        ;
    }
}

/// Decoding the SCALE encoding of a list gives the list back and reads exactly
/// the encoding, whatever follows it.
pub proof fn lemma_scale_encode_decode(s: Seq<u64>, rest: Seq<u8>)
    requires
        s.len() <= u32::MAX,
    ensures
        scale_decoding(scale_encoding(s) + rest) == Some((s, scale_encoding(s).len())),
{
    let c = compact_len_encoding(s.len());
    let body = ssz_encoding(s);
    let b = scale_encoding(s) + rest;
    assert(b =~= c + (body + rest));
    lemma_compact_len_roundtrip(s.len(), body + rest);
    let n = s.len();
    assert(body.len() == 8 * n);
    let decoded = Seq::new(
        n,
        |i: int| u64_from_le_bytes(b.subrange(c.len() + 8 * i, c.len() + 8 * i + 8)),
    );
    assert forall|i: int| 0 <= i < n implies #[trigger] decoded[i] == s[i] by {
        let chunk = b.subrange(c.len() + 8 * i, c.len() + 8 * i + 8);
        assert forall|k: int| 0 <= k < 8 implies chunk[k] == u64_le_bytes(s[i])[k] by {
            assert((8 * i + k) / 8 == i && (8 * i + k) % 8 == k && 8 * i + k < 8 * n)
                by (nonlinear_arith)
                requires
                    0 <= k < 8,
                    0 <= i < n,
            ;
            assert(chunk[k] == body[8 * i + k]);
        }
        assert(chunk =~= u64_le_bytes(s[i]));
        lemma_u64_le_value_roundtrip(s[i]);
    }
    assert(decoded =~= s);
}

/// A compact length that decodes is the one encoding of its value: encoding the
/// length gives back exactly the bytes that were read.
pub proof fn lemma_compact_len_canonical(b: Seq<u8>)
    requires
        compact_len_decoding(b) is Some,
    ensures
        compact_len_decoding(b).unwrap().0 <= u32::MAX,
        compact_len_encoding(compact_len_decoding(b).unwrap().0) == b.take(
            compact_len_decoding(b).unwrap().1 as int,
        ),
{
    let (n, c) = compact_len_decoding(b).unwrap();
    let e = compact_len_encoding(n);
    let (b0, b1, b2, b3) = (b[0], b[1], b[2], b[3]);
    if b0 % 4 == 0 {
        assert(e =~= b.take(1));
    } else if b0 % 4 == 1 {
        let v = n * 4 + 1;
        assert(v == le2(b0, b1) && v % 256 == b0 && v / 256 == b1) by (nonlinear_arith)
            requires
                b0 % 4 == 1,
                n == le2(b0, b1) / 4,
                v == n * 4 + 1,
        ;
        assert(e =~= b.take(2));
    } else if b0 % 4 == 2 {
        let v = n * 4 + 2;
        assert(v == le4(b0, b1, b2, b3) && v % 256 == b0 && (v / 0x100) % 256 == b1 && (v
            / 0x1_0000) % 256 == b2 && v / 0x100_0000 == b3) by (nonlinear_arith)
            requires
                b0 % 4 == 2,
                n == le4(b0, b1, b2, b3) / 4,
                v == n * 4 + 2,
        ;
        assert(e =~= b.take(4));
    } else {
        let b4 = b[4];
        assert(b0 == 3);
        assert(n <= u32::MAX && n % 256 == b1 && (n / 0x100) % 256 == b2 && (n / 0x1_0000) % 256
            == b3 && n / 0x100_0000 == b4) by (nonlinear_arith)
            requires
                n == le4(b1, b2, b3, b4),
        ;
        assert(e =~= b.take(5));
    }
}

/// Bytes that decode begin with the encoding of what they decode to: the encoding
/// is the only one of its list.
pub proof fn lemma_scale_decode_encode(b: Seq<u8>)
    requires
        scale_decoding(b) is Some,
    ensures
        scale_decoding(b).unwrap().0.len() <= u32::MAX,
        scale_encoding(scale_decoding(b).unwrap().0) == b.take(scale_decoding(b).unwrap().1 as int),
{
    let (n, c) = compact_len_decoding(b).unwrap();
    lemma_compact_len_canonical(b);
    let (s, total) = scale_decoding(b).unwrap();
    assert(s.len() == n && total == c + 8 * n);
    let body = ssz_encoding(s);
    assert forall|j: int| 0 <= j < 8 * n implies #[trigger] body[j] == b[c + j] by {
        let i = j / 8;
        let k = j % 8;
        assert(0 <= i < n && 0 <= k < 8 && j == 8 * i + k) by (nonlinear_arith)
            requires
                0 <= j < 8 * n,
                i == j / 8,
                k == j % 8,
        ;
        let chunk = b.subrange(c + 8 * i, c + 8 * i + 8);
        lemma_u64_le_bytes_roundtrip(chunk);
        assert(u64_le_bytes(s[i]) == chunk);
        assert(chunk[k] == b[c + j]);
    }
    assert(scale_encoding(s) =~= b.take(total as int));
}

} // verus!
