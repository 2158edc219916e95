use vstd::prelude::*;

use crate::le::{lemma_u64_le_bytes_roundtrip, lemma_u64_le_value_roundtrip, u64_from_le_bytes, u64_le_bytes};
use crate::list::ProgressiveList;

verus! {

/// The SSZ encoding of a list of `u64`: each element's eight little-endian
/// bytes, one after another.
pub open spec fn ssz_encoding(s: Seq<u64>) -> Seq<u8> {
    Seq::new((s.len() * 8) as nat, |j: int| u64_le_bytes(s[j / 8])[j % 8])
}

/// The elements that a byte string of a length divisible by eight encodes.
pub open spec fn ssz_elements(b: Seq<u8>) -> Seq<u64> {
    Seq::new(b.len() / 8, |i: int| u64_from_le_bytes(b.subrange(8 * i, 8 * i + 8)))
}

/// Why SSZ bytes do not decode to a list of `u64`.
#[derive(Debug, PartialEq, Eq, Clone, Copy)]
pub enum SszDecodeError {
    /// The bytes end in a piece of `len` bytes, where an element needs `expected`.
    InvalidByteLength { len: usize, expected: usize },
    /// The decoder refused the bytes for another reason.
    Malformed,
}

/// What decoding SSZ bytes as a list of `u64` gives.
pub open spec fn ssz_decoding(b: Seq<u8>) -> Result<Seq<u64>, SszDecodeError> {
    if b.len() % 8 == 0 {
        Ok(ssz_elements(b))
    } else {
        Err(SszDecodeError::InvalidByteLength { len: (b.len() % 8) as usize, expected: 8 })
    }
}

/// Calls `<Vec<u64> as ssz::Encode>::ssz_append`, which appends each element's
/// little-endian bytes to `buf` in order.
#[verifier::external_body]
fn vec_u64_ssz_append(v: &Vec<u64>, buf: &mut Vec<u8>)
    ensures
        final(buf)@ == old(buf)@ + ssz_encoding(v@),
{
    ssz::Encode::ssz_append(v, buf)
}

/// Calls `<Vec<u64> as ssz::Encode>::ssz_bytes_len`: eight bytes per element.
/// The outside code multiplies without a check, so the product must fit.
#[verifier::external_body]
fn vec_u64_ssz_bytes_len(v: &Vec<u64>) -> (n: usize)
    requires
        v@.len() * 8 <= usize::MAX,
    ensures
        n == v@.len() * 8,
{
    ssz::Encode::ssz_bytes_len(v)
}

/// Calls `<Vec<u64> as ssz::Encode>::is_ssz_fixed_len`: a list is never of fixed length.
#[verifier::external_body]
fn vec_u64_is_ssz_fixed_len() -> (b: bool)
    ensures
        !b,
{
    <Vec<u64> as ssz::Encode>::is_ssz_fixed_len()
}

/// Calls `<Vec<u64> as ssz::Encode>::ssz_fixed_len`: a variable-length item takes
/// the four bytes of an offset in its container's fixed part.
#[verifier::external_body]
fn vec_u64_ssz_fixed_len() -> (n: usize)
    ensures
        n == 4,
{
    <Vec<u64> as ssz::Encode>::ssz_fixed_len()
}

/// Calls `<Vec<u64> as ssz::Decode>::from_ssz_bytes`, which gives the empty list for no
/// bytes, and otherwise decodes eight-byte chunks in order, failing on a short last one.
#[verifier::external_body]
fn vec_u64_from_ssz_bytes(bytes: &[u8]) -> (r: Result<Vec<u64>, SszDecodeError>)
    ensures
        match r {
            Ok(v) => ssz_decoding(bytes@) == Ok::<Seq<u64>, SszDecodeError>(v@),
            Err(e) => ssz_decoding(bytes@) == Err::<Seq<u64>, SszDecodeError>(e),
        },
{
    match <Vec<u64> as ssz::Decode>::from_ssz_bytes(bytes) {
        Ok(v) => Ok(v),
        Err(ssz::DecodeError::InvalidByteLength { len, expected }) => Err(
            SszDecodeError::InvalidByteLength { len, expected },
        ),
        Err(_) => Err(SszDecodeError::Malformed),
    }
}

impl ProgressiveList<u64> {
    /// A progressive list is of variable length on the wire, as a plain list is.
    pub fn is_ssz_fixed_len() -> (b: bool)
        ensures
            !b,
    {
        vec_u64_is_ssz_fixed_len()
    }

    /// The size the list takes in a container's fixed part: that of a plain list.
    pub fn ssz_fixed_len() -> (n: usize)
        ensures
            n == 4,
    {
        vec_u64_ssz_fixed_len()
    }

    /// The number of bytes of the list's SSZ encoding.
    pub fn ssz_bytes_len(&self) -> (n: usize)
        requires
            self@.len() * 8 <= usize::MAX,
        ensures
            n == ssz_encoding(self@).len(),
    {
        vec_u64_ssz_bytes_len(self.as_vec())
    }

    /// Appends the list's SSZ encoding, which is that of a plain list, to `buf`.
    pub fn ssz_append(&self, buf: &mut Vec<u8>)
        ensures
            final(buf)@ == old(buf)@ + ssz_encoding(self@),
    {
        vec_u64_ssz_append(self.as_vec(), buf)
    }

    /// The list's SSZ encoding.
    pub fn as_ssz_bytes(&self) -> (bytes: Vec<u8>)
        ensures
            bytes@ == ssz_encoding(self@),
    {
        let mut buf: Vec<u8> = Vec::new();
        self.ssz_append(&mut buf);
        assert(buf@ =~= ssz_encoding(self@));
        buf
    }

    /// Decoding never expects a fixed length: the list has no capacity.
    pub fn is_ssz_fixed_len_for_decoding() -> (b: bool)
        ensures
            !b,
    {
        false
    }

    /// Decodes a list from its SSZ encoding. No bytes give the empty list; as there
    /// is no capacity, the decoded length is checked against nothing.
    pub fn from_ssz_bytes(bytes: &[u8]) -> (r: Result<Self, SszDecodeError>)
        ensures
            match r {
                Ok(list) => ssz_decoding(bytes@) == Ok::<Seq<u64>, SszDecodeError>(list@),
                Err(e) => ssz_decoding(bytes@) == Err::<Seq<u64>, SszDecodeError>(e),
            },
    {
        if bytes.len() == 0 {
            let list = Self::default();
            assert(ssz_elements(bytes@) =~= list@);
            return Ok(list);
        }
        match vec_u64_from_ssz_bytes(bytes) {
            Ok(v) => Ok(ProgressiveList::new(v)),
            Err(e) => Err(e),
        }
    }
}

/// Decoding the SSZ encoding of a list gives the list back.
pub proof fn lemma_ssz_encode_decode(s: Seq<u64>)
    ensures
        ssz_decoding(ssz_encoding(s)) == Ok::<Seq<u64>, SszDecodeError>(s),
{
    let b = ssz_encoding(s);
    assert(b.len() % 8 == 0) by (nonlinear_arith)
        requires
            b.len() == s.len() * 8,
    ;
    assert(b.len() / 8 == s.len()) by (nonlinear_arith)
        requires
            b.len() == s.len() * 8,
    ;
    assert forall|i: int| 0 <= i < s.len() implies #[trigger] ssz_elements(b)[i] == s[i] by {
        let chunk = b.subrange(8 * i, 8 * i + 8);
        assert forall|k: int| 0 <= k < 8 implies chunk[k] == u64_le_bytes(s[i])[k] by {
            assert((8 * i + k) / 8 == i && (8 * i + k) % 8 == k) by (nonlinear_arith)
                requires
                    0 <= k < 8,
            ;
        }
        assert(chunk =~= u64_le_bytes(s[i]));
        lemma_u64_le_value_roundtrip(s[i]);
    }
    assert(ssz_elements(b) =~= s);
}

/// Bytes that decode are the encoding of what they decode to.
pub proof fn lemma_ssz_decode_encode(b: Seq<u8>)
    requires
        ssz_decoding(b) is Ok,
    ensures
        ssz_encoding(ssz_elements(b)) == b,
{
    let s = ssz_elements(b);
    assert(s.len() * 8 == b.len()) by (nonlinear_arith)
        requires
            b.len() % 8 == 0,
            s.len() == b.len() / 8,
    ;
    assert forall|j: int| 0 <= j < b.len() implies #[trigger] ssz_encoding(s)[j] == b[j] by {
        let i = j / 8;
        let k = j % 8;
        assert(0 <= i < s.len() && 0 <= k < 8 && j == 8 * i + k) by (nonlinear_arith)
            requires
                0 <= j < b.len(),
                i == j / 8,
                k == j % 8,
                s.len() * 8 == b.len(),
        ;
        let chunk = b.subrange(8 * i, 8 * i + 8);
        lemma_u64_le_bytes_roundtrip(chunk);
        assert(u64_le_bytes(s[i]) == chunk);
    }
    assert(ssz_encoding(s) =~= b);
}

} // verus!
