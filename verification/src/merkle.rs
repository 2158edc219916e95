use vstd::prelude::*;

use crate::le::{lemma_u64_le_value_roundtrip, u64_from_le_bytes, u64_le_bytes};
use crate::list::ProgressiveList;

verus! {

/// How a type is merkleized: basic values are packed into chunks, the other
/// kinds contribute their own root.
#[derive(Debug, Clone, Copy, PartialEq, Eq, Structural)]
pub enum TreeHashKind {
    Basic,
    Vector,
    List,
    Container,
}

/// An element type of a progressive list, as merkleization sees it.
pub trait TreeHashElement: Sized {
    /// How the type is merkleized.
    spec fn kind_spec() -> TreeHashKind;

    /// The bytes of a basic value as they are packed into chunks.
    spec fn packed_encoding_spec(&self) -> Seq<u8>;

    /// The value's own hash-tree root.
    spec fn root_spec(&self) -> Seq<u8>;

    fn tree_hash_type() -> (k: TreeHashKind)
        ensures
            k == Self::kind_spec(),
    ;

    fn tree_hash_packed_encoding(&self) -> (b: Vec<u8>)
        requires
            Self::kind_spec() == TreeHashKind::Basic,
        ensures
            b@ == self.packed_encoding_spec(),
    ;

    fn tree_hash_root(&self) -> (r: [u8; 32])
        ensures
            r@ == self.root_spec(),
    ;
}

/// Calls `<u64 as tree_hash::TreeHash>::tree_hash_type`, which says `Basic`.
#[verifier::external_body]
fn u64_tree_hash_type() -> (k: TreeHashKind)
    ensures
        k == TreeHashKind::Basic,
{
    match <u64 as tree_hash::TreeHash>::tree_hash_type() {
        tree_hash::TreeHashType::Basic => TreeHashKind::Basic,
        tree_hash::TreeHashType::Vector => TreeHashKind::Vector,
        tree_hash::TreeHashType::List => TreeHashKind::List,
        tree_hash::TreeHashType::Container => TreeHashKind::Container,
    }
}

/// Calls `<u64 as tree_hash::TreeHash>::tree_hash_packed_encoding`: the value's
/// eight little-endian bytes.
#[verifier::external_body]
fn u64_tree_hash_packed_encoding(x: u64) -> (b: Vec<u8>)
    ensures
        b@ == u64_le_bytes(x),
{
    tree_hash::TreeHash::tree_hash_packed_encoding(&x).to_vec()
}

/// Calls `<u64 as tree_hash::TreeHash>::tree_hash_root`: the value's eight
/// little-endian bytes padded with zeros to a chunk.
#[verifier::external_body]
fn u64_tree_hash_root(x: u64) -> (r: [u8; 32])
    ensures
        r@ == u64_le_bytes(x) + Seq::new(24, |i: int| 0u8),
{
    tree_hash::TreeHash::tree_hash_root(&x).0
}

/// Calls `<Hash256 as tree_hash::TreeHash>::tree_hash_type`, which says `Vector`.
#[verifier::external_body]
fn hash256_tree_hash_type() -> (k: TreeHashKind)
    ensures
        k == TreeHashKind::Vector,
{
    match <tree_hash::Hash256 as tree_hash::TreeHash>::tree_hash_type() {
        tree_hash::TreeHashType::Basic => TreeHashKind::Basic,
        tree_hash::TreeHashType::Vector => TreeHashKind::Vector,
        tree_hash::TreeHashType::List => TreeHashKind::List,
        tree_hash::TreeHashType::Container => TreeHashKind::Container,
    }
}

/// Calls `<Hash256 as tree_hash::TreeHash>::tree_hash_root`: a single chunk is its
/// own root.
#[verifier::external_body]
fn hash256_tree_hash_root(x: &[u8; 32]) -> (r: [u8; 32])
    ensures
        r@ == x@,
{
    tree_hash::TreeHash::tree_hash_root(&tree_hash::Hash256::new(*x)).0
}

impl TreeHashElement for u64 {
    open spec fn kind_spec() -> TreeHashKind {
        TreeHashKind::Basic
    }

    open spec fn packed_encoding_spec(&self) -> Seq<u8> {
        u64_le_bytes(*self)
    }

    open spec fn root_spec(&self) -> Seq<u8> {
        u64_le_bytes(*self) + Seq::new(24, |i: int| 0u8)
    }

    fn tree_hash_type() -> (k: TreeHashKind) {
        u64_tree_hash_type()
    }

    fn tree_hash_packed_encoding(&self) -> (b: Vec<u8>)
        ensures
            b@ == u64_le_bytes(*self),
    {
        u64_tree_hash_packed_encoding(*self)
    }

    fn tree_hash_root(&self) -> (r: [u8; 32])
        ensures
            r@ == u64_le_bytes(*self) + Seq::new(24, |i: int| 0u8),
    {
        u64_tree_hash_root(*self)
    }
}

/// A 32-byte hash (`Hash256`), held as its bytes.
impl TreeHashElement for [u8; 32] {
    open spec fn kind_spec() -> TreeHashKind {
        TreeHashKind::Vector
    }

    open spec fn packed_encoding_spec(&self) -> Seq<u8> {
        self@
    }

    open spec fn root_spec(&self) -> Seq<u8> {
        self@
    }

    fn tree_hash_type() -> (k: TreeHashKind) {
        hash256_tree_hash_type()
    }

    /// A vector is never packed, so this is never called.
    fn tree_hash_packed_encoding(&self) -> (b: Vec<u8>) {
        Vec::new()
    }

    fn tree_hash_root(&self) -> (r: [u8; 32])
        ensures
            r@ == self@,
    {
        hash256_tree_hash_root(self)
    }
}

/// The bytes of a chunk, as a vector.
fn chunk_to_vec(c: &[u8; 32]) -> (v: Vec<u8>)
    ensures
        v@ == c@,
{
    let mut v: Vec<u8> = Vec::new();
    let mut k: usize = 0;
    while k < 32
        invariant
            k <= 32,
            v@ == c@.take(k as int),
        decreases 32 - k,
    {
        v.push(c[k]);
        k = k + 1;
        assert(v@ =~= c@.take(k as int));
    }
    assert(c@.take(32) =~= c@);
    v
}

/// What an element contributes to the progressive hasher: its packed bytes if it
/// is basic, its root otherwise.
pub open spec fn leaf_bytes<T: TreeHashElement>(x: T) -> Seq<u8> {
    if T::kind_spec() == TreeHashKind::Basic {
        x.packed_encoding_spec()
    } else {
        x.root_spec()
    }
}

/// The byte strings that merkleizing `vec` into the progressive spine writes to
/// the hasher, one per element and in order.
pub fn progressive_hasher_writes<T: TreeHashElement>(vec: &[T]) -> (writes: Vec<Vec<u8>>)
    ensures
        writes@.len() == vec@.len(),
        forall|i: int| 0 <= i < vec@.len() ==> #[trigger] writes@[i]@ == leaf_bytes(vec@[i]),
        T::kind_spec() == TreeHashKind::Basic ==> forall|i: int|
            0 <= i < vec@.len() ==> #[trigger] writes@[i]@ == vec@[i].packed_encoding_spec(),
        T::kind_spec() != TreeHashKind::Basic ==> forall|i: int|
            0 <= i < vec@.len() ==> #[trigger] writes@[i]@ == vec@[i].root_spec(),
{
    let mut writes: Vec<Vec<u8>> = Vec::new();
    let basic = match T::tree_hash_type() {
        TreeHashKind::Basic => true,
        _ => false,
    };
    let mut i: usize = 0;
    while i < vec.len()
        invariant
            i <= vec@.len(),
            basic <==> T::kind_spec() == TreeHashKind::Basic,
            writes@.len() == i,
            forall|j: int| 0 <= j < i ==> #[trigger] writes@[j]@ == leaf_bytes(vec@[j]),
        decreases vec@.len() - i,
    {
        let item = &vec[i];
        if basic {
            writes.push(item.tree_hash_packed_encoding());
        } else {
            writes.push(chunk_to_vec(&item.tree_hash_root()));
        }
        i = i + 1;
    }
    writes
}

/// The node above a list's root that binds its length in: the hash of the root
/// and the length as a little-endian 32-byte chunk.
pub uninterp spec fn mix_in_length_spec(root: Seq<u8>, length: nat) -> Seq<u8>;

/// Calls `tree_hash::mix_in_length`, whose result this library names.
#[verifier::external_body]
fn mix_in_length(root: &[u8; 32], length: usize) -> (r: [u8; 32])
    ensures
        r@ == mix_in_length_spec(root@, length as nat),
{
    tree_hash::mix_in_length(&tree_hash::Hash256::new(*root), length).0
}

/// A basic element is written as its packed bytes, any other element as its own
/// hash-tree root, and as nothing else.
pub proof fn lemma_leaf_bytes_by_kind<T: TreeHashElement>(x: T)
    ensures
        T::kind_spec() == TreeHashKind::Basic ==> leaf_bytes(x) == x.packed_encoding_spec(),
        T::kind_spec() != TreeHashKind::Basic ==> leaf_bytes(x) == x.root_spec(),
{
}

/// A 32-byte hash is a vector, so it is written as its root, and that root is the
/// hash itself: the hasher receives exactly the hash's bytes, in order.
pub proof fn lemma_hash256_written_as_itself(x: [u8; 32])
    ensures
        <[u8; 32] as TreeHashElement>::kind_spec() != TreeHashKind::Basic,
        x.root_spec() == x@,
        leaf_bytes(x) == x@,
{
}

/// A `u64` is basic, so it is written packed: its eight bytes, least significant
/// first, from which the value is recovered.
pub proof fn lemma_u64_written_little_endian(x: u64)
    ensures
        <u64 as TreeHashElement>::kind_spec() == TreeHashKind::Basic,
        leaf_bytes(x).len() == 8,
        leaf_bytes(x)[0] == (x % 0x100) as u8,
        leaf_bytes(x)[1] == ((x / 0x100) % 0x100) as u8,
        leaf_bytes(x)[2] == ((x / 0x1_0000) % 0x100) as u8,
        leaf_bytes(x)[3] == ((x / 0x100_0000) % 0x100) as u8,
        leaf_bytes(x)[4] == ((x / 0x1_0000_0000) % 0x100) as u8,
        leaf_bytes(x)[5] == ((x / 0x100_0000_0000) % 0x100) as u8,
        leaf_bytes(x)[6] == ((x / 0x1_0000_0000_0000) % 0x100) as u8,
        leaf_bytes(x)[7] == (x / 0x100_0000_0000_0000) as u8,
        u64_from_le_bytes(leaf_bytes(x)) == x,
        x.root_spec() == leaf_bytes(x) + Seq::new(24, |i: int| 0u8),
{
    let b = leaf_bytes(x);
    assert(b == u64_le_bytes(x));
    assert({
        &&& (x & 0xff) as u8 == (x % 0x100) as u8
        &&& ((x >> 8) & 0xff) as u8 == ((x / 0x100) % 0x100) as u8
        &&& ((x >> 16) & 0xff) as u8 == ((x / 0x1_0000) % 0x100) as u8
        &&& ((x >> 24) & 0xff) as u8 == ((x / 0x100_0000) % 0x100) as u8
        &&& ((x >> 32) & 0xff) as u8 == ((x / 0x1_0000_0000) % 0x100) as u8
        &&& ((x >> 40) & 0xff) as u8 == ((x / 0x100_0000_0000) % 0x100) as u8
        &&& ((x >> 48) & 0xff) as u8 == ((x / 0x1_0000_0000_0000) % 0x100) as u8
        &&& ((x >> 56) & 0xff) as u8 == (x / 0x100_0000_0000_0000) as u8
    }) by (bit_vector);
    lemma_u64_le_value_roundtrip(x);
}

impl<T: TreeHashElement> ProgressiveList<T> {
    /// A progressive list is merkleized as a list.
    pub fn tree_hash_type() -> (k: TreeHashKind)
        ensures
            k == TreeHashKind::List,
    {
        TreeHashKind::List
    }

    /// What merkleizing the list writes to the progressive hasher.
    pub fn progressive_hasher_writes(&self) -> (writes: Vec<Vec<u8>>)
        ensures
            writes@.len() == self@.len(),
            forall|i: int|
                0 <= i < self@.len() ==> #[trigger] writes@[i]@ == leaf_bytes(self@[i]),
            T::kind_spec() == TreeHashKind::Basic ==> forall|i: int|
                0 <= i < self@.len() ==> #[trigger] writes@[i]@ == self@[i].packed_encoding_spec(),
            T::kind_spec() != TreeHashKind::Basic ==> forall|i: int|
                0 <= i < self@.len() ==> #[trigger] writes@[i]@ == self@[i].root_spec(),
    {
        progressive_hasher_writes(self.as_slice())
    }

    /// The list's hash-tree root, given the root of its elements in the progressive
    /// spine: the length is mixed in above it.
    pub fn tree_hash_root_over(&self, progressive_root: &[u8; 32]) -> (r: [u8; 32])
        ensures
            r@ == mix_in_length_spec(progressive_root@, self@.len()),
    {
        mix_in_length(progressive_root, self.len())
    }
}

} // verus!
