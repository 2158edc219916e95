use progressive_list::merkle::{progressive_hasher_writes, TreeHashKind, TreeHashElement};
use progressive_list::ssz_codec::SszDecodeError;
use progressive_list::ProgressiveList;
use ssz::Encode;
use tree_hash::Hash256;

#[test]
fn serialization_matches_a_plain_vec() {
    let values: Vec<u64> = (0..20).collect();
    let list = ProgressiveList::from(values.clone());

    // Only merkleization differs, so the wire format must be byte identical.
    assert_eq!(list.as_ssz_bytes(), values.as_ssz_bytes());

    let decoded = ProgressiveList::<u64>::from_ssz_bytes(&values.as_ssz_bytes()).unwrap();
    assert_eq!(decoded.into_vec(), values);
}

#[test]
fn empty_list_round_trips() {
    let list = ProgressiveList::<u64>::empty();
    assert_eq!(list.as_ssz_bytes(), Vec::<u8>::new());
    assert!(ProgressiveList::<u64>::from_ssz_bytes(&[]).unwrap().is_empty());
}

#[test]
fn ssz_bytes_are_little_endian_elements() {
    let list = ProgressiveList::new(vec![1u64, 0x0102_0304_0506_0708]);
    assert_eq!(
        list.as_ssz_bytes(),
        vec![1, 0, 0, 0, 0, 0, 0, 0, 8, 7, 6, 5, 4, 3, 2, 1]
    );
    assert_eq!(list.ssz_bytes_len(), 16);
    let mut buf = vec![0xaa];
    list.ssz_append(&mut buf);
    assert_eq!(buf.len(), 17);
    assert_eq!(buf[0], 0xaa);
    assert_eq!(&buf[1..], &list.as_ssz_bytes()[..]);
}

#[test]
fn ssz_fixed_length_answers_are_those_of_a_plain_list() {
    assert!(!ProgressiveList::<u64>::is_ssz_fixed_len());
    assert_eq!(ProgressiveList::<u64>::ssz_fixed_len(), 4);
    assert_eq!(ProgressiveList::<u64>::ssz_fixed_len(), <Vec<u64> as Encode>::ssz_fixed_len());
    assert!(!ProgressiveList::<u64>::is_ssz_fixed_len_for_decoding());
}

#[test]
fn ssz_decoding_rejects_a_short_last_element() {
    let bytes = vec![1u8, 0, 0, 0, 0, 0, 0, 0, 9, 9, 9];
    assert_eq!(
        ProgressiveList::<u64>::from_ssz_bytes(&bytes),
        Err(SszDecodeError::InvalidByteLength { len: 3, expected: 8 })
    );
    assert_eq!(
        ProgressiveList::<u64>::from_ssz_bytes(&[7]),
        Err(SszDecodeError::InvalidByteLength { len: 1, expected: 8 })
    );
}

#[test]
fn ssz_decoding_has_no_length_limit() {
    let values: Vec<u64> = (0..5000).collect();
    let decoded = ProgressiveList::<u64>::from_ssz_bytes(&values.as_ssz_bytes()).unwrap();
    assert_eq!(decoded.len(), 5000);
    assert_eq!(decoded.into_vec(), values);
}

#[test]
fn list_operations_follow_the_vector() {
    let mut list = ProgressiveList::<u64>::default();
    assert!(list.is_empty());
    assert_eq!(list.len(), 0);
    list.push(3);
    list.push(4);
    assert_eq!(list.len(), 2);
    assert!(!list.is_empty());
    assert_eq!(list.get(1), Some(&4));
    assert_eq!(list.get(2), None);
    assert_eq!(*list.index(0), 3);
    *list.index_mut(0) = 10;
    list.set(1, 11);
    assert_eq!(list.as_slice(), &[10, 11]);
    assert_eq!(list.slice(1, 2), &[11]);
    assert_eq!(list.slice(0, 2), &[10, 11]);
    assert!(list.slice(2, 2).is_empty());
    list.as_mut_slice()[0] = 12;
    assert_eq!(&*list, &[12, 11]);
    assert_eq!(list.as_ref(), &[12, 11]);
    let copy = list.clone();
    assert_eq!(copy, list);
    let borrowed: Vec<&u64> = (&list).into_iter().collect();
    assert_eq!(borrowed, vec![&12, &11]);
    let owned: Vec<u64> = list.into_iter().collect();
    assert_eq!(owned, vec![12, 11]);
}

#[test]
fn conversions_round_trip() {
    let values = vec![5u64, 6, 7];
    let list: ProgressiveList<u64> = values.clone().into();
    assert_eq!(list.len(), 3);
    let back: Vec<u64> = list.into();
    assert_eq!(back, values);
    assert_eq!(ProgressiveList::new(values.clone()).into_vec(), values);
}

#[test]
fn basic_elements_are_packed() {
    let writes = progressive_hasher_writes(&[1u64, 256]);
    assert_eq!(writes, vec![vec![1, 0, 0, 0, 0, 0, 0, 0], vec![0, 1, 0, 0, 0, 0, 0, 0]]);
    assert_eq!(<u64 as TreeHashElement>::tree_hash_type(), TreeHashKind::Basic);
    let mut root = [0u8; 32];
    root[0] = 1;
    assert_eq!(1u64.tree_hash_root(), root);
}

#[test]
fn composite_elements_are_written_as_their_roots() {
    // `Hash256` is a vector type, so it takes the non basic branch of the hasher.
    let list = ProgressiveList::from(vec![Hash256::repeat_byte(1).0, Hash256::repeat_byte(2).0]);
    let writes = list.progressive_hasher_writes();
    assert_eq!(writes, vec![vec![1u8; 32], vec![2u8; 32]]);
    assert_eq!(<[u8; 32] as TreeHashElement>::tree_hash_type(), TreeHashKind::Vector);
}

#[test]
fn root_over_a_spine_mixes_in_the_length() {
    let list = ProgressiveList::from((0..5u64).collect::<Vec<_>>());
    let spine = Hash256::repeat_byte(9);
    let expected = tree_hash::mix_in_length(&spine, 5);
    assert_eq!(list.tree_hash_root_over(&spine.0), expected.0);
    assert_eq!(ProgressiveList::<u64>::tree_hash_type(), TreeHashKind::List);
}

/// Two lists of different length must not share a root over the same spine, which is
/// what mixing in the length buys.
#[test]
fn length_is_bound_into_the_root_over_a_spine() {
    let short = ProgressiveList::from((0..4u64).collect::<Vec<_>>());
    let long = ProgressiveList::from((0..5u64).collect::<Vec<_>>());
    let spine = [3u8; 32];
    assert_ne!(short.tree_hash_root_over(&spine), long.tree_hash_root_over(&spine));
}
