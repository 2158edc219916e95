use parity_scale_codec::Encode;
use progressive_list::scale_codec::{
    decode_fixed_vector_u64, decode_variable_list_u64, encode_fixed_vector_u64,
    encode_variable_list_u64, ScaleDecodeError,
};
use progressive_list::ProgressiveList;

#[test]
fn collections_encode_as_their_inner_vec() {
    let values: Vec<u64> = (0..4).collect();

    // Existing proofs depend on the inner `Vec` encoding.
    let mut fixed = Vec::new();
    encode_fixed_vector_u64(&values, 4, &mut fixed);
    assert_eq!(fixed, values.encode());
    let mut variable = Vec::new();
    encode_variable_list_u64(&values, 8, &mut variable);
    assert_eq!(variable, values.encode());
    assert_eq!(ProgressiveList::from(values.clone()).encode(), values.encode());
    let mut dest = vec![0xff];
    ProgressiveList::from(values.clone()).encode_to(&mut dest);
    assert_eq!(dest[0], 0xff);
    assert_eq!(&dest[1..], &values.encode()[..]);
}

#[test]
fn collections_round_trip() {
    let values: Vec<u64> = (0..4).collect();

    let mut fixed = Vec::new();
    encode_fixed_vector_u64(&values, 4, &mut fixed);
    assert_eq!(decode_fixed_vector_u64(&mut &fixed[..], 4).unwrap(), values);

    let mut list = Vec::new();
    encode_variable_list_u64(&values, 8, &mut list);
    assert_eq!(decode_variable_list_u64(&mut &list[..], 8).unwrap(), values);

    let progressive = ProgressiveList::from(values);
    assert_eq!(
        ProgressiveList::<u64>::decode(&mut &progressive.encode()[..]).unwrap(),
        progressive
    );
}

/// The length rule has to be re-applied on decode.
#[test]
fn decoding_rejects_a_wrong_length_fixed_vector() {
    let too_many: Vec<u64> = (0..5).collect();
    assert!(decode_fixed_vector_u64(&mut &too_many.encode()[..], 4).is_err());

    let too_few: Vec<u64> = (0..3).collect();
    assert!(decode_fixed_vector_u64(&mut &too_few.encode()[..], 4).is_err());
}

#[test]
fn decoding_rejects_an_over_long_variable_list() {
    let too_many: Vec<u64> = (0..9).collect();
    assert!(decode_variable_list_u64(&mut &too_many.encode()[..], 8).is_err());

    // At the bound is fine.
    let exact: Vec<u64> = (0..8).collect();
    assert!(decode_variable_list_u64(&mut &exact.encode()[..], 8).is_ok());
}

#[test]
fn empty_collections_round_trip() {
    let empty: Vec<u64> = Vec::new();
    assert_eq!(decode_variable_list_u64(&mut &empty.encode()[..], 8).unwrap().len(), 0);
    assert_eq!(ProgressiveList::<u64>::decode(&mut &empty.encode()[..]).unwrap().len(), 0);
}

#[test]
fn length_rule_errors_are_told_apart() {
    let five: Vec<u64> = (0..5).collect();
    assert_eq!(
        decode_fixed_vector_u64(&mut &five.encode()[..], 4),
        Err(ScaleDecodeError::WrongNumberOfElements)
    );
    assert_eq!(
        decode_variable_list_u64(&mut &five.encode()[..], 4),
        Err(ScaleDecodeError::TooManyElements)
    );
    assert_eq!(
        ProgressiveList::<u64>::decode(&mut &[0x08u8, 1, 2][..]),
        Err(ScaleDecodeError::Malformed)
    );
}

#[test]
fn compact_lengths_of_every_width() {
    // One byte below 64 elements, two below 2^14, four above.
    let small: Vec<u64> = vec![7; 3];
    let encoded = ProgressiveList::from(small.clone()).encode();
    assert_eq!(encoded[0], 12);
    assert_eq!(encoded.len(), 1 + 24);

    let medium: Vec<u64> = vec![1; 64];
    let encoded = ProgressiveList::from(medium.clone()).encode();
    assert_eq!(&encoded[..2], &[0x01, 0x01]);
    assert_eq!(encoded, medium.encode());

    let large: Vec<u64> = vec![2; 0x4000];
    let encoded = ProgressiveList::from(large.clone()).encode();
    assert_eq!(&encoded[..4], &[0x02, 0x00, 0x01, 0x00]);
    let mut input = &encoded[..];
    let decoded = ProgressiveList::<u64>::decode(&mut input).unwrap();
    assert_eq!(decoded.into_vec(), large);
    assert!(input.is_empty());
}

#[test]
fn decoding_leaves_what_follows() {
    let mut bytes = ProgressiveList::from(vec![1u64, 2]).encode();
    bytes.extend_from_slice(&[9, 9]);
    let mut input = &bytes[..];
    let decoded = ProgressiveList::<u64>::decode(&mut input).unwrap();
    assert_eq!(decoded.into_vec(), vec![1, 2]);
    assert_eq!(input, &[9, 9]);
}

#[test]
fn a_length_error_leaves_the_input_past_the_list() {
    let five: Vec<u64> = (0..5).collect();
    let mut bytes = five.encode();
    bytes.extend_from_slice(&[7, 7]);
    let mut input = &bytes[..];
    assert!(decode_fixed_vector_u64(&mut input, 4).is_err());
    assert_eq!(input, &[7, 7]);
    let mut input = &bytes[..];
    assert!(decode_variable_list_u64(&mut input, 3).is_err());
    assert_eq!(input, &[7, 7]);
}

#[test]
fn bounded_encodings_append_after_existing_bytes() {
    let values: Vec<u64> = vec![9, 8];
    let mut dest = vec![1u8, 2];
    encode_variable_list_u64(&values, 3, &mut dest);
    assert_eq!(&dest[..2], &[1, 2]);
    assert_eq!(&dest[2..], &values.encode()[..]);
    let mut dest = vec![5u8];
    encode_fixed_vector_u64(&values, 2, &mut dest);
    assert_eq!(dest[0], 5);
    assert_eq!(&dest[1..], &values.encode()[..]);
}

fn rest_after_failed_decode(bytes: &[u8]) -> Vec<u8> {
    let mut input = bytes;
    assert_eq!(
        ProgressiveList::<u64>::decode(&mut input),
        Err(ScaleDecodeError::Malformed)
    );
    input.to_vec()
}

#[test]
fn a_failed_decode_leaves_the_input_after_what_was_read() {
    // No bytes: nothing to read.
    assert_eq!(rest_after_failed_decode(&[]), Vec::<u8>::new());
    // One-byte length of two elements, whose bytes are missing: the length is read.
    assert_eq!(rest_after_failed_decode(&[0x08, 1, 2]), vec![1, 2]);
    // A two-byte length cut short: only its first byte is read.
    assert_eq!(rest_after_failed_decode(&[0x01]), Vec::<u8>::new());
    // A two-byte length that is not the shortest encoding: both bytes are read.
    assert_eq!(rest_after_failed_decode(&[0x01, 0x00, 9]), vec![9]);
    // A four-byte length cut short.
    assert_eq!(rest_after_failed_decode(&[0x02, 0, 0]), vec![0, 0]);
    // A big-integer length of more than four bytes.
    assert_eq!(rest_after_failed_decode(&[0x07, 1, 2]), vec![1, 2]);
    // A big-integer length cut short.
    assert_eq!(rest_after_failed_decode(&[0x03, 1, 2]), vec![1, 2]);
    // A big-integer length that is not the shortest encoding.
    assert_eq!(rest_after_failed_decode(&[0x03, 1, 0, 0, 0, 9]), vec![9]);

    let mut input = &[0x08u8, 1, 2][..];
    assert_eq!(decode_fixed_vector_u64(&mut input, 2), Err(ScaleDecodeError::Malformed));
    assert_eq!(input, &[1, 2]);
    let mut input = &[0x01u8, 0x00, 9][..];
    assert_eq!(decode_variable_list_u64(&mut input, 2), Err(ScaleDecodeError::Malformed));
    assert_eq!(input, &[9]);
}
