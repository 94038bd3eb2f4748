use aes_ndlr::pad::{pkcs7_pad, remove_pkcs7, validate_pkcs7, PaddingError};

#[test]
fn pads_empty_bytes() {
    let empty = &[];
    let block_size = 16;

    let expected = &[16u8; 16];

    assert_eq!(expected.to_vec(), pkcs7_pad(empty, block_size));
}

#[test]
fn pads_to_length() {
    let some_bytes = &[12; 12];
    let block_size = 16;

    let expected = &[
        12, 12, 12, 12, 12, 12, 12, 12, 12, 12, 12, 12,
        4, 4, 4, 4,
    ];

    assert_eq!(expected.to_vec(), pkcs7_pad(some_bytes, block_size));
}

#[test]
fn ads_complete_padding_block_when_is_already_at_length() {
    let full_bytes = &[16; 16];
    let block_size = 16;

    let expected = &[16; 16 * 2];

    assert_eq!(expected.to_vec(), pkcs7_pad(full_bytes, block_size));
}

#[test]
fn pads_with_a_single_byte() {
    assert_eq!(pkcs7_pad(&[7, 7, 7], 4), vec![7, 7, 7, 1]);
    assert_eq!(pkcs7_pad(&[9], 1), vec![9, 1]);
}

#[test]
fn pads_by_the_length_and_not_by_its_low_byte() {
    // 300 bytes in blocks of 7: 300 % 7 is 6, so one byte is missing
    let bytes = vec![0xaa; 300];

    let padded = pkcs7_pad(&bytes, 7);

    assert_eq!(padded.len(), 301);
    assert_eq!(padded[300], 1);
}

#[test]
fn pads_to_the_largest_block_size() {
    let padded = pkcs7_pad(&[1, 2, 3], 255);

    assert_eq!(padded.len(), 255);
    assert_eq!(&padded[..3], &[1, 2, 3]);
    assert_eq!(&padded[3..], &[252u8; 252][..]);
}

#[test]
fn validates_what_padding_produces() {
    for block_size in [1u8, 2, 7, 16, 255] {
        for length in 0..40usize {
            let bytes: Vec<u8> = (0..length).map(|i| (i * 37) as u8).collect();

            let padded = pkcs7_pad(&bytes, block_size);

            assert_eq!(padded.len() % block_size as usize, 0);
            assert_eq!(validate_pkcs7(&padded, block_size), Ok(()));
            assert_eq!(remove_pkcs7(&padded), bytes);
        }
    }
}

#[test]
fn last_byte_zero_is_invalid() {
    assert_eq!(
        validate_pkcs7(&[1, 2, 3, 0], 4),
        Err(PaddingError::InvalidLastPaddingByte)
    );
}

#[test]
fn last_byte_above_the_block_size_is_invalid() {
    assert_eq!(
        validate_pkcs7(&[5, 5, 5, 5, 5, 5, 5, 5], 4),
        Err(PaddingError::InvalidLastPaddingByte)
    );
}

#[test]
fn last_byte_above_the_length_is_invalid() {
    assert_eq!(
        validate_pkcs7(&[3, 3], 16),
        Err(PaddingError::InvalidLastPaddingByte)
    );
}

#[test]
fn no_bytes_have_no_valid_last_byte() {
    assert_eq!(
        validate_pkcs7(&[], 16),
        Err(PaddingError::InvalidLastPaddingByte)
    );
}

#[test]
fn padding_bytes_that_differ_are_inconsistent() {
    assert_eq!(
        validate_pkcs7(&[1, 2, 3, 4, 5, 3, 2, 3], 8),
        Err(PaddingError::InconsistentPadding)
    );
    assert_eq!(
        validate_pkcs7(&[9, 9, 9, 9, 4, 4, 3, 4], 8),
        Err(PaddingError::InconsistentPadding)
    );
}

#[test]
fn padding_of_a_whole_block_is_valid() {
    assert_eq!(validate_pkcs7(&[4, 4, 4, 4], 4), Ok(()));
    assert_eq!(validate_pkcs7(&[0, 0, 0, 1], 4), Ok(()));
}

#[test]
fn remove_drops_as_many_bytes_as_the_last_one_says() {
    assert_eq!(remove_pkcs7(&[1, 2, 3, 4, 5, 3, 3, 3]), vec![1, 2, 3, 4, 5]);
    assert_eq!(remove_pkcs7(&[4, 4, 4, 4]), Vec::<u8>::new());
    // nothing is checked: the two bytes before the last one go as well
    assert_eq!(remove_pkcs7(&[1, 2, 3, 4, 5, 6, 7, 3]), vec![1, 2, 3, 4, 5]);
    assert_eq!(remove_pkcs7(&[1, 2, 3, 0]), vec![1, 2, 3, 0]);
}
