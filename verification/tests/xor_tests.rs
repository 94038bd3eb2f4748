use aes_ndlr::xor::fixed_key_xor;

struct TestCase<'a> {
    input: &'a [u8],
    key: &'a [u8],
    expected: &'a [u8],
}

#[test]
fn rotates_xor_key() {
    let test_cases = vec![
        TestCase {
            input: &[0x01, 0x02, 0x03, 0x04, 0x05],
            key: &[0x01, 0x02, 0x03],
            expected: &[0x01 ^ 0x01, 0x02 ^ 0x02, 0x03 ^ 0x03, 0x04 ^ 0x01, 0x05 ^ 0x02],
        },
        TestCase {
            input: &[0xff, 0xfe, 0xfd, 0xfc],
            key: &[0x01, 0xff],
            expected: &[0xff ^ 0x01, 0xfe ^ 0xff, 0xfd ^ 0x01, 0xfc ^ 0xff],
        },
    ];

    for case in test_cases.iter() {
        let result = fixed_key_xor(&case.input, &case.key);
        assert_eq!(result, case.expected);
    }
}

#[test]
fn given_single_byte_xors_with_byte() {
    let test_cases = vec![
        TestCase {
            input: &[0x01, 0x02, 0x03, 0x04],
            key: &[0x01],
            expected: &[0x01 ^ 0x01, 0x02 ^ 0x01, 0x03 ^ 0x01, 0x04 ^ 0x01],
        },
        TestCase {
            input: &[0xff, 0xfe, 0xfd, 0xfc],
            key: &[0x01],
            expected: &[0xff ^ 0x01, 0xfe ^ 0x01, 0xfd ^ 0x01, 0xfc ^ 0x01],
        },
    ];

    for case in test_cases.iter() {
        let result = fixed_key_xor(&case.input, &case.key);
        assert_eq!(result, case.expected);
    }
}

#[test]
fn given_input_shorter_than_key_xors() {
    let input = &[0x01, 0xff];
    let key = &[0x01, 0x02, 0x03, 0x04];

    let expected = &[0x01 ^ 0x01, 0xff ^ 0x02];

    let result = fixed_key_xor(input, key);
    assert_eq!(result, expected);
}

#[test]
fn given_empty_input_doesnt_xor() {
    let input = &[];
    let key = &[0x01, 0xff];

    let expected: &[u8] = &[];

    let result = fixed_key_xor(input, key);
    assert_eq!(result, expected);
}

#[test]
fn given_empty_key_doesnt_xor() {
    let input = &[0x01, 0xff];
    let key = &[];

    let expected = &[0x01, 0xff];

    let result = fixed_key_xor(input, key);
    assert_eq!(result, expected);
}

#[test]
fn xor_with_the_same_key_twice_gives_the_input_back() {
    let input = &[0x00, 0x10, 0x7f, 0x80, 0xff, 0x33, 0x21];
    let key = &[0xa5, 0x5a, 0x0f];

    assert_eq!(fixed_key_xor(input, key), vec![0xa5, 0x4a, 0x70, 0x25, 0xa5, 0x3c, 0x84]);
    assert_eq!(fixed_key_xor(&fixed_key_xor(input, key), key), input);
}
