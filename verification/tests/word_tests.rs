use aes_ndlr::word::{rot_word, sub_word};

#[test]
fn rot_word_rotates_word() {
    let word: &[u8] = &[0, 1, 2, 3];
    let expected_word: &[u8] = &[1, 2, 3, 0];

    let actual_word = rot_word(word);
    assert_eq!(actual_word.as_slice(), expected_word);
}

#[test]
fn sub_word_substitutes_word() {
    let word: &[u8] = &[0, 1, 2, 3];
    let expected_word: &[u8] = &[0x63, 0x7c, 0x77, 0x7b];

    let actual_word = sub_word(word);

    assert_eq!(actual_word.as_slice(), expected_word);
}

#[test]
fn sub_word_takes_each_byte_by_itself() {
    let word: &[u8] = &[0x53, 0xff, 0x53, 0x00];

    assert_eq!(sub_word(word), vec![0xed, 0x16, 0xed, 0x63]);
}
