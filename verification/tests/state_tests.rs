use aes_ndlr::state::State;
use aes_ndlr::Block;

fn some_state() -> State {
    create_state([
        [0x00, 0x01, 0x02, 0x03],
        [0x04, 0x05, 0x06, 0x07],
        [0x08, 0x09, 0x0a, 0x0b],
        [0x0c, 0x0d, 0x0e, 0x0f],
    ])
}

fn empty_state() -> State {
    create_state([[0u8; 4]; 4])
}

fn create_state(data: [[u8; 4]; 4]) -> State {
    State { data }
}

#[test]
fn two_states_are_equal_if_data_matrixes_are() {
    assert_eq!(some_state(), create_state(some_state().data));
    assert_eq!(empty_state(), create_state(empty_state().data));
}

#[test]
fn from_part_builds_from_part() {
    let part = &[
        0x01, 0x02, 0x03, 0x04,
        0x11, 0x12, 0x13, 0x14,
        0x21, 0x22, 0x23, 0x24,
        0x31, 0x32, 0x33, 0x34,
    ];

    let expected_state_data: [[u8; 4]; 4] = [
        [0x01, 0x02, 0x03, 0x04],
        [0x11, 0x12, 0x13, 0x14],
        [0x21, 0x22, 0x23, 0x24],
        [0x31, 0x32, 0x33, 0x34],
    ];

    let state = State::from_part(part);

    assert_eq!(state.data, expected_state_data);
}

#[test]
fn empty_builds_empty_state() {
    let expected_state_data: [[u8; 4]; 4] = [
        [0, 0, 0, 0],
        [0, 0, 0, 0],
        [0, 0, 0, 0],
        [0, 0, 0, 0],
    ];

    let state = State::empty();

    assert_eq!(state.data, expected_state_data);
}

#[test]
fn to_block_converts_to_block() {
    let block = &[
        0x01, 0x02, 0x03, 0x04,
        0x11, 0x12, 0x13, 0x14,
        0x21, 0x22, 0x23, 0x24,
        0x31, 0x32, 0x33, 0x34,
    ];

    let state = State::from_part(block);

    assert_eq!(state.to_block(), block.to_vec());
}

#[test]
fn xor_with_state_xors_with_state() {
    let mut base_state = some_state();
    let other_state = some_state();

    let expected_state = empty_state();

    base_state.xor_with_state(&other_state);

    assert_eq!(base_state, expected_state);
}

#[test]
fn xor_xors_state_with_data() {
    let mut base_state = some_state();

    let other_data = &[
        &[0x00, 0x01, 0x02, 0x03],
        &[0x04, 0x05, 0x06, 0x07],
        &[0x08, 0x09, 0x0a, 0x0b],
        &[0x0c, 0x0d, 0x0e, 0x0f],
    ];

    let expected_state = empty_state();

    base_state.xor(other_data);

    assert_eq!(base_state, expected_state);
}

#[test]
fn xor_with_iv_xors_with_iv() {
    let mut base_state = some_state();
    let iv = Block(some_state().data);

    let expected_state = empty_state();

    base_state.xor_with_iv(&iv);

    assert_eq!(base_state, expected_state)
}

#[test]
fn add_round_key_adds_round_key() {
    let key_schedule: &[[u8; 4]; 4] = &[
        [0x13, 0x11, 0x1d, 0x7f],
        [0xe3, 0x94, 0x4a, 0x17],
        [0xf3, 0x07, 0xa7, 0x8b],
        [0x4d, 0x2b, 0x30, 0xc5],
    ];
    let mut state = create_state([
        [0x69, 0xc4, 0xe0, 0xd8],
        [0x6a, 0x7b, 0x04, 0x30],
        [0xd8, 0xcd, 0xb7, 0x80],
        [0x70, 0xb4, 0xc5, 0x5a],
    ]);

    let expected_state = create_state([
        [0x7a, 0xd5, 0xfd, 0xa7],
        [0x89, 0xef, 0x4e, 0x27],
        [0x2b, 0xca, 0x10, 0x0b],
        [0x3d, 0x9f, 0xf5, 0x9f],
    ]);

    state.add_round_key(key_schedule);

    assert_eq!(state, expected_state);
}

#[test]
fn sub_bytes_subs_bytes_with_substitution_box() {
    let mut state = create_state([
        [0xbd, 0x6e, 0x7c, 0x3d],
        [0xf2, 0xb5, 0x77, 0x9e],
        [0x0b, 0x61, 0x21, 0x6e],
        [0x8b, 0x10, 0xb6, 0x89],
    ]);
    let expected_state = create_state([
        [0x7a, 0x9f, 0x10, 0x27],
        [0x89, 0xd5, 0xf5, 0x0b],
        [0x2b, 0xef, 0xfd, 0x9f],
        [0x3d, 0xca, 0x4e, 0xa7],
    ]);

    state.sub_bytes();

    assert_eq!(state, expected_state);
}

#[test]
fn inv_sub_bytes_inv_subs_bytes() {
    let mut state = create_state([
        [0x7a, 0x9f, 0x10, 0x27],
        [0x89, 0xd5, 0xf5, 0x0b],
        [0x2b, 0xef, 0xfd, 0x9f],
        [0x3d, 0xca, 0x4e, 0xa7],
    ]);
    let expected_state = create_state([
        [0xbd, 0x6e, 0x7c, 0x3d],
        [0xf2, 0xb5, 0x77, 0x9e],
        [0x0b, 0x61, 0x21, 0x6e],
        [0x8b, 0x10, 0xb6, 0x89],
    ]);

    state.inv_sub_bytes();

    assert_eq!(state, expected_state);
}

#[test]
fn sub_bytes_with_box_subs_bytes_with_box() {
    let mut state = some_state();

    // substitutes every byte for 0xff - byte
    let mut substitution_box = [0u8; 256];
    for (i, byte) in substitution_box.iter_mut().enumerate() {
        *byte = 0xff - (i as u8);
    }
    let expected_state = create_state([
        [0xff, 0xfe, 0xfd, 0xfc],
        [0xfb, 0xfa, 0xf9, 0xf8],
        [0xf7, 0xf6, 0xf5, 0xf4],
        [0xf3, 0xf2, 0xf1, 0xf0],
    ]);

    state.sub_bytes_with_box(&substitution_box);

    assert_eq!(state, expected_state);
}

#[test]
fn shift_rows_shifts_rows() {
    let mut state = some_state();
    let expected_state = create_state([
        [0x00, 0x05, 0x0a, 0x0f],
        [0x04, 0x09, 0x0e, 0x03],
        [0x08, 0x0d, 0x02, 0x07],
        [0x0c, 0x01, 0x06, 0x0b],
    ]);

    state.shift_rows();

    assert_eq!(state, expected_state);
}

#[test]
fn inv_shift_rows_inv_shifts_rows() {
    let mut state = some_state();
    let expected_state = create_state([
        [0x00, 0x0d, 0x0a, 0x07],
        [0x04, 0x01, 0x0e, 0x0b],
        [0x08, 0x05, 0x02, 0x0f],
        [0x0c, 0x09, 0x06, 0x03],
    ]);

    state.inv_shift_rows();

    assert_eq!(state, expected_state);
}

#[test]
fn mix_columns_mixes_columns() {
    let mut state = create_state([
        [0x63, 0x53, 0xe0, 0x8c],
        [0x09, 0x60, 0xe1, 0x04],
        [0xcd, 0x70, 0xb7, 0x51],
        [0xba, 0xca, 0xd0, 0xe7],
    ]);
    let expected_state = create_state([
        [0x5f, 0x72, 0x64, 0x15],
        [0x57, 0xf5, 0xbc, 0x92],
        [0xf7, 0xbe, 0x3b, 0x29],
        [0x1d, 0xb9, 0xf9, 0x1a],
    ]);

    state.mix_columns();

    assert_eq!(state, expected_state);
}

#[test]
fn inv_mix_columns_inv_mixes_columns() {
    let mut state = create_state([
        [0xbd, 0x6e, 0x7c, 0x3d],
        [0xf2, 0xb5, 0x77, 0x9e],
        [0x0b, 0x61, 0x21, 0x6e],
        [0x8b, 0x10, 0xb6, 0x89],
    ]);

    let expected_state = create_state([
        [0x47, 0x73, 0xb9, 0x1f],
        [0xf7, 0x2f, 0x35, 0x43],
        [0x61, 0xcb, 0x01, 0x8e],
        [0xa1, 0xe6, 0xcf, 0x2c],
    ]);

    state.inv_mix_columns();

    assert_eq!(state, expected_state);
}

#[test]
fn mix_columns_using_substitution_matrix_mixes_columns_using_substitution_matrix() {
    let mut state = create_state([
        [0xbd, 0x6e, 0x7c, 0x3d],
        [0xf2, 0xb5, 0x77, 0x9e],
        [0x0b, 0x61, 0x21, 0x6e],
        [0x8b, 0x10, 0xb6, 0x89],
    ]);

    let expected_state = create_state([
        [0x47, 0x73, 0xb9, 0x1f],
        [0xf7, 0x2f, 0x35, 0x43],
        [0x61, 0xcb, 0x01, 0x8e],
        [0xa1, 0xe6, 0xcf, 0x2c],
    ]);

    let substitution_matrix: &[&[u8]] = &[
        &[0x0e, 0x0b, 0x0d, 0x09],
        &[0x09, 0x0e, 0x0b, 0x0d],
        &[0x0d, 0x09, 0x0e, 0x0b],
        &[0x0b, 0x0d, 0x09, 0x0e],
    ];

    state.mix_columns_using_substitution_matrix(substitution_matrix);

    assert_eq!(state, expected_state);
}

#[test]
fn states_that_differ_in_one_byte_are_not_equal() {
    for c in 0..4 {
        for r in 0..4 {
            let mut other = some_state();
            other.data[c][r] ^= 0x80;

            assert_ne!(some_state(), other);
        }
    }
}

#[test]
fn clone_keeps_the_bytes() {
    let state = some_state();

    assert_eq!(state.clone(), state);
}

#[test]
fn from_part_reads_only_the_first_sixteen_bytes() {
    let part: Vec<u8> = (0..20).collect();

    assert_eq!(State::from_part(&part), some_state());
}

#[test]
fn inverse_operations_undo_the_operations() {
    let start = create_state([
        [0x32, 0x43, 0xf6, 0xa8],
        [0x88, 0x5a, 0x30, 0x8d],
        [0x31, 0x31, 0x98, 0xa2],
        [0xe0, 0x37, 0x07, 0x34],
    ]);

    let mut state = start.clone();
    state.sub_bytes();
    assert_ne!(state, start);
    state.inv_sub_bytes();
    assert_eq!(state, start);

    state.shift_rows();
    assert_ne!(state, start);
    state.inv_shift_rows();
    assert_eq!(state, start);

    state.mix_columns();
    assert_ne!(state, start);
    state.inv_mix_columns();
    assert_eq!(state, start);
}

#[test]
fn mix_columns_then_inv_mix_columns_is_the_identity_on_columns() {
    let mut seed: u32 = 0x2545f491;
    for _ in 0..2000 {
        let mut data = [[0u8; 4]; 4];
        for column in data.iter_mut() {
            for byte in column.iter_mut() {
                seed = seed.wrapping_mul(1664525).wrapping_add(1013904223);
                *byte = (seed >> 24) as u8;
            }
        }
        let mut state = create_state(data);

        state.mix_columns();
        state.inv_mix_columns();

        assert_eq!(state.data, data);
    }
}

#[test]
fn mix_columns_on_the_columns_of_the_standard() {
    let mut state = create_state([
        [0xdb, 0x13, 0x53, 0x45],
        [0xf2, 0x0a, 0x22, 0x5c],
        [0x01, 0x01, 0x01, 0x01],
        [0xc6, 0xc6, 0xc6, 0xc6],
    ]);

    state.mix_columns();

    assert_eq!(
        state.data,
        [
            [0x8e, 0x4d, 0xa1, 0xbc],
            [0x9f, 0xdc, 0x58, 0x9d],
            [0x01, 0x01, 0x01, 0x01],
            [0xc6, 0xc6, 0xc6, 0xc6],
        ]
    );
}
