use crypto_algor::aes::algor::EncDec;
use crypto_algor::aes::basic_operations::{multiply, s_box, S_BOX, S_BOX_INV};
use crypto_algor::aes::enc_decrypt::{decrypt, encrypt};
use crypto_algor::aes::key_msg::{Key, M_matrix, M_row, DECRYPT, ENCRYPT};

#[test]
fn s_box_test() {
    for i in 0..=255 {
        assert_eq!(S_BOX[i], s_box(&(i as u8)));
    }

    println!("PASS s_box_test");
}

#[test]
fn s_box_inverse_table() {
    for i in 0..=255usize {
        assert_eq!(S_BOX_INV[S_BOX[i] as usize] as usize, i);
    }
}

#[test]
fn gf_multiply_examples() {
    // FIPS-197 section 4.2: {57} * {83} = {c1}, {57} * {13} = {fe}.
    assert_eq!(multiply(&0x57, &0x83), 0xc1);
    assert_eq!(multiply(&0x57, &0x13), 0xfe);
    assert_eq!(multiply(&0x02, &0x80), 0x1b);
}

const FIPS_KEY: [u8; 16] = [
    0x00, 0x01, 0x02, 0x03, 0x04, 0x05, 0x06, 0x07, 0x08, 0x09, 0x0a, 0x0b, 0x0c, 0x0d, 0x0e, 0x0f,
];
const FIPS_PLAIN: [u8; 16] = [
    0x00, 0x11, 0x22, 0x33, 0x44, 0x55, 0x66, 0x77, 0x88, 0x99, 0xaa, 0xbb, 0xcc, 0xdd, 0xee, 0xff,
];
const FIPS_CIPHER: [u8; 16] = [
    0x69, 0xc4, 0xe0, 0xd8, 0x6a, 0x7b, 0x04, 0x30, 0xd8, 0xcd, 0xb7, 0x80, 0x70, 0xb4, 0xc5, 0x5a,
];

#[test]
fn fips_197_encrypt_vector() {
    let c = encrypt(M_row::new(FIPS_PLAIN), Key::new(&FIPS_KEY));
    assert_eq!(c.msg(), FIPS_CIPHER);
    let c2 = <M_row as EncDec>::encrypt(M_row::new(FIPS_PLAIN), &Key::new(&FIPS_KEY));
    assert_eq!(c2, FIPS_CIPHER);
}

#[test]
fn fips_197_decrypt_vector() {
    let p = decrypt(M_row::new(FIPS_CIPHER), Key::new(&FIPS_KEY));
    assert_eq!(p.msg(), FIPS_PLAIN);
}

#[test]
fn decrypt_undoes_encrypt() {
    let key = [0x2b, 0x7e, 0x15, 0x16, 0x28, 0xae, 0xd2, 0xa6, 0xab, 0xf7, 0x15, 0x88, 0x09, 0xcf, 0x4f, 0x3c];
    let block = *b"Hello, AES-128!!";
    let c = <M_row as EncDec>::encrypt(M_row::new(block), &Key::new(&key));
    let p = <M_row as EncDec>::decrypt(M_row::new(c), &Key::new(&key));
    assert_eq!(p, block);
}

#[test]
fn key_expansion_fips_vector() {
    // FIPS-197 appendix A.1.
    let key = Key::new(&[0x2b, 0x7e, 0x15, 0x16, 0x28, 0xae, 0xd2, 0xa6, 0xab, 0xf7, 0x15, 0x88, 0x09, 0xcf, 0x4f, 0x3c]);
    let w = key.expansion();
    assert_eq!(w.len(), 44);
    assert_eq!(w[0], 0x2b7e1516);
    assert_eq!(w[4], 0xa0fafe17);
    assert_eq!(w[43], 0xb6630ca6);
}

#[test]
fn key_from_words_is_big_endian() {
    let k = Key::from(vec![0x01020304, 0x05060708, 0x090a0b0c, 0x0d0e0f10]);
    assert_eq!(k.msg(), [1, 2, 3, 4, 5, 6, 7, 8, 9, 10, 11, 12, 13, 14, 15, 16]);
}

#[test]
fn shift_rows_round_trip() {
    let mut m = M_matrix::new_with_u8(&[[0, 1, 2, 3], [4, 5, 6, 7], [8, 9, 10, 11], [12, 13, 14, 15]]);
    m.shift_rows(ENCRYPT);
    assert_eq!(m.msg(), [[0, 1, 2, 3], [5, 6, 7, 4], [10, 11, 8, 9], [15, 12, 13, 14]]);
    m.shift_rows(DECRYPT);
    assert_eq!(m.msg(), [[0, 1, 2, 3], [4, 5, 6, 7], [8, 9, 10, 11], [12, 13, 14, 15]]);
}

#[test]
fn mix_col_known_column() {
    // db 13 53 45 -> 8e 4d a1 bc
    let mut m = M_matrix::new_with_u8(&[[0xdb, 0, 0, 0], [0x13, 0, 0, 0], [0x53, 0, 0, 0], [0x45, 0, 0, 0]]);
    m.mix_col(ENCRYPT);
    let r = m.msg();
    assert_eq!([r[0][0], r[1][0], r[2][0], r[3][0]], [0x8e, 0x4d, 0xa1, 0xbc]);
    m.mix_col(DECRYPT);
    let r = m.msg();
    assert_eq!([r[0][0], r[1][0], r[2][0], r[3][0]], [0xdb, 0x13, 0x53, 0x45]);
}

#[test]
fn transpose_and_conversions() {
    let row = M_row::new([0, 1, 2, 3, 4, 5, 6, 7, 8, 9, 10, 11, 12, 13, 14, 15]);
    let mut m = M_matrix::from(row);
    assert_eq!(m.msg(), [[0, 4, 8, 12], [1, 5, 9, 13], [2, 6, 10, 14], [3, 7, 11, 15]]);
    m.transpose();
    assert_eq!(M_row::from(m).msg(), [0, 1, 2, 3, 4, 5, 6, 7, 8, 9, 10, 11, 12, 13, 14, 15]);
}

#[test]
fn row_sub_s_box_both_ways_agree() {
    let mut a = M_row::new([0, 1, 2, 3, 4, 5, 6, 7, 8, 9, 10, 11, 12, 13, 14, 0x53]);
    let mut b = M_row::new([0, 1, 2, 3, 4, 5, 6, 7, 8, 9, 10, 11, 12, 13, 14, 0x53]);
    a.sub_s_box();
    b.sub_s_box_cal();
    assert_eq!(a.msg(), b.msg());
    assert_eq!(a.msg()[15], 0xed);
}

#[test]
fn add_round_key_is_involution() {
    let key = Key::new(&[7u8; 16]);
    let mut m = M_matrix::new_with_u8(&[[1, 2, 3, 4], [5, 6, 7, 8], [9, 10, 11, 12], [13, 14, 15, 16]]);
    m.add_round_key(&key);
    assert_eq!(m.msg()[0][0], 1 ^ 7);
    m.add_round_key(&key);
    assert_eq!(m.msg(), [[1, 2, 3, 4], [5, 6, 7, 8], [9, 10, 11, 12], [13, 14, 15, 16]]);
}

#[test]
fn matrix_add_and_sub() {
    let a = M_matrix::new_with_u8(&[[1, 2, 3, 4], [5, 6, 7, 8], [9, 10, 11, 12], [13, 14, 15, 16]]);
    let b = M_matrix::new_with_u8(&[[10, 20, 30, 40], [50, 60, 70, 80], [90, 100, 110, 120], [130, 140, 150, 160]]);
    let sum = a.add(&b);
    assert_eq!(
        sum.msg(),
        [[11, 22, 33, 44], [55, 66, 77, 88], [99, 110, 121, 132], [143, 154, 165, 176]]
    );
    let back = sum.sub(&b);
    assert_eq!(back.msg(), a.msg());
    let zero = a.sub(&a);
    assert_eq!(zero.msg(), [[0u8; 4]; 4]);
}

#[test]
fn matrix_operators() {
    let a = M_matrix::new_with_u8(&[[1, 2, 3, 4], [5, 6, 7, 8], [9, 10, 11, 12], [13, 14, 15, 16]]);
    let b = M_matrix::new_with_u8(&[[1, 1, 1, 1], [2, 2, 2, 2], [3, 3, 3, 3], [4, 4, 4, 4]]);
    assert_eq!(
        (a.clone() + b.clone()).msg(),
        [[2, 3, 4, 5], [7, 8, 9, 10], [12, 13, 14, 15], [17, 18, 19, 20]]
    );
    assert_eq!(
        (a.clone() - b.clone()).msg(),
        [[0, 1, 2, 3], [3, 4, 5, 6], [6, 7, 8, 9], [9, 10, 11, 12]]
    );
    let id = M_matrix::new_with_u8(&[[1, 0, 0, 0], [0, 1, 0, 0], [0, 0, 1, 0], [0, 0, 0, 1]]);
    assert_eq!((id.clone() * a.clone()).msg(), a.msg());
    assert_eq!(id.multiply(&b).msg(), b.msg());
    // over GF(2^8): 2 * 0x80 = 0x1b, and the sum is an xor
    let two = M_matrix::new_with_u8(&[[2, 0, 0, 0], [0, 2, 0, 0], [0, 0, 2, 0], [0, 0, 0, 2]]);
    let high = M_matrix::new_with_u8(&[[0x80, 0, 0, 0], [0, 0, 0, 0], [0, 0, 0, 0], [0, 0, 0, 0]]);
    assert_eq!((two * high).msg()[0][0], 0x1b);
}

#[test]
fn row_matrix_conversions() {
    let bytes = [0u8, 1, 2, 3, 4, 5, 6, 7, 8, 9, 10, 11, 12, 13, 14, 15];
    let m: M_matrix = M_row::new(bytes).into();
    // column by column: byte r + 4 c goes to row r, column c
    assert_eq!(m.msg(), [[0, 4, 8, 12], [1, 5, 9, 13], [2, 6, 10, 14], [3, 7, 11, 15]]);
    // and back row by row: the bytes come out transposed
    let back: M_row = m.into();
    assert_eq!(back.msg(), [0, 4, 8, 12, 1, 5, 9, 13, 2, 6, 10, 14, 3, 7, 11, 15]);
}

#[test]
fn encrypt_undoes_decrypt() {
    let key = [7u8, 1, 2, 3, 4, 5, 6, 7, 8, 9, 10, 11, 12, 13, 14, 15];
    let c = [0x42u8, 0, 1, 2, 3, 4, 5, 6, 7, 8, 9, 10, 11, 12, 13, 0xff];
    let p = <M_row as EncDec>::decrypt(M_row::new(c), &Key::new(&key));
    let back = <M_row as EncDec>::encrypt(M_row::new(p), &Key::new(&key));
    assert_eq!(back, c);
    // MixColumns then its inverse, and the other order
    let m = M_matrix::new_with_u8(&[[0xdb, 1, 2, 3], [0x13, 4, 5, 6], [0x53, 7, 8, 9], [0x45, 10, 11, 12]]);
    let mut x = m.clone();
    x.mix_col(DECRYPT);
    x.mix_col(ENCRYPT);
    assert_eq!(x.msg(), m.msg());
    let mut y = m.clone();
    y.mix_col(ENCRYPT);
    y.mix_col(DECRYPT);
    assert_eq!(y.msg(), m.msg());
    let id = M_matrix::new_with_u8(&[[1, 0, 0, 0], [0, 1, 0, 0], [0, 0, 1, 0], [0, 0, 0, 1]]);
    assert_eq!((m.clone() * id).msg(), m.msg());
}
