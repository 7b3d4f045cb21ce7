use crypto_algor::aes::enc_decrypt::encrypt;
use crypto_algor::aes::gen_key;
use crypto_algor::aes::key_msg::{Key, M_row};
use crypto_algor::aes::op_modes::{
    cbc_build_bytes, cbc_destruct_bytes, ctr_build_bytes, ctr_build_with_nonce, ctr_destruct_bytes,
    ecb_build_bytes, ecb_destruct_bytes, u128_of_le, xor, ModeError,
};

fn key() -> Key {
    Key::new(&[3u8, 1, 4, 1, 5, 9, 2, 6, 5, 3, 5, 8, 9, 7, 9, 3])
}

#[test]
fn xor_blocks() {
    let a = [0xffu8; 16];
    let mut b = [0u8; 16];
    b[3] = 0x0f;
    let r = xor(a, &b);
    assert_eq!(r[3], 0xf0);
    assert_eq!(r[0], 0xff);
}

#[test]
fn ecb_round_trip_various_lengths() {
    for len in [0usize, 1, 15, 16, 17, 31, 32, 33, 100] {
        let data: Vec<u8> = (0..len).map(|i| (i * 13 % 251) as u8).collect();
        let (cipher, fed) = ecb_build_bytes(&key(), &data);
        assert_eq!(cipher.len(), 16 * (len / 16 + 2));
        assert_eq!(fed.len(), cipher.len());
        assert_eq!(&fed[..len], &data[..]);
        assert_eq!(fed[16 * (len / 16 + 1)] as usize, len % 16);
        let (written, total) = ecb_destruct_bytes(&key(), &cipher).unwrap();
        assert_eq!(total as usize, len);
        assert_eq!(&written[..len], &data[..]);
    }
}

#[test]
fn ecb_blocks_are_aes_blocks() {
    let data = [7u8; 16];
    let (cipher, _) = ecb_build_bytes(&key(), &data);
    let expect = encrypt(M_row::new(data), key()).msg();
    assert_eq!(&cipher[..16], &expect[..]);
}

#[test]
fn cbc_round_trip() {
    let iv: u128 = 0x0123456789abcdef0011223344556677;
    for len in [0usize, 5, 16, 40] {
        let data: Vec<u8> = (0..len).map(|i| (i * 7 + 1) as u8).collect();
        let (cipher, fed) = cbc_build_bytes(&key(), &data, iv);
        assert_eq!(cipher.len(), fed.len());
        let (written, total) = cbc_destruct_bytes(&key(), &cipher, iv).unwrap();
        assert_eq!(total as usize, len);
        assert_eq!(written.len(), cipher.len());
        assert_eq!(&written[..len], &data[..]);
    }
}

#[test]
fn ctr_round_trip() {
    let data = b"counter mode keeps the length".to_vec();
    let (nonce, cipher, fed) = ctr_build_bytes(&key(), &data);
    assert_eq!(nonce[0], 0);
    assert_eq!(nonce[15], 0);
    assert_eq!(&fed[..16], &nonce[..]);
    let (written, total) = ctr_destruct_bytes(&key(), &cipher, nonce).unwrap();
    assert_eq!(total as usize, data.len());
    assert_eq!(&written[..data.len()], &data[..]);
}

#[test]
fn ctr_counter_increments() {
    let nonce = [0u8; 16];
    let (_, fed) = ctr_build_with_nonce(&key(), &[1, 2, 3], nonce);
    assert_eq!(fed.len(), 32);
    assert_eq!(fed[16], 1);
    let mut n2 = [0u8; 16];
    n2[0] = 0xff;
    assert_eq!(u128_of_le(&n2), 255);
}

#[test]
fn destruct_errors() {
    assert_eq!(ecb_destruct_bytes(&key(), &[0u8; 0]), Err(ModeError::TooShort));
    assert_eq!(ecb_destruct_bytes(&key(), &[0u8; 16]), Err(ModeError::TooShort));
    assert_eq!(ecb_destruct_bytes(&key(), &[0u8; 20]), Err(ModeError::BrokenLength));
    assert_eq!(cbc_destruct_bytes(&key(), &[0u8; 40], 0), Err(ModeError::BrokenLength));
    assert_eq!(ctr_destruct_bytes(&key(), &[0u8; 5], [0u8; 16]), Err(ModeError::TooShort));
}

#[test]
fn destruct_length_overflow() {
    // Two data blocks and a length block recording u64::MAX: 16 + u64::MAX
    // does not fit.
    let k = key();
    let mut len_block = [0u8; 16];
    for i in 0..8 {
        len_block[i] = 0xff;
    }
    let mut cipher = Vec::new();
    cipher.extend_from_slice(&encrypt(M_row::new([1u8; 16]), key()).msg());
    cipher.extend_from_slice(&encrypt(M_row::new([2u8; 16]), key()).msg());
    cipher.extend_from_slice(&encrypt(M_row::new(len_block), key()).msg());
    assert_eq!(ecb_destruct_bytes(&k, &cipher), Err(ModeError::LengthOverflow));
    // With one data block the recorded length u64::MAX still fits.
    let (_, total) = ecb_destruct_bytes(&k, &cipher[16..]).unwrap();
    assert_eq!(total, u64::MAX);
}

#[test]
fn random_keys_have_full_length() {
    let k = gen_key::Key::new();
    assert_eq!(k.0.len(), 32);
    let k2 = Key::new_random();
    assert_eq!(k2.msg().len(), 16);
}
