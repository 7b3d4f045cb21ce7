use crypto_algor::sha3::{rho_offsets, Buffer, Hasher as hasher, KeccakState, Keccakf, RHO};
use rand::{thread_rng, RngCore};
use tiny_keccak::{Hasher, Sha3};

#[test]
fn bool_to_i32() {
    assert_eq!(true as i32, 1);
    assert_eq!(false as i32, 0);
}

#[test]
fn l0_test() {
    let expect = [0xa7, 0xff, 0xc6, 0xf8, 0xbf, 0x1e, 0xd7, 0x66, 0x51, 0xc1, 0x47, 0x56, 0xa0, 0x61, 0xd6, 0x62, 0xf5, 0x80, 0xff, 0x4d, 0xe4, 0x3b, 0x49, 0xfa, 0x82, 0xd8, 0x0a, 0x4b, 0x80, 0xf8, 0x43, 0x4a];
    let mut buf = [0u8; 32];
    let mut keccak = Keccakf::new_v256();
    keccak.hash_str("");
    keccak.finalize(&mut buf);

    assert_eq!(buf.len(), expect.len());
    assert_eq!(buf, expect);
}

#[test]
fn l1600_test() {
    let expect = [0x79,0xF3,0x8A,0xDE,0xC5,0xC2,0x03,0x07,0xA9,0x8E,0xF7,0x6E,0x83,0x24,0xAF,0xBF,0xD4,0x6C,0xFD,0x81,0xB2,0x2E,0x39,0x73,0xC6,0x5F,0xA1,0xBD,0x9D,0xE3,0x17,0x87];

    let input = &[0xa3].repeat(200);
    println!("{:02x?}", input);
    let mut buf = [0u8; 32];

    let mut keccak = Keccakf::new_v256();
    keccak.hash(input);
    keccak.finalize(&mut buf);

    assert_eq!(buf.len(), expect.len());
    assert_eq!(buf, expect);
}

#[test]
fn random_test() {
    let mut buf = [0u8; 512];
    let mut rng = thread_rng();
    let mut output_tiny = [0u8; 32];
    let mut output = [0u8; 32];

    rng.fill_bytes(&mut buf);
    println!("buf = {:02x?}", &buf[..32]);

    let mut tiny_keccak = Sha3::v256();
    tiny_keccak.update(&buf);
    tiny_keccak.finalize(&mut output_tiny);

    let mut keccak = Keccakf::new_v256();
    keccak.hash(&buf);
    keccak.finalize(&mut output);

    assert_eq!(output_tiny, output);
    println!("output = {:02x?}", output);
}

#[test]
fn specific_str_test() {
    let mut sha3 = Sha3::v256();
    let input_a = b"Lorem ipsum dolor sit amet, consectetur adipiscing elit, sed do eiusmod tempor incididunt ut labore et dolore magna aliqua. Ut enim ad minim veniam, quis nostrud exercitation ullamco laboris nisi ut aliquip ";
    let mut output_tiny = [0u8; 32];
    let mut output = [0u8; 32];
    sha3.update(input_a);
    sha3.finalize(&mut output_tiny);

    let mut keccak = Keccakf::new_v256();
    keccak.hash(input_a);
    keccak.finalize(&mut output);

    assert_eq!(output, output_tiny);
}

#[test]
fn split_input_gives_same_digest() {
    let data: Vec<u8> = (0..700u32).map(|i| (i * 7 % 256) as u8).collect();
    let mut whole = Keccakf::new_v256();
    whole.hash(&data);
    let mut parts = Keccakf::new_v256();
    parts.hash(&data[..1]);
    parts.hash(&data[1..300]);
    parts.hash(&data[300..]);
    let mut a = [0u8; 32];
    let mut b = [0u8; 32];
    whole.finalize(&mut a);
    parts.finalize(&mut b);
    assert_eq!(a, b);
}

#[test]
fn long_output_matches_tiny_keccak_shake_free_squeeze() {
    // A 200-byte squeeze crosses a block boundary; compare with the Keccak
    // permutation of tiny-keccak through its SHA3-256 prefix.
    let mut keccak = Keccakf::new_v256();
    keccak.hash(b"abc");
    let mut long = [0u8; 200];
    keccak.finalize(&mut long);
    let mut short = [0u8; 32];
    keccak.finalize(&mut short);
    assert_eq!(&long[..32], &short[..]);
    let expect_abc = [
        0x3a, 0x98, 0x5d, 0xa7, 0x4f, 0xe2, 0x25, 0xb2, 0x04, 0x5c, 0x17, 0x2d, 0x6b, 0xd3, 0x90,
        0xbd, 0x85, 0x5f, 0x08, 0x6e, 0x3e, 0x9d, 0x52, 0x5b, 0x46, 0xbf, 0xe2, 0x45, 0x11, 0x43,
        0x15, 0x32,
    ];
    assert_eq!(short, expect_abc);
}

#[test]
fn sha3_128_variant_uses_block_of_168() {
    assert_eq!(Keccakf::bit2rate(256), 136);
    assert_eq!(Keccakf::bit2rate(128), 168);
    let mut k = Keccakf::new_v128();
    k.hash_str("abc");
    let mut out = [0u8; 16];
    k.finalize(&mut out);
    // SHAKE128-style rate with the SHA-3 domain byte; compare with a
    // tiny-keccak Keccak-f state driven by hand through KeccakState.
    let mut st = KeccakState::new(168, 32, 0x06);
    st.update(b"abc");
    assert_eq!(st.result(16), out.to_vec());
}

#[test]
fn keccak_f_of_zero_state() {
    // Known first lane of Keccak-f[1600] applied to the all-zero state.
    let mut b = Buffer::new();
    b.keccak(24);
    let lanes = b.squeeze();
    assert_eq!(lanes[0], 0xF1258F7940E1DDE7);
    assert_eq!(lanes[1], 0x84D5CCF933C0478A);
}

#[test]
fn keccak_state_padding_marks_block() {
    let st = KeccakState::new(136, 64, 0x06);
    let mut buf = [0u8; 200];
    st.padding(&mut buf, 0);
    assert_eq!(buf[0], 0x06);
    assert_eq!(buf[135], 0x80);
    let mut buf2 = [0u8; 200];
    st.padding(&mut buf2, 135);
    assert_eq!(buf2[135], 0x86);
}

#[test]
fn h2s_reads_little_endian_lanes() {
    let mut buf = [0u8; 200];
    for i in 0..200 {
        buf[i] = i as u8;
    }
    let lanes = KeccakState::h2s(buf);
    assert_eq!(lanes[0], 0x0706050403020100);
    assert_eq!(lanes[1], 0x0f0e0d0c0b0a0908);
}

#[test]
fn buffer_xor_then_absorb() {
    let mut b = Buffer::new();
    let mut lanes = [0u64; 24];
    lanes[0] = 5;
    b.xor(lanes);
    assert_eq!(b.squeeze()[0], 5);
    let mut c = Buffer::new();
    c.absorb(lanes);
    let mut d = Buffer::new();
    d.xor(lanes);
    d.keccak(24);
    assert_eq!(c.squeeze(), d.squeeze());
}

#[test]
fn rho_offsets_walk() {
    let offsets = rho_offsets();
    assert_eq!(offsets, RHO);
    assert_eq!(offsets[1], 1);
    assert_eq!(offsets[10], 3);
    assert_eq!(offsets[24], 14);
}

#[test]
fn rates_and_any_state() {
    assert_eq!(Keccakf::bit2rate(224), 144);
    assert_eq!(Keccakf::bit2rate(384), 104);
    assert_eq!(Keccakf::bit2rate(512), 72);
    assert_eq!(Keccakf::bit2rate(803), 0);
    // a sponge of any rate can be made, though only 0 < rate <= 200 absorbs
    let _empty = KeccakState::new(0, 200, 0x06);
    let _wide = KeccakState::new(300, 0, 0x1f);
}
