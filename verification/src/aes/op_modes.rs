//! The ECB, CBC and CTR modes on whole byte strings.
//!
//! Encryption frames the input into 16-byte blocks: the whole blocks, then
//! the remaining bytes padded with zeros (a block of zeros when nothing
//! remains), then a block holding the number of remaining bytes in its first
//! byte. Decryption reads the cipher text back block by block; the last block
//! holds that number, from which the length of the plain text follows.
use vstd::prelude::*;
use crate::aes::algor::EncDec;
use crate::aes::enc_decrypt::{aes_decrypt, aes_encrypt, lemma_aes_len, lemma_decrypt_encrypt};
use vstd::arithmetic::div_mod::lemma_fundamental_div_mod_converse;
use crate::aes::key_msg::{fill_random, Key, M_row};
use crate::sha3::le_u64;

verus! {

broadcast use {Seq::lemma_flatten_push, lemma_aes_len};

// ---------------------------------------------------------------------------
// Model
// ---------------------------------------------------------------------------

/// The bytewise xor of two 16-byte blocks.
pub open spec fn xor_block(a: Seq<u8>, b: Seq<u8>) -> Seq<u8> {
    Seq::new(16, |i: int| a[i] ^ b[i])
}

/// The blocks that encryption feeds to the cipher for input `data`.
pub open spec fn frame_blocks(data: Seq<u8>) -> Seq<Seq<u8>> {
    let full = data.len() / 16;
    let rem = data.len() % 16;
    Seq::new(
        full + 2,
        |k: int|
            if k < full {
                data.subrange(16 * k, 16 * k + 16)
            } else if k == full {
                Seq::new(16, |i: int| if i < rem { data[16 * full + i] } else { 0u8 })
            } else {
                Seq::new(16, |i: int| if i == 0 { rem as u8 } else { 0u8 })
            },
    )
}

/// The 16 little-endian bytes of `v`.
pub open spec fn u128_le_bytes(v: u128) -> Seq<u8> {
    Seq::new(16, |i: int| (v >> ((8 * i) as u128)) as u8)
}

/// The value of the 16 little-endian bytes `b`.
pub open spec fn u128_from_le(b: Seq<u8>) -> nat
    decreases b.len(),
{
    if b.len() == 0 {
        0
    } else {
        b[0] as nat + 256 * u128_from_le(b.drop_first())
    }
}

/// The ECB cipher text of `data`.
pub open spec fn ecb_cipher(data: Seq<u8>, key: Seq<u8>) -> Seq<u8> {
    frame_blocks(data).map_values(|b: Seq<u8>| aes_encrypt(b, key)).flatten()
}

/// The first `n` blocks fed to the cipher in CBC mode: each framed block
/// xored with the previous cipher block, the first with `iv`.
pub open spec fn cbc_inputs(blocks: Seq<Seq<u8>>, key: Seq<u8>, iv: Seq<u8>, n: nat) -> Seq<Seq<u8>>
    decreases n,
{
    if n == 0 {
        Seq::empty()
    } else {
        let prev = cbc_inputs(blocks, key, iv, (n - 1) as nat);
        let chain = if n == 1 { iv } else { aes_encrypt(prev.last(), key) };
        prev.push(xor_block(blocks[n - 1], chain))
    }
}

/// The CBC cipher text of `data` with initial vector `iv`.
pub open spec fn cbc_cipher(data: Seq<u8>, key: Seq<u8>, iv: Seq<u8>) -> Seq<u8> {
    let blocks = frame_blocks(data);
    cbc_inputs(blocks, key, iv, blocks.len()).map_values(|x: Seq<u8>| aes_encrypt(x, key)).flatten()
}

/// The counter blocks of CTR mode starting from `nonce`.
pub open spec fn ctr_counters(nonce: nat, n: nat) -> Seq<Seq<u8>> {
    Seq::new(n, |k: int| u128_le_bytes((nonce + k) as u128))
}

/// The CTR cipher text of `data` starting from counter `nonce`.
pub open spec fn ctr_cipher(data: Seq<u8>, key: Seq<u8>, nonce: nat) -> Seq<u8> {
    let blocks = frame_blocks(data);
    let ctrs = ctr_counters(nonce, blocks.len());
    Seq::new(blocks.len(), |k: int| xor_block(aes_encrypt(ctrs[k], key), blocks[k])).flatten()
}

/// Why the cipher text `c` cannot be read back.
#[derive(Debug, PartialEq, Eq)]
pub enum ModeError {
    /// The length is not a whole number of blocks.
    BrokenLength,
    /// Fewer than two blocks: no data block before the length block.
    TooShort,
    /// The length recorded in the last block does not fit in a `u64`.
    LengthOverflow,
}

/// The error, if any, that the length `n` of a cipher text causes.
pub open spec fn length_error(n: nat) -> Option<ModeError> {
    if n > 16 && n % 16 != 0 {
        Some(ModeError::BrokenLength)
    } else if n < 32 {
        Some(ModeError::TooShort)
    } else {
        None
    }
}

/// The 16-byte blocks of `c`.
pub open spec fn cipher_blocks(c: Seq<u8>) -> Seq<Seq<u8>> {
    Seq::new(c.len() / 16, |k: int| c.subrange(16 * k, 16 * k + 16))
}

/// The result of reading back: the bytes written, and the length of the
/// plain text, `16` times (the number of data blocks minus one) plus the
/// number recorded in the first eight bytes of the last plain block.
pub open spec fn read_back(
    c: Seq<u8>,
    written: Seq<u8>,
    last_block: Seq<u8>,
) -> Result<(Seq<u8>, u64), ModeError> {
    match length_error(c.len()) {
        Some(e) => Err(e),
        None => {
            let total = (c.len() / 16 - 2) * 16 + le_u64(last_block, 0);
            if total > u64::MAX {
                Err(ModeError::LengthOverflow)
            } else {
                Ok((written, total as u64))
            }
        },
    }
}

/// Reading back ECB cipher text.
pub open spec fn ecb_plain(c: Seq<u8>, key: Seq<u8>) -> Result<(Seq<u8>, u64), ModeError> {
    let cb = cipher_blocks(c);
    let q = cb.len();
    read_back(
        c,
        Seq::new((q - 1) as nat, |k: int| aes_decrypt(cb[k], key)).flatten(),
        aes_decrypt(cb[q - 1], key),
    )
}

/// The plain blocks of CBC cipher blocks `cb`: each decrypted block xored
/// with the previous cipher block, the first with `iv`.
pub open spec fn cbc_outputs(cb: Seq<Seq<u8>>, key: Seq<u8>, iv: Seq<u8>) -> Seq<Seq<u8>> {
    Seq::new(cb.len(), |k: int| xor_block(if k == 0 { iv } else { cb[k - 1] }, aes_decrypt(cb[k], key)))
}

/// Reading back CBC cipher text; every block is written, the last one too.
pub open spec fn cbc_plain(c: Seq<u8>, key: Seq<u8>, iv: Seq<u8>) -> Result<(Seq<u8>, u64), ModeError> {
    let outs = cbc_outputs(cipher_blocks(c), key, iv);
    read_back(c, outs.flatten(), outs.last())
}

/// Reading back CTR cipher text from counter `nonce`.
pub open spec fn ctr_plain(c: Seq<u8>, key: Seq<u8>, nonce: nat) -> Result<(Seq<u8>, u64), ModeError> {
    let cb = cipher_blocks(c);
    let q = cb.len();
    let ctrs = ctr_counters(nonce, q);
    let outs = Seq::new(q, |k: int| xor_block(aes_encrypt(ctrs[k], key), cb[k]));
    read_back(c, outs.take(q - 1).flatten(), outs[q - 1])
}

/// The view of an executable read-back result.
pub open spec fn result_view(r: Result<(Vec<u8>, u64), ModeError>) -> Result<(Seq<u8>, u64), ModeError> {
    match r {
        Ok((v, t)) => Ok((v@, t)),
        Err(e) => Err(e),
    }
}

// ---------------------------------------------------------------------------
// Block helpers
// ---------------------------------------------------------------------------

/// The bytewise xor of `a` and `b`.
pub fn xor(a: [u8; 16], b: &[u8; 16]) -> (r: [u8; 16])
    ensures
        r@ == xor_block(a@, b@),
{
    let mut a = a;
    let ghost a0 = a@;
    for i in 0..16
        invariant
            forall|j: int| 0 <= j < i ==> a@[j] == a0[j] ^ b@[j],
            forall|j: int| i <= j < 16 ==> a@[j] == a0[j],
    {
        a[i] = a[i] ^ b[i];
    }
    assert(a@ =~= xor_block(a0, b@));
    a
}

fn append_block(v: &mut Vec<u8>, b: &[u8; 16])
    ensures
        final(v)@ == old(v)@ + b@,
{
    let ghost v0 = v@;
    for i in 0..16
        invariant
            v@ == v0 + b@.take(i as int),
    {
        v.push(b[i]);
        assert(v0 + b@.take(i + 1) =~= (v0 + b@.take(i as int)).push(b@[i as int]));
    }
    assert(b@.take(16) =~= b@);
}

fn block_at(data: &[u8], k: usize) -> (r: [u8; 16])
    requires
        16 * k + 16 <= data.len(),
    ensures
        r@ == data@.subrange(16 * k as int, 16 * k + 16),
{
    let mut r = [0u8; 16];
    for i in 0..16
        invariant
            16 * k + 16 <= data.len(),
            forall|j: int| 0 <= j < i ==> r@[j] == data@[16 * k + j],
    {
        r[i] = data[16 * k + i];
    }
    assert(r@ =~= data@.subrange(16 * k as int, 16 * k + 16));
    r
}

/// Block `k` of the framing of `data`.
fn frame_block(data: &[u8], k: usize) -> (r: [u8; 16])
    requires
        k < data.len() / 16 + 2,
    ensures
        r@ == frame_blocks(data@)[k as int],
{
    let full = data.len() / 16;
    let rem = data.len() % 16;
    if k < full {
        block_at(data, k)
    } else if k == full {
        let mut r = [0u8; 16];
        for i in 0..rem
            invariant
                full == data.len() / 16,
                rem == data.len() % 16,
                16 * full + rem == data.len(),
                forall|j: int| 0 <= j < i ==> r@[j] == data@[16 * full + j],
                forall|j: int| i <= j < 16 ==> r@[j] == 0,
        {
            r[i] = data[16 * full + i];
        }
        assert(r@ =~= frame_blocks(data@)[k as int]);
        r
    } else {
        let mut r = [0u8; 16];
        r[0] = rem as u8;
        assert(r@ =~= frame_blocks(data@)[k as int]);
        r
    }
}

/// The 16 little-endian bytes of `v`.
fn le_bytes_u128(v: u128) -> (r: [u8; 16])
    ensures
        r@ == u128_le_bytes(v),
{
    let mut r = [0u8; 16];
    for i in 0..16
        invariant
            forall|j: int| 0 <= j < i ==> r@[j] == u128_le_bytes(v)[j],
    {
        r[i] = (v >> ((8 * i) as u128)) as u8;
    }
    assert(r@ =~= u128_le_bytes(v));
    r
}

/// The value of the first eight bytes of `b`, little endian.
fn le_u64_of(b: &[u8; 16]) -> (r: u64)
    ensures
        r == le_u64(b@, 0),
{
    (b[0] as u64) | ((b[1] as u64) << 8u64) | ((b[2] as u64) << 16u64) | ((b[3] as u64) << 24u64)
        | ((b[4] as u64) << 32u64) | ((b[5] as u64) << 40u64) | ((b[6] as u64) << 48u64) | ((
    b[7] as u64) << 56u64)
}

fn encrypt_block(b: [u8; 16], key: &Key) -> (r: [u8; 16])
    ensures
        r@ == aes_encrypt(b@, key.bytes()),
{
    <M_row as EncDec>::encrypt(M_row::new(b), key)
}

fn decrypt_block(b: [u8; 16], key: &Key) -> (r: [u8; 16])
    ensures
        r@ == aes_decrypt(b@, key.bytes()),
{
    <M_row as EncDec>::decrypt(M_row::new(b), key)
}

// ---------------------------------------------------------------------------
// Encryption
// ---------------------------------------------------------------------------

/// ECB encryption of `input`: the cipher text, and the blocks fed to the
/// cipher.
pub fn ecb_build_bytes(key: &Key, input: &[u8]) -> (r: (Vec<u8>, Vec<u8>))
    ensures
        r.0@ == ecb_cipher(input@, key.bytes()),
        r.1@ == frame_blocks(input@).flatten(),
{
    let ghost blocks = frame_blocks(input@);
    let ghost enc = blocks.map_values(|b: Seq<u8>| aes_encrypt(b, key.bytes()));
    let n = input.len() / 16 + 2;
    let mut out: Vec<u8> = Vec::new();
    let mut fed: Vec<u8> = Vec::new();
    for k in 0..n
        invariant
            n == input.len() / 16 + 2,
            blocks == frame_blocks(input@),
            enc == blocks.map_values(|b: Seq<u8>| aes_encrypt(b, key.bytes())),
            out@ == enc.take(k as int).flatten(),
            fed@ == blocks.take(k as int).flatten(),
    {
        let b = frame_block(input, k);
        append_block(&mut fed, &b);
        let c = encrypt_block(b, key);
        append_block(&mut out, &c);
        assert(blocks.take(k + 1) =~= blocks.take(k as int).push(blocks[k as int]));
        assert(enc.take(k + 1) =~= enc.take(k as int).push(enc[k as int]));
    }
    assert(blocks.take(n as int) =~= blocks);
    assert(enc.take(n as int) =~= enc);
    (out, fed)
}

/// CBC encryption of `input` with initial vector `iv` (as 16 little-endian
/// bytes): the cipher text, and the blocks fed to the cipher.
pub fn cbc_build_bytes(key: &Key, input: &[u8], iv: u128) -> (r: (Vec<u8>, Vec<u8>))
    ensures
        r.0@ == cbc_cipher(input@, key.bytes(), u128_le_bytes(iv)),
        r.1@ == cbc_inputs(
            frame_blocks(input@),
            key.bytes(),
            u128_le_bytes(iv),
            frame_blocks(input@).len(),
        ).flatten(),
{
    let ghost blocks = frame_blocks(input@);
    let ghost ivs = u128_le_bytes(iv);
    let n = input.len() / 16 + 2;
    let mut chain = le_bytes_u128(iv);
    let mut out: Vec<u8> = Vec::new();
    let mut fed: Vec<u8> = Vec::new();
    for k in 0..n
        invariant
            n == input.len() / 16 + 2,
            blocks == frame_blocks(input@),
            ivs == u128_le_bytes(iv),
            k == 0 ==> chain@ == ivs,
            k > 0 ==> chain@ == aes_encrypt(cbc_inputs(blocks, key.bytes(), ivs, k as nat).last(), key.bytes()),
            cbc_inputs(blocks, key.bytes(), ivs, k as nat).len() == k,
            out@ == cbc_inputs(blocks, key.bytes(), ivs, k as nat).map_values(
                |x: Seq<u8>| aes_encrypt(x, key.bytes()),
            ).flatten(),
            fed@ == cbc_inputs(blocks, key.bytes(), ivs, k as nat).flatten(),
    {
        let b = frame_block(input, k);
        let x = xor(b, &chain);
        proof {
            let prev = cbc_inputs(blocks, key.bytes(), ivs, k as nat);
            assert(x@ =~= xor_block(blocks[k as int], chain@));
            assert(cbc_inputs(blocks, key.bytes(), ivs, (k + 1) as nat) == prev.push(x@));
            assert(prev.push(x@).map_values(|y: Seq<u8>| aes_encrypt(y, key.bytes())) =~= prev.map_values(
                |y: Seq<u8>| aes_encrypt(y, key.bytes()),
            ).push(aes_encrypt(x@, key.bytes())));
        }
        append_block(&mut fed, &x);
        chain = encrypt_block(x, key);
        append_block(&mut out, &chain);
    }
    (out, fed)
}

/// CTR encryption of `input` from the counter whose 16 little-endian bytes
/// are `nonce`: the cipher text, and the counter blocks fed to the cipher.
pub fn ctr_build_with_nonce(key: &Key, input: &[u8], nonce: [u8; 16]) -> (r: (Vec<u8>, Vec<u8>))
    requires
        u128_from_le(nonce@) + input.len() / 16 + 2 <= u128::MAX,
    ensures
        r.0@ == ctr_cipher(input@, key.bytes(), u128_from_le(nonce@)),
        r.1@ == ctr_counters(u128_from_le(nonce@), frame_blocks(input@).len()).flatten(),
        r.0@.len() == 16 * frame_blocks(input@).len(),
        r.1@.len() == 16 * frame_blocks(input@).len(),
        forall|k: int|
            0 <= k < frame_blocks(input@).len() ==> #[trigger] r.1@.subrange(16 * k, 16 * k + 16)
                == u128_le_bytes((u128_from_le(nonce@) + k) as u128) && r.0@.subrange(
                16 * k,
                16 * k + 16,
            ) == xor_block(
                aes_encrypt(r.1@.subrange(16 * k, 16 * k + 16), key.bytes()),
                frame_blocks(input@)[k],
            ),
{
    let ghost blocks = frame_blocks(input@);
    let ghost start = u128_from_le(nonce@);
    let ghost ctrs = ctr_counters(start, blocks.len());
    let ghost outs = Seq::new(blocks.len(), |k: int| xor_block(aes_encrypt(ctrs[k], key.bytes()), blocks[k]));
    let n = input.len() / 16 + 2;
    let mut counter = u128_of_le(&nonce);
    let mut out: Vec<u8> = Vec::new();
    let mut fed: Vec<u8> = Vec::new();
    for k in 0..n
        invariant
            n == input.len() / 16 + 2,
            blocks == frame_blocks(input@),
            start == u128_from_le(nonce@),
            start + n <= u128::MAX,
            ctrs == ctr_counters(start, blocks.len()),
            outs == Seq::new(blocks.len(), |j: int| xor_block(aes_encrypt(ctrs[j], key.bytes()), blocks[j])),
            counter == start + k,
            out@ == outs.take(k as int).flatten(),
            fed@ == ctrs.take(k as int).flatten(),
    {
        let a = le_bytes_u128(counter);
        append_block(&mut fed, &a);
        counter = counter + 1;
        let b = frame_block(input, k);
        let o = xor(encrypt_block(a, key), &b);
        append_block(&mut out, &o);
        assert(ctrs.take(k + 1) =~= ctrs.take(k as int).push(ctrs[k as int]));
        assert(outs.take(k + 1) =~= outs.take(k as int).push(outs[k as int]));
    }
    assert(ctrs.take(n as int) =~= ctrs);
    assert(outs.take(n as int) =~= outs);
    proof {
        assert(all_blocks(ctrs));
        lemma_flatten_blocks(ctrs);
        lemma_ctr_cipher_blocks(input@, key.bytes(), start);
        assert forall|k: int| 0 <= k < blocks.len() implies #[trigger] fed@.subrange(16 * k, 16 * k + 16)
            == u128_le_bytes((start + k) as u128) && out@.subrange(16 * k, 16 * k + 16) == xor_block(
            aes_encrypt(fed@.subrange(16 * k, 16 * k + 16), key.bytes()),
            blocks[k],
        ) by {
            lemma_ctr_outputs(input@, key.bytes(), start, k);
        }
    }
    (out, fed)
}

/// The value of the 16 little-endian bytes `b`.
pub fn u128_of_le(b: &[u8; 16]) -> (r: u128)
    ensures
        r == u128_from_le(b@),
{
    let mut r: u128 = 0;
    let mut i: usize = 16;
    while i > 0
        invariant
            i <= 16,
            r == u128_from_le(b@.subrange(i as int, 16)),
            r < pow256((16 - i) as nat),
        decreases i,
    {
        i = i - 1;
        proof {
            assert(b@.subrange(i as int, 16).drop_first() =~= b@.subrange(i + 1, 16));
            lemma_pow256_step((16 - i - 1) as nat);
            assert(256 * r + b@[i as int] < pow256((16 - i) as nat)) by (nonlinear_arith)
                requires
                    r < pow256((16 - i - 1) as nat),
                    b@[i as int] < 256,
                    pow256((16 - i) as nat) == 256 * pow256((16 - i - 1) as nat),
            ;
            lemma_pow256_16();
            lemma_pow256_mono((16 - i) as nat, 16);
        }
        r = (b[i] as u128) + 256 * r;
    }
    assert(b@.subrange(0, 16) =~= b@);
    r
}

/// `256^n`.
pub open spec fn pow256(n: nat) -> nat
    decreases n,
{
    if n == 0 {
        1
    } else {
        256 * pow256((n - 1) as nat)
    }
}

proof fn lemma_pow256_step(n: nat)
    ensures
        pow256(n + 1) == 256 * pow256(n),
{
}

proof fn lemma_pow256_mono(a: nat, b: nat)
    requires
        a <= b,
    ensures
        pow256(a) <= pow256(b),
    decreases b - a,
{
    if a < b {
        lemma_pow256_mono(a, (b - 1) as nat);
    }
}

proof fn lemma_pow256_16()
    ensures
        pow256(16) == u128::MAX + 1,
{
    reveal_with_fuel(pow256, 17);
}


/// A value whose most significant byte is zero is below `256^(n-1)`.
proof fn lemma_le_top_zero(b: Seq<u8>)
    requires
        b.len() > 0,
        b[b.len() - 1] == 0,
    ensures
        u128_from_le(b) < pow256((b.len() - 1) as nat),
    decreases b.len(),
{
    if b.len() == 1 {
        assert(b.drop_first().len() == 0);
        assert(u128_from_le(b.drop_first()) == 0);
        assert(u128_from_le(b) == b[0] as nat + 256 * u128_from_le(b.drop_first()));
    } else {
        let t = b.drop_first();
        assert(t[t.len() - 1] == b[b.len() - 1]);
        lemma_le_top_zero(t);
        let v = u128_from_le(t);
        let p = pow256((t.len() - 1) as nat);
        assert(pow256((b.len() - 1) as nat) == 256 * p);
        assert(b[0] + 256 * v < 256 * p) by (nonlinear_arith)
            requires
                b[0] < 256,
                v < p,
        ;
    }
}

/// CTR encryption of `input` from a random counter whose first and last
/// little-endian bytes are zero: the 16 bytes of the counter, the cipher
/// text, and the counter blocks fed to the cipher.
pub fn ctr_build_bytes(key: &Key, input: &[u8]) -> (r: ([u8; 16], Vec<u8>, Vec<u8>))
    ensures
        r.0@[0] == 0,
        r.0@[15] == 0,
        r.1@ == ctr_cipher(input@, key.bytes(), u128_from_le(r.0@)),
        r.2@ == ctr_counters(u128_from_le(r.0@), frame_blocks(input@).len()).flatten(),
        forall|k: int|
            0 <= k < frame_blocks(input@).len() ==> #[trigger] r.2@.subrange(16 * k, 16 * k + 16)
                == u128_le_bytes((u128_from_le(r.0@) + k) as u128) && r.1@.subrange(
                16 * k,
                16 * k + 16,
            ) == xor_block(
                aes_encrypt(r.2@.subrange(16 * k, 16 * k + 16), key.bytes()),
                frame_blocks(input@)[k],
            ),
{
    let mut arr = [0u8; 16];
    fill_random(&mut arr);
    arr[15] = 0;
    arr[0] = 0;
    proof {
        lemma_le_top_zero(arr@);
        reveal_with_fuel(pow256, 16);
        assert(pow256(15) == 0x1000000000000000000000000000000);
    }
    let (out, fed) = ctr_build_with_nonce(key, input, arr);
    (arr, out, fed)
}

// ---------------------------------------------------------------------------
// Decryption
// ---------------------------------------------------------------------------

/// The length check shared by the three modes.
fn check_length(n: usize) -> (r: Result<(), ModeError>)
    ensures
        match length_error(n as nat) {
            Some(e) => r == Err::<(), ModeError>(e),
            None => r == Ok::<(), ModeError>(()),
        },
{
    if n > 16 && n % 16 != 0 {
        Err(ModeError::BrokenLength)
    } else if n < 32 {
        Err(ModeError::TooShort)
    } else {
        Ok(())
    }
}

/// The recorded length: `16 * (q - 2)` plus the value of the first eight
/// bytes of `last`.
fn total_length(q: usize, last: &[u8; 16]) -> (r: Option<u64>)
    requires
        2 <= q <= usize::MAX / 16,
    ensures
        r matches Some(t) ==> t == (q - 2) * 16 + le_u64(last@, 0),
        r is None ==> (q - 2) * 16 + le_u64(last@, 0) > u64::MAX,
{
    let ll = le_u64_of(last);
    let base = ((q - 2) * 16) as u64;
    base.checked_add(ll)
}

/// Reads back ECB cipher text: the decrypted data blocks and the recorded
/// length of the plain text.
pub fn ecb_destruct_bytes(key: &Key, cipher: &[u8]) -> (r: Result<(Vec<u8>, u64), ModeError>)
    ensures
        result_view(r) == ecb_plain(cipher@, key.bytes()),
{
    match check_length(cipher.len()) {
        Err(e) => return Err(e),
        Ok(()) => {},
    }
    let q = cipher.len() / 16;
    let ghost cb = cipher_blocks(cipher@);
    let ghost outs = Seq::new((q - 1) as nat, |k: int| aes_decrypt(cb[k], key.bytes()));
    let mut out: Vec<u8> = Vec::new();
    for k in 0..q - 1
        invariant
            q == cipher.len() / 16,
            q >= 2,
            cb == cipher_blocks(cipher@),
            outs == Seq::new((q - 1) as nat, |j: int| aes_decrypt(cb[j], key.bytes())),
            out@ == outs.take(k as int).flatten(),
    {
        let d = decrypt_block(block_at(cipher, k), key);
        append_block(&mut out, &d);
        assert(outs.take(k + 1) =~= outs.take(k as int).push(outs[k as int]));
    }
    assert(outs.take((q - 1) as int) =~= outs);
    let last = decrypt_block(block_at(cipher, q - 1), key);
    match total_length(q, &last) {
        Some(t) => Ok((out, t)),
        None => Err(ModeError::LengthOverflow),
    }
}

/// Reads back CBC cipher text with initial vector `iv`: every decrypted block
/// (the length block too) and the recorded length of the plain text.
pub fn cbc_destruct_bytes(key: &Key, cipher: &[u8], iv: u128) -> (r: Result<(Vec<u8>, u64), ModeError>)
    ensures
        result_view(r) == cbc_plain(cipher@, key.bytes(), u128_le_bytes(iv)),
{
    match check_length(cipher.len()) {
        Err(e) => return Err(e),
        Ok(()) => {},
    }
    let q = cipher.len() / 16;
    let ghost cb = cipher_blocks(cipher@);
    let ghost outs = cbc_outputs(cb, key.bytes(), u128_le_bytes(iv));
    let mut prev = le_bytes_u128(iv);
    let mut out: Vec<u8> = Vec::new();
    for k in 0..q
        invariant
            q == cipher.len() / 16,
            q >= 2,
            cb == cipher_blocks(cipher@),
            outs == cbc_outputs(cb, key.bytes(), u128_le_bytes(iv)),
            k == 0 ==> prev@ == u128_le_bytes(iv),
            k > 0 ==> prev@ == cb[k - 1],
            out@ == outs.take(k as int).flatten(),
    {
        let c = block_at(cipher, k);
        let o = xor(prev, &decrypt_block(c, key));
        append_block(&mut out, &o);
        assert(outs.take(k + 1) =~= outs.take(k as int).push(outs[k as int]));
        prev = c;
    }
    assert(outs.take(q as int) =~= outs);
    let last = xor(block_at(cipher, q - 2), &decrypt_block(block_at(cipher, q - 1), key));
    assert(last@ == outs.last());
    match total_length(q, &last) {
        Some(t) => Ok((out, t)),
        None => Err(ModeError::LengthOverflow),
    }
}

/// Reads back CTR cipher text from the counter whose 16 little-endian bytes
/// are `nonce`: the decrypted data blocks and the recorded length.
pub fn ctr_destruct_bytes(key: &Key, cipher: &[u8], nonce: [u8; 16]) -> (r: Result<(Vec<u8>, u64), ModeError>)
    requires
        u128_from_le(nonce@) + cipher.len() / 16 <= u128::MAX,
    ensures
        result_view(r) == ctr_plain(cipher@, key.bytes(), u128_from_le(nonce@)),
{
    match check_length(cipher.len()) {
        Err(e) => return Err(e),
        Ok(()) => {},
    }
    let q = cipher.len() / 16;
    let ghost start = u128_from_le(nonce@);
    let ghost cb = cipher_blocks(cipher@);
    let ghost ctrs = ctr_counters(start, q as nat);
    let ghost outs = Seq::new(q as nat, |k: int| xor_block(aes_encrypt(ctrs[k], key.bytes()), cb[k]));
    let mut counter = u128_of_le(&nonce);
    let mut out: Vec<u8> = Vec::new();
    for k in 0..q - 1
        invariant
            q == cipher.len() / 16,
            q >= 2,
            start == u128_from_le(nonce@),
            start + q <= u128::MAX,
            cb == cipher_blocks(cipher@),
            ctrs == ctr_counters(start, q as nat),
            outs == Seq::new(q as nat, |j: int| xor_block(aes_encrypt(ctrs[j], key.bytes()), cb[j])),
            counter == start + k,
            out@ == outs.take(k as int).flatten(),
    {
        let a = le_bytes_u128(counter);
        counter = counter + 1;
        let o = xor(encrypt_block(a, key), &block_at(cipher, k));
        append_block(&mut out, &o);
        assert(outs.take(k + 1) =~= outs.take(k as int).push(outs[k as int]));
    }
    let a = le_bytes_u128(counter);
    let last = xor(encrypt_block(a, key), &block_at(cipher, q - 1));
    match total_length(q, &last) {
        Some(t) => Ok((out, t)),
        None => Err(ModeError::LengthOverflow),
    }
}


// ---------------------------------------------------------------------------
// Reading back what was written
// ---------------------------------------------------------------------------

/// Every element of `blocks` has 16 bytes.
pub open spec fn all_blocks(blocks: Seq<Seq<u8>>) -> bool {
    forall|k: int| 0 <= k < blocks.len() ==> #[trigger] blocks[k].len() == 16
}

/// Byte `i` of the concatenation of 16-byte blocks is byte `i % 16` of block
/// `i / 16`.
pub proof fn lemma_flatten_blocks(blocks: Seq<Seq<u8>>)
    requires
        all_blocks(blocks),
    ensures
        blocks.flatten().len() == 16 * blocks.len(),
        forall|i: int|
            0 <= i < 16 * blocks.len() ==> #[trigger] blocks.flatten()[i] == blocks[i / 16][i % 16],
    decreases blocks.len(),
{
    if blocks.len() > 0 {
        let init = blocks.drop_last();
        assert(blocks =~= init.push(blocks.last()));
        lemma_flatten_blocks(init);
        assert forall|i: int| 0 <= i < 16 * blocks.len() implies #[trigger] blocks.flatten()[i]
            == blocks[i / 16][i % 16] by {
            if i >= 16 * init.len() {
                lemma_fundamental_div_mod_converse(i, 16, init.len() as int, i - 16 * init.len());
            }
        }
    }
}

/// The blocks of a concatenation of 16-byte blocks are those blocks.
proof fn lemma_cipher_blocks_of_flatten(blocks: Seq<Seq<u8>>)
    requires
        all_blocks(blocks),
    ensures
        cipher_blocks(blocks.flatten()) == blocks,
{
    lemma_flatten_blocks(blocks);
    let c = blocks.flatten();
    assert forall|k: int| 0 <= k < blocks.len() implies #[trigger] cipher_blocks(c)[k] =~= blocks[k] by {
        assert forall|j: int| 0 <= j < 16 implies c.subrange(16 * k, 16 * k + 16)[j] == blocks[k][j] by {
            lemma_fundamental_div_mod_converse(16 * k + j, 16, k, j);
        }
    }
    assert(cipher_blocks(c) =~= blocks);
}

proof fn lemma_frame_shape(data: Seq<u8>)
    ensures
        all_blocks(frame_blocks(data)),
        frame_blocks(data).len() == data.len() / 16 + 2,
{
}

/// The first `data.len()` bytes of the framed blocks (without the length
/// block) are `data`, and the length block records `data.len() % 16`.
proof fn lemma_frame_data(data: Seq<u8>, w: Seq<Seq<u8>>)
    requires
        w == frame_blocks(data).take((data.len() / 16) as int + 1),
    ensures
        w.flatten().len() >= data.len(),
        w.flatten().take(data.len() as int) == data,
        le_u64(frame_blocks(data)[(data.len() / 16) as int + 1], 0) == data.len() % 16,
{
    let full = (data.len() / 16) as int;
    let blocks = frame_blocks(data);
    assert(all_blocks(w));
    lemma_flatten_blocks(w);
    assert forall|i: int| 0 <= i < data.len() implies #[trigger] w.flatten()[i] == data[i] by {
        lemma_fundamental_div_mod_converse(i, 16, i / 16, i % 16);
        lemma_fundamental_div_mod_converse(data.len() as int, 16, full, (data.len() % 16) as int);
    }
    assert(w.flatten().take(data.len() as int) =~= data);
    let lb = blocks[full + 1];
    let r = (data.len() % 16) as u8;
    assert(lb[0] == r && lb[1] == 0 && lb[2] == 0 && lb[3] == 0 && lb[4] == 0 && lb[5] == 0 && lb[6]
        == 0 && lb[7] == 0);
    lemma_le_u64_small(r);
}

proof fn lemma_le_u64_small(r: u8)
    ensures
        le_u64(seq![r, 0u8, 0u8, 0u8, 0u8, 0u8, 0u8, 0u8], 0) == r,
{
    let b = seq![r, 0u8, 0u8, 0u8, 0u8, 0u8, 0u8, 0u8];
    assert(b[0] == r && b[1] == 0 && b[2] == 0 && b[3] == 0 && b[4] == 0 && b[5] == 0 && b[6] == 0
        && b[7] == 0);
    assert((r as u64) | ((0u8 as u64) << 8u64) | ((0u8 as u64) << 16u64) | ((0u8 as u64) << 24u64)
        | ((0u8 as u64) << 32u64) | ((0u8 as u64) << 40u64) | ((0u8 as u64) << 48u64) | ((0u8 as u64)
        << 56u64) == r as u64) by (bit_vector);
}

/// Reading back the ECB encryption of `data` gives back `data`: the recorded
/// length is `data.len()`, and the bytes written start with `data`.
pub proof fn lemma_ecb_round_trip(data: Seq<u8>, key: Seq<u8>)
    requires
        key.len() == 16,
        data.len() <= u64::MAX,
    ensures
        ecb_plain(ecb_cipher(data, key), key) matches Ok((w, t)) && t == data.len() && w.take(
            t as int,
        ) == data,
{
    let blocks = frame_blocks(data);
    let full = (data.len() / 16) as int;
    lemma_frame_shape(data);
    let enc = blocks.map_values(|b: Seq<u8>| aes_encrypt(b, key));
    assert forall|k: int| 0 <= k < enc.len() implies #[trigger] enc[k].len() == 16 by {
        lemma_aes_len(blocks[k], key);
    }
    lemma_flatten_blocks(enc);
    lemma_cipher_blocks_of_flatten(enc);
    let c = enc.flatten();
    let cb = cipher_blocks(c);
    let q = cb.len();
    assert(q == full + 2);
    let outs = Seq::new((q - 1) as nat, |k: int| aes_decrypt(cb[k], key));
    assert forall|k: int| 0 <= k < q implies aes_decrypt(cb[k], key) == blocks[k] by {
        lemma_decrypt_encrypt(blocks[k], key);
    }
    assert(outs =~= blocks.take(full + 1));
    lemma_frame_data(data, outs);
    lemma_fundamental_div_mod_converse(data.len() as int, 16, full, (data.len() % 16) as int);
}

/// Reading back the CTR encryption of `data` from counter `nonce` gives back
/// `data`.
pub proof fn lemma_ctr_round_trip(data: Seq<u8>, key: Seq<u8>, nonce: nat)
    requires
        key.len() == 16,
        data.len() <= u64::MAX,
        nonce + data.len() / 16 + 2 <= u128::MAX,
    ensures
        ctr_plain(ctr_cipher(data, key, nonce), key, nonce) matches Ok((w, t)) && t == data.len()
            && w.take(t as int) == data,
{
    let blocks = frame_blocks(data);
    let full = (data.len() / 16) as int;
    lemma_frame_shape(data);
    let ctrs = ctr_counters(nonce, blocks.len());
    let enc = Seq::new(blocks.len(), |k: int| xor_block(aes_encrypt(ctrs[k], key), blocks[k]));
    assert forall|k: int| 0 <= k < enc.len() implies #[trigger] enc[k].len() == 16 by {
        lemma_aes_len(ctrs[k], key);
    }
    lemma_flatten_blocks(enc);
    lemma_cipher_blocks_of_flatten(enc);
    let c = enc.flatten();
    let cb = cipher_blocks(c);
    let q = cb.len();
    assert(q == full + 2);
    let outs = Seq::new(q, |k: int| xor_block(aes_encrypt(ctr_counters(nonce, q)[k], key), cb[k]));
    assert forall|k: int| 0 <= k < q implies #[trigger] outs[k] =~= blocks[k] by {
        let e = aes_encrypt(ctrs[k], key);
        assert forall|j: int| 0 <= j < 16 implies outs[k][j] == blocks[k][j] by {
            lemma_xor_cancel(e[j], blocks[k][j]);
        }
    }
    assert(outs.take(q - 1) =~= blocks.take(full + 1));
    assert(outs[q - 1] == blocks[full + 1]);
    lemma_frame_data(data, outs.take(q - 1));
    lemma_fundamental_div_mod_converse(data.len() as int, 16, full, (data.len() % 16) as int);
}

proof fn lemma_xor_cancel(e: u8, b: u8)
    by (bit_vector)
    ensures
        e ^ (e ^ b) == b,
        e ^ (b ^ e) == b,
{
}

proof fn lemma_cbc_inputs_len(blocks: Seq<Seq<u8>>, key: Seq<u8>, iv: Seq<u8>, n: nat)
    ensures
        cbc_inputs(blocks, key, iv, n).len() == n,
    decreases n,
{
    if n > 0 {
        lemma_cbc_inputs_len(blocks, key, iv, (n - 1) as nat);
    }
}

/// The block fed to the cipher in CBC mode is the framed block xored with
/// the previous cipher block (the first with `iv`).
proof fn lemma_cbc_input_at(blocks: Seq<Seq<u8>>, key: Seq<u8>, iv: Seq<u8>, n: nat, k: int)
    requires
        0 <= k < n,
    ensures
        cbc_inputs(blocks, key, iv, n)[k] == xor_block(
            blocks[k],
            if k == 0 { iv } else { aes_encrypt(cbc_inputs(blocks, key, iv, n)[k - 1], key) },
        ),
    decreases n,
{
    lemma_cbc_inputs_len(blocks, key, iv, (n - 1) as nat);
    if k < n - 1 {
        lemma_cbc_input_at(blocks, key, iv, (n - 1) as nat, k);
    }
}

/// Decrypting the CBC cipher blocks of `blocks` gives back `blocks`.
proof fn lemma_cbc_outputs(blocks: Seq<Seq<u8>>, key: Seq<u8>, iv: Seq<u8>)
    requires
        key.len() == 16,
        iv.len() == 16,
        all_blocks(blocks),
    ensures
        cbc_outputs(
            cipher_blocks(
                cbc_inputs(blocks, key, iv, blocks.len()).map_values(|x: Seq<u8>| aes_encrypt(x, key)).flatten(),
            ),
            key,
            iv,
        ) == blocks,
{
    let xs = cbc_inputs(blocks, key, iv, blocks.len());
    lemma_cbc_inputs_len(blocks, key, iv, blocks.len());
    let enc = xs.map_values(|x: Seq<u8>| aes_encrypt(x, key));
    assert forall|k: int| 0 <= k < enc.len() implies #[trigger] enc[k].len() == 16 by {
        lemma_aes_len(xs[k], key);
    }
    lemma_cipher_blocks_of_flatten(enc);
    let cb = cipher_blocks(enc.flatten());
    let outs = cbc_outputs(cb, key, iv);
    assert forall|k: int| 0 <= k < blocks.len() implies #[trigger] outs[k] =~= blocks[k] by {
        lemma_cbc_input_at(blocks, key, iv, blocks.len(), k);
        lemma_decrypt_encrypt(xs[k], key);
        let chain = if k == 0 { iv } else { aes_encrypt(xs[k - 1], key) };
        assert(xs[k] == xor_block(blocks[k], chain));
        assert(cb[k] == aes_encrypt(xs[k], key));
        lemma_aes_len(xs[k - 1], key);
        assert(chain.len() == 16);
        assert forall|j: int| 0 <= j < 16 implies outs[k][j] == blocks[k][j] by {
            lemma_xor_cancel(chain[j], blocks[k][j]);
        }
    }
    assert(outs =~= blocks);
}

/// Reading back the CBC encryption of `data` with initial vector `iv` gives
/// back `data`.
pub proof fn lemma_cbc_round_trip(data: Seq<u8>, key: Seq<u8>, iv: Seq<u8>)
    requires
        key.len() == 16,
        iv.len() == 16,
        data.len() <= u64::MAX,
    ensures
        cbc_plain(cbc_cipher(data, key, iv), key, iv) matches Ok((w, t)) && t == data.len() && w.take(
            t as int,
        ) == data,
{
    let blocks = frame_blocks(data);
    let full = (data.len() / 16) as int;
    lemma_frame_shape(data);
    let c = cbc_cipher(data, key, iv);
    lemma_cbc_outputs(blocks, key, iv);
    let xs = cbc_inputs(blocks, key, iv, blocks.len());
    lemma_cbc_inputs_len(blocks, key, iv, blocks.len());
    let enc = xs.map_values(|x: Seq<u8>| aes_encrypt(x, key));
    assert forall|k: int| 0 <= k < enc.len() implies #[trigger] enc[k].len() == 16 by {
        lemma_aes_len(xs[k], key);
    }
    lemma_flatten_blocks(enc);
    let outs = cbc_outputs(cipher_blocks(c), key, iv);
    assert(outs == blocks);
    assert(blocks =~= blocks.take(full + 1).push(blocks[full + 1]));
    lemma_frame_data(data, blocks.take(full + 1));
    assert(blocks.flatten().take(data.len() as int) =~= blocks.take(full + 1).flatten().take(
        data.len() as int,
    ));
    lemma_fundamental_div_mod_converse(data.len() as int, 16, full, (data.len() % 16) as int);
}


/// Block `k` of the concatenation of 16-byte blocks is block `k`.
proof fn lemma_flatten_block_at(blocks: Seq<Seq<u8>>, k: int)
    requires
        all_blocks(blocks),
        0 <= k < blocks.len(),
    ensures
        blocks.flatten().subrange(16 * k, 16 * k + 16) == blocks[k],
{
    lemma_flatten_blocks(blocks);
    let f = blocks.flatten();
    assert forall|j: int| 0 <= j < 16 implies f.subrange(16 * k, 16 * k + 16)[j] == blocks[k][j] by {
        lemma_fundamental_div_mod_converse(16 * k + j, 16, k, j);
        assert(f[16 * k + j] == blocks[(16 * k + j) / 16][(16 * k + j) % 16]);
    }
    assert(f.subrange(16 * k, 16 * k + 16) =~= blocks[k]);
}

/// CTR encryption runs the counter: block `k` of the cipher text is the
/// AES encryption of counter `nonce + k` (16 little-endian bytes) xored with
/// block `k` of the framed data, for every `k`.
pub proof fn lemma_ctr_cipher_blocks(data: Seq<u8>, key: Seq<u8>, nonce: nat)
    ensures
        ctr_cipher(data, key, nonce).len() == 16 * frame_blocks(data).len(),
        forall|k: int|
            0 <= k < frame_blocks(data).len() ==> #[trigger] ctr_cipher(data, key, nonce).subrange(
                16 * k,
                16 * k + 16,
            ) == xor_block(
                aes_encrypt(u128_le_bytes((nonce + k) as u128), key),
                frame_blocks(data)[k],
            ),
{
    let blocks = frame_blocks(data);
    let ctrs = ctr_counters(nonce, blocks.len());
    let enc = Seq::new(blocks.len(), |k: int| xor_block(aes_encrypt(ctrs[k], key), blocks[k]));
    assert(all_blocks(enc));
    lemma_flatten_blocks(enc);
    assert forall|k: int| 0 <= k < blocks.len() implies #[trigger] ctr_cipher(data, key, nonce).subrange(
        16 * k,
        16 * k + 16,
    ) == xor_block(aes_encrypt(u128_le_bytes((nonce + k) as u128), key), blocks[k]) by {
        lemma_flatten_block_at(enc, k);
    }
}

/// CTR decryption runs the same counter: where the cipher text `c` reads
/// back, data block `k` is cipher block `k` xored with the AES encryption of
/// counter `nonce + k`, and the length comes from the last cipher block xored
/// with the encryption of the last counter.
pub proof fn lemma_ctr_plain_blocks(c: Seq<u8>, key: Seq<u8>, nonce: nat)
    ensures
        ctr_plain(c, key, nonce) matches Ok((w, t)) ==> {
            let q = (c.len() / 16) as int;
            &&& w.len() == 16 * (q - 1)
            &&& forall|k: int|
                0 <= k < q - 1 ==> #[trigger] w.subrange(16 * k, 16 * k + 16) == xor_block(
                    aes_encrypt(u128_le_bytes((nonce + k) as u128), key),
                    c.subrange(16 * k, 16 * k + 16),
                )
            &&& t == (q - 2) * 16 + le_u64(
                xor_block(
                    aes_encrypt(u128_le_bytes((nonce + q - 1) as u128), key),
                    c.subrange(16 * (q - 1), 16 * q),
                ),
                0,
            )
        },
{
    let cb = cipher_blocks(c);
    let q = cb.len();
    let ctrs = ctr_counters(nonce, q);
    let outs = Seq::new(q, |k: int| xor_block(aes_encrypt(ctrs[k], key), cb[k]));
    if ctr_plain(c, key, nonce) is Ok {
        let data = outs.take(q - 1);
        assert(all_blocks(data));
        lemma_flatten_blocks(data);
        assert forall|k: int| 0 <= k < q - 1 implies #[trigger] data.flatten().subrange(
            16 * k,
            16 * k + 16,
        ) == xor_block(
            aes_encrypt(u128_le_bytes((nonce + k) as u128), key),
            c.subrange(16 * k, 16 * k + 16),
        ) by {
            lemma_flatten_block_at(data, k);
        }
    }
}

/// The outputs of CTR encryption, block by block: cipher block `k` is the
/// encryption of reported counter block `k` xored with framed block `k`, and
/// counter block `k` is `nonce + k`.
proof fn lemma_ctr_outputs(data: Seq<u8>, key: Seq<u8>, nonce: nat, k: int)
    requires
        0 <= k < frame_blocks(data).len(),
    ensures
        ctr_counters(nonce, frame_blocks(data).len()).flatten().subrange(16 * k, 16 * k + 16)
            == u128_le_bytes((nonce + k) as u128),
        ctr_cipher(data, key, nonce).subrange(16 * k, 16 * k + 16) == xor_block(
            aes_encrypt(u128_le_bytes((nonce + k) as u128), key),
            frame_blocks(data)[k],
        ),
{
    let ctrs = ctr_counters(nonce, frame_blocks(data).len());
    assert(all_blocks(ctrs));
    lemma_flatten_block_at(ctrs, k);
    lemma_ctr_cipher_blocks(data, key, nonce);
}

} // verus!
