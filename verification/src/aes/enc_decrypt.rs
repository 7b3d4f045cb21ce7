//! The AES-128 cipher and its inverse, and the fact that one undoes the other.
use vstd::prelude::*;
use crate::aes::algor::EncDec;
use crate::aes::basic_operations::{
    lemma_inv_mix_column_inverse, lemma_mix_column_inverse, lemma_s_box_inverse,
    lemma_s_box_inverse_other,
};
use crate::aes::key_msg::{
    add_round_key, flatten, from_block, inv_mix_columns, inv_shift_rows, inv_sub_bytes, key_schedule,
    mix_columns, round_key, shift_rows, sub_bytes, transpose, Key, M_matrix, M_row,
};

verus! {

/// Selects the forward transformations.
pub const ENCRYPT: usize = 0;

/// Selects the inverse transformations.
pub const DECRYPT: usize = 2;

/// One middle round of the cipher.
pub open spec fn aes_round(s: Seq<Seq<u8>>, rk: Seq<u8>) -> Seq<Seq<u8>> {
    add_round_key(mix_columns(shift_rows(sub_bytes(s))), rk)
}

/// Middle rounds `1..=n` applied to `s`, round `i` using round key `i` of `w`.
pub open spec fn enc_rounds(s: Seq<Seq<u8>>, w: Seq<u32>, n: nat) -> Seq<Seq<u8>>
    decreases n,
{
    if n == 0 {
        s
    } else {
        aes_round(enc_rounds(s, w, (n - 1) as nat), round_key(w, n as int))
    }
}

/// The AES-128 cipher on a state, with key schedule `w`.
pub open spec fn cipher_state(s: Seq<Seq<u8>>, w: Seq<u32>) -> Seq<Seq<u8>> {
    add_round_key(
        shift_rows(sub_bytes(enc_rounds(add_round_key(s, round_key(w, 0)), w, 9))),
        round_key(w, 10),
    )
}

/// One middle round of the inverse cipher.
pub open spec fn inv_round(s: Seq<Seq<u8>>, rk: Seq<u8>) -> Seq<Seq<u8>> {
    inv_mix_columns(add_round_key(inv_sub_bytes(inv_shift_rows(s)), rk))
}

/// The first `n` middle rounds of the inverse cipher; step `j` uses round key
/// `10 - j`.
pub open spec fn dec_rounds(s: Seq<Seq<u8>>, w: Seq<u32>, n: nat) -> Seq<Seq<u8>>
    decreases n,
{
    if n == 0 {
        s
    } else {
        inv_round(dec_rounds(s, w, (n - 1) as nat), round_key(w, 10 - n))
    }
}

/// The AES-128 inverse cipher on a state, with key schedule `w`.
pub open spec fn inv_cipher_state(s: Seq<Seq<u8>>, w: Seq<u32>) -> Seq<Seq<u8>> {
    add_round_key(
        inv_shift_rows(inv_sub_bytes(dec_rounds(add_round_key(s, round_key(w, 10)), w, 9))),
        round_key(w, 0),
    )
}

/// AES-128 encryption of the 16-byte `block` under the 16-byte `key`
/// (FIPS-197).
#[verifier::opaque]
pub open spec fn aes_encrypt(block: Seq<u8>, key: Seq<u8>) -> Seq<u8> {
    flatten(transpose(cipher_state(from_block(block), key_schedule(key, 44))))
}

/// AES-128 decryption of the 16-byte `block` under the 16-byte `key`.
#[verifier::opaque]
pub open spec fn aes_decrypt(block: Seq<u8>, key: Seq<u8>) -> Seq<u8> {
    flatten(transpose(inv_cipher_state(from_block(block), key_schedule(key, 44))))
}

/// Encryption and decryption give 16 bytes.
pub broadcast proof fn lemma_aes_len(b: Seq<u8>, key: Seq<u8>)
    ensures
        #[trigger] aes_encrypt(b, key).len() == 16,
        #[trigger] aes_decrypt(b, key).len() == 16,
{
    reveal(aes_encrypt);
    reveal(aes_decrypt);
}

/// A 4x4 state.
pub open spec fn is_state(s: Seq<Seq<u8>>) -> bool {
    s.len() == 4 && forall|r: int| 0 <= r < 4 ==> #[trigger] s[r].len() == 4
}

// ---------------------------------------------------------------------------
// Each step is undone by its inverse
// ---------------------------------------------------------------------------

proof fn lemma_xor_twice(x: u8, k: u8)
    by (bit_vector)
    ensures
        (x ^ k) ^ k == x,
{
}

pub proof fn lemma_add_round_key_twice(s: Seq<Seq<u8>>, key: Seq<u8>)
    requires
        is_state(s),
    ensures
        add_round_key(add_round_key(s, key), key) == s,
{
    let t = add_round_key(add_round_key(s, key), key);
    assert forall|r: int| 0 <= r < 4 implies #[trigger] t[r] =~= s[r] by {
        assert forall|c: int| 0 <= c < 4 implies t[r][c] == s[r][c] by {
            lemma_xor_twice(s[r][c], key[r + 4 * c]);
        }
    }
    assert(t =~= s);
}

pub proof fn lemma_sub_bytes_inverse(s: Seq<Seq<u8>>)
    requires
        is_state(s),
    ensures
        inv_sub_bytes(sub_bytes(s)) == s,
{
    let t = inv_sub_bytes(sub_bytes(s));
    assert forall|r: int| 0 <= r < 4 implies #[trigger] t[r] =~= s[r] by {
        assert forall|c: int| 0 <= c < 4 implies t[r][c] == s[r][c] by {
            lemma_s_box_inverse(s[r][c]);
        }
    }
    assert(t =~= s);
}

pub proof fn lemma_shift_rows_inverse(s: Seq<Seq<u8>>)
    requires
        is_state(s),
    ensures
        inv_shift_rows(shift_rows(s)) == s,
{
    let t = inv_shift_rows(shift_rows(s));
    assert forall|r: int| 0 <= r < 4 implies #[trigger] t[r] =~= s[r] by {
        assert forall|c: int| 0 <= c < 4 implies t[r][c] == s[r][c] by {
            assert(((c + 4 - r) % 4 + r) % 4 == c);
        }
    }
    assert(t =~= s);
}

pub proof fn lemma_mix_columns_inverse(s: Seq<Seq<u8>>)
    requires
        is_state(s),
    ensures
        inv_mix_columns(mix_columns(s)) == s,
{
    let m = mix_columns(s);
    let t = inv_mix_columns(m);
    assert forall|c: int| 0 <= c < 4 implies t[0][c] == s[0][c] && t[1][c] == s[1][c] && t[2][c]
        == s[2][c] && t[3][c] == s[3][c] by {
        lemma_mix_column_inverse(s[0][c], s[1][c], s[2][c], s[3][c], m[0][c], m[1][c], m[2][c], m[3][c]);
    }
    assert forall|r: int| 0 <= r < 4 implies #[trigger] t[r] =~= s[r] by {
        assert forall|c: int| 0 <= c < 4 implies t[r][c] == s[r][c] by {
            if r == 0 {
            } else if r == 1 {
            } else if r == 2 {
            } else {
            }
        }
    }
    assert(t =~= s);
}

pub proof fn lemma_inv_sub_bytes_inverse(s: Seq<Seq<u8>>)
    requires
        is_state(s),
    ensures
        sub_bytes(inv_sub_bytes(s)) == s,
{
    let t = sub_bytes(inv_sub_bytes(s));
    assert forall|r: int| 0 <= r < 4 implies #[trigger] t[r] =~= s[r] by {
        assert forall|c: int| 0 <= c < 4 implies t[r][c] == s[r][c] by {
            lemma_s_box_inverse_other(s[r][c]);
        }
    }
    assert(t =~= s);
}

pub proof fn lemma_inv_shift_rows_inverse(s: Seq<Seq<u8>>)
    requires
        is_state(s),
    ensures
        shift_rows(inv_shift_rows(s)) == s,
{
    let t = shift_rows(inv_shift_rows(s));
    assert forall|r: int| 0 <= r < 4 implies #[trigger] t[r] =~= s[r] by {
        assert forall|c: int| 0 <= c < 4 implies t[r][c] == s[r][c] by {
            assert(((c + r) % 4 + 4 - r) % 4 == c);
        }
    }
    assert(t =~= s);
}

/// MixColumns undoes inverse MixColumns (the other order of
/// `lemma_mix_columns_inverse`): the two matrices are inverse both ways.
pub proof fn lemma_inv_mix_columns_inverse(s: Seq<Seq<u8>>)
    requires
        is_state(s),
    ensures
        mix_columns(inv_mix_columns(s)) == s,
{
    let m = inv_mix_columns(s);
    let t = mix_columns(m);
    assert forall|c: int| 0 <= c < 4 implies t[0][c] == s[0][c] && t[1][c] == s[1][c] && t[2][c]
        == s[2][c] && t[3][c] == s[3][c] by {
        lemma_inv_mix_column_inverse(s[0][c], s[1][c], s[2][c], s[3][c], m[0][c], m[1][c], m[2][c], m[3][c]);
    }
    assert forall|r: int| 0 <= r < 4 implies #[trigger] t[r] =~= s[r] by {
        assert forall|c: int| 0 <= c < 4 implies t[r][c] == s[r][c] by {
            if r == 0 {
            } else if r == 1 {
            } else if r == 2 {
            } else {
            }
        }
    }
    assert(t =~= s);
}

proof fn lemma_sub_bytes_shift_rows(s: Seq<Seq<u8>>)
    requires
        is_state(s),
    ensures
        sub_bytes(inv_shift_rows(s)) == inv_shift_rows(sub_bytes(s)),
        inv_sub_bytes(inv_shift_rows(s)) == inv_shift_rows(inv_sub_bytes(s)),
{
    assert(sub_bytes(inv_shift_rows(s)) =~~= inv_shift_rows(sub_bytes(s)));
    assert(inv_sub_bytes(inv_shift_rows(s)) =~~= inv_shift_rows(inv_sub_bytes(s)));
}

proof fn lemma_dec_rounds_shape(s: Seq<Seq<u8>>, w: Seq<u32>, n: nat)
    requires
        is_state(s),
    ensures
        is_state(dec_rounds(s, w, n)),
    decreases n,
{
    if n > 0 {
        let d = dec_rounds(s, w, (n - 1) as nat);
        let rk = round_key(w, 10 - n);
        lemma_dec_rounds_shape(s, w, (n - 1) as nat);
        lemma_state_shapes(d, rk);
        lemma_state_shapes(inv_shift_rows(d), rk);
        lemma_state_shapes(inv_sub_bytes(inv_shift_rows(d)), rk);
        lemma_state_shapes(add_round_key(inv_sub_bytes(inv_shift_rows(d)), rk), rk);
    }
}

/// The middle rounds undo the inverse rounds one by one.
proof fn lemma_enc_after_dec(t: Seq<Seq<u8>>, w: Seq<u32>, n: nat)
    requires
        is_state(t),
        n <= 9,
    ensures
        enc_rounds(inv_shift_rows(inv_sub_bytes(dec_rounds(t, w, 9))), w, n) == inv_shift_rows(
            inv_sub_bytes(dec_rounds(t, w, (9 - n) as nat)),
        ),
    decreases n,
{
    if n > 0 {
        lemma_enc_after_dec(t, w, (n - 1) as nat);
        let y = dec_rounds(t, w, (10 - n) as nat);
        let d = dec_rounds(t, w, (9 - n) as nat);
        let rk = round_key(w, n as int);
        lemma_dec_rounds_shape(t, w, (10 - n) as nat);
        lemma_dec_rounds_shape(t, w, (9 - n) as nat);
        assert(y == inv_round(d, rk));
        lemma_state_shapes(y, rk);
        lemma_state_shapes(inv_sub_bytes(y), rk);
        lemma_sub_bytes_shift_rows(inv_sub_bytes(y));
        lemma_inv_sub_bytes_inverse(y);
        lemma_inv_shift_rows_inverse(y);
        lemma_state_shapes(d, rk);
        lemma_state_shapes(inv_shift_rows(d), rk);
        lemma_state_shapes(inv_sub_bytes(inv_shift_rows(d)), rk);
        let z = add_round_key(inv_sub_bytes(inv_shift_rows(d)), rk);
        lemma_state_shapes(z, rk);
        lemma_inv_mix_columns_inverse(z);
        lemma_add_round_key_twice(inv_sub_bytes(inv_shift_rows(d)), rk);
        lemma_sub_bytes_shift_rows(d);
    }
}

/// Encryption undoes decryption: for every 16-byte block `c` and 16-byte key
/// `key`, encrypting the decryption of `c` under `key` gives back `c`.
pub proof fn lemma_encrypt_decrypt(c: Seq<u8>, key: Seq<u8>)
    requires
        c.len() == 16,
        key.len() == 16,
    ensures
        aes_encrypt(aes_decrypt(c, key), key) == c,
{
    reveal(aes_encrypt);
    reveal(aes_decrypt);
    let w = key_schedule(key, 44);
    let s0 = from_block(c);
    let t = add_round_key(s0, round_key(w, 10));
    let d9 = dec_rounds(t, w, 9);
    let x = inv_cipher_state(s0, w);
    lemma_state_shapes(s0, round_key(w, 10));
    lemma_state_shapes(s0, c);
    lemma_dec_rounds_shape(t, w, 9);
    lemma_state_shapes(d9, round_key(w, 0));
    lemma_state_shapes(inv_sub_bytes(d9), round_key(w, 0));
    let a = inv_shift_rows(inv_sub_bytes(d9));
    lemma_state_shapes(a, round_key(w, 0));
    lemma_state_shapes(x, round_key(w, 0));
    lemma_block_round_trip(c, x);
    lemma_add_round_key_twice(a, round_key(w, 0));
    lemma_enc_after_dec(t, w, 9);
    assert(dec_rounds(t, w, 0) == t);
    lemma_state_shapes(t, round_key(w, 10));
    lemma_state_shapes(inv_sub_bytes(t), round_key(w, 10));
    lemma_sub_bytes_shift_rows(inv_sub_bytes(t));
    lemma_inv_sub_bytes_inverse(t);
    lemma_inv_shift_rows_inverse(t);
    lemma_add_round_key_twice(s0, round_key(w, 10));
    let e = cipher_state(from_block(flatten(transpose(x))), w);
    assert(e == s0);
    lemma_block_round_trip(c, s0);
}

proof fn lemma_inv_sub_bytes_shift_rows(s: Seq<Seq<u8>>)
    requires
        is_state(s),
    ensures
        inv_sub_bytes(shift_rows(s)) == shift_rows(inv_sub_bytes(s)),
{
    assert(inv_sub_bytes(shift_rows(s)) =~~= shift_rows(inv_sub_bytes(s)));
}

proof fn lemma_block_round_trip(b: Seq<u8>, s: Seq<Seq<u8>>)
    requires
        b.len() == 16,
        is_state(s),
    ensures
        flatten(transpose(from_block(b))) == b,
        from_block(flatten(transpose(s))) == s,
{
    let t = flatten(transpose(from_block(b)));
    assert forall|k: int| 0 <= k < 16 implies t[k] == b[k] by {
        assert(k % 4 + 4 * (k / 4) == k);
    }
    assert(t =~= b);
    let u = from_block(flatten(transpose(s)));
    assert forall|r: int| 0 <= r < 4 implies #[trigger] u[r] =~= s[r] by {
        assert forall|c: int| 0 <= c < 4 implies u[r][c] == s[r][c] by {
            assert((r + 4 * c) / 4 == c && (r + 4 * c) % 4 == r);
        }
    }
    assert(u =~= s);
}

proof fn lemma_state_shapes(s: Seq<Seq<u8>>, key: Seq<u8>)
    ensures
        is_state(sub_bytes(s)),
        is_state(inv_sub_bytes(s)),
        is_state(shift_rows(s)),
        is_state(inv_shift_rows(s)),
        is_state(mix_columns(s)),
        is_state(inv_mix_columns(s)),
        is_state(add_round_key(s, key)),
        is_state(transpose(s)),
        is_state(from_block(key)),
{
}

proof fn lemma_enc_rounds_shape(s: Seq<Seq<u8>>, w: Seq<u32>, n: nat)
    requires
        is_state(s),
    ensures
        is_state(enc_rounds(s, w, n)),
    decreases n,
{
    if n > 0 {
        lemma_enc_rounds_shape(s, w, (n - 1) as nat);
        lemma_state_shapes(shift_rows(sub_bytes(enc_rounds(s, w, (n - 1) as nat))), round_key(w, n as int));
        lemma_state_shapes(sub_bytes(enc_rounds(s, w, (n - 1) as nat)), round_key(w, n as int));
        lemma_state_shapes(enc_rounds(s, w, (n - 1) as nat), round_key(w, n as int));
        lemma_state_shapes(mix_columns(shift_rows(sub_bytes(enc_rounds(s, w, (n - 1) as nat)))), round_key(w, n as int));
    }
}

/// The inverse rounds undo the middle rounds one by one.
proof fn lemma_dec_rounds(a: Seq<Seq<u8>>, w: Seq<u32>, n: nat)
    requires
        is_state(a),
        n <= 9,
    ensures
        dec_rounds(shift_rows(sub_bytes(enc_rounds(a, w, 9))), w, n) == shift_rows(
            sub_bytes(enc_rounds(a, w, (9 - n) as nat)),
        ),
    decreases n,
{
    if n > 0 {
        lemma_dec_rounds(a, w, (n - 1) as nat);
        let k = (10 - n) as nat;
        let e = enc_rounds(a, w, (k - 1) as nat);
        let rk = round_key(w, k as int);
        lemma_enc_rounds_shape(a, w, (k - 1) as nat);
        lemma_state_shapes(e, rk);
        lemma_state_shapes(sub_bytes(e), rk);
        lemma_state_shapes(shift_rows(sub_bytes(e)), rk);
        lemma_state_shapes(mix_columns(shift_rows(sub_bytes(e))), rk);
        let ek = enc_rounds(a, w, k);
        assert(ek == add_round_key(mix_columns(shift_rows(sub_bytes(e))), rk));
        lemma_enc_rounds_shape(a, w, k);
        lemma_state_shapes(ek, rk);
        lemma_state_shapes(sub_bytes(ek), rk);
        lemma_shift_rows_inverse(sub_bytes(ek));
        lemma_sub_bytes_inverse(ek);
        lemma_add_round_key_twice(mix_columns(shift_rows(sub_bytes(e))), rk);
        lemma_mix_columns_inverse(shift_rows(sub_bytes(e)));
    }
}

/// Decryption undoes encryption: for every 16-byte block `m` and 16-byte key
/// `key`, decrypting the encryption of `m` under `key` gives back `m`.
pub proof fn lemma_decrypt_encrypt(m: Seq<u8>, key: Seq<u8>)
    requires
        m.len() == 16,
        key.len() == 16,
    ensures
        aes_decrypt(aes_encrypt(m, key), key) == m,
{
    reveal(aes_encrypt);
    reveal(aes_decrypt);
    let w = key_schedule(key, 44);
    let s0 = from_block(m);
    let a = add_round_key(s0, round_key(w, 0));
    let e9 = enc_rounds(a, w, 9);
    let y = cipher_state(s0, w);
    lemma_state_shapes(s0, round_key(w, 0));
    lemma_state_shapes(s0, m);
    lemma_enc_rounds_shape(a, w, 9);
    lemma_state_shapes(e9, round_key(w, 10));
    lemma_state_shapes(sub_bytes(e9), round_key(w, 10));
    lemma_state_shapes(shift_rows(sub_bytes(e9)), round_key(w, 10));
    lemma_state_shapes(y, round_key(w, 10));
    lemma_block_round_trip(m, y);
    lemma_add_round_key_twice(shift_rows(sub_bytes(e9)), round_key(w, 10));
    lemma_dec_rounds(a, w, 9);
    assert(enc_rounds(a, w, 0) == a);
    lemma_state_shapes(a, round_key(w, 0));
    lemma_state_shapes(sub_bytes(a), round_key(w, 0));
    lemma_inv_sub_bytes_shift_rows(sub_bytes(a));
    lemma_sub_bytes_inverse(a);
    lemma_shift_rows_inverse(a);
    lemma_add_round_key_twice(s0, round_key(w, 0));
    let d = inv_cipher_state(from_block(flatten(transpose(y))), w);
    assert(d == s0);
    lemma_block_round_trip(m, s0);
}

// ---------------------------------------------------------------------------
// Executable cipher
// ---------------------------------------------------------------------------

/// Words `4 * i .. 4 * i + 4` of `w`.
fn round_words(w: &Vec<u32>, i: usize) -> (r: Vec<u32>)
    requires
        4 * i + 4 <= w.len(),
    ensures
        r@ == w@.subrange(4 * i as int, 4 * i + 4),
{
    let mut r: Vec<u32> = Vec::new();
    for j in 0..4
        invariant
            4 * i + 4 <= w.len(),
            r@ == w@.subrange(4 * i as int, 4 * i + j),
    {
        r.push(w[4 * i + j]);
        assert(r@ =~= w@.subrange(4 * i as int, 4 * i + j + 1));
    }
    r
}

/// The round key `i` of schedule `w`, as a key.
pub fn round_key_of(w: &Vec<u32>, i: usize) -> (k: Key)
    requires
        4 * i + 4 <= w.len(),
    ensures
        k.bytes() == round_key(w@, i as int),
{
    let k = Key::from(round_words(w, i));
    assert(k.bytes() =~= round_key(w@, i as int));
    k
}

/// AES-128 encryption of the block `m` under `key`.
pub fn encrypt(m: M_row, key: Key) -> (r: M_row)
    ensures
        r.bytes() == aes_encrypt(m.bytes(), key.bytes()),
{
    M_row::new(<M_row as EncDec>::encrypt(m, &key))
}

/// AES-128 decryption of the block `m` under `key`.
pub fn decrypt(m: M_row, key: Key) -> (r: M_row)
    ensures
        r.bytes() == aes_decrypt(m.bytes(), key.bytes()),
{
    M_row::new(<M_row as EncDec>::decrypt(m, &key))
}

impl EncDec for M_row {
    fn new(s: [u8; 16]) -> (r: M_row)
        ensures
            r.bytes() == s@,
    {
        M_row::new(s)
    }

    fn encrypt(self, key: &Key) -> (r: [u8; 16])
        ensures
            r@ == aes_encrypt(self.bytes(), key.bytes()),
    {
        let m = M_matrix::from(self);
        let round_keys = key.expansion();
        let out = M_row::from(cipher_matrix(m, &round_keys));
        proof {
            reveal(aes_encrypt);
        }
        out.msg()
    }

    fn decrypt(self, key: &Key) -> (r: [u8; 16])
        ensures
            r@ == aes_decrypt(self.bytes(), key.bytes()),
    {
        let m = M_matrix::from(self);
        let round_keys = key.expansion();
        let out = M_row::from(inv_cipher_matrix(m, &round_keys));
        proof {
            reveal(aes_decrypt);
        }
        out.msg()
    }

    fn msg(&self) -> (r: [u8; 16])
        ensures
            r@ == self.bytes(),
    {
        M_row::msg(self)
    }
}

/// The cipher on the state `m` with key schedule `round_keys`, followed by
/// the transpose that turns the state back into bytes column by column.
fn cipher_matrix(m: M_matrix, round_keys: &Vec<u32>) -> (r: M_matrix)
    requires
        round_keys.len() == 44,
    ensures
        r.cells() == transpose(cipher_state(m.cells(), round_keys@)),
{
    let ghost w = round_keys@;
    let mut m = m;
    m.add_round_key(&round_key_of(round_keys, 0));
    let ghost a = m.cells();
    for i in 0..9
        invariant
            round_keys@ == w,
            round_keys.len() == 44,
            m.cells() == enc_rounds(a, w, i as nat),
    {
        let ghost before = m.cells();
        m.sub_s_box(ENCRYPT);
        m.shift_rows(ENCRYPT);
        m.mix_col(ENCRYPT);
        m.add_round_key(&round_key_of(round_keys, i + 1));
        assert(m.cells() == aes_round(before, round_key(w, i + 1)));
    }
    m.sub_s_box(ENCRYPT);
    m.shift_rows(ENCRYPT);
    m.add_round_key(&round_key_of(round_keys, 10));
    m.transpose();
    m
}

/// The inverse cipher on the state `m` with key schedule `round_keys`,
/// followed by the transpose.
fn inv_cipher_matrix(m: M_matrix, round_keys: &Vec<u32>) -> (r: M_matrix)
    requires
        round_keys.len() == 44,
    ensures
        r.cells() == transpose(inv_cipher_state(m.cells(), round_keys@)),
{
    let ghost w = round_keys@;
    let mut m = m;
    m.add_round_key(&round_key_of(round_keys, 10));
    let ghost a = m.cells();
    for reverse in 0..9
        invariant
            round_keys@ == w,
            round_keys.len() == 44,
            m.cells() == dec_rounds(a, w, reverse as nat),
    {
        let ghost before = m.cells();
        let i = 8 - reverse;
        m.shift_rows(DECRYPT);
        m.sub_s_box(DECRYPT);
        m.add_round_key(&round_key_of(round_keys, i + 1));
        m.mix_col(DECRYPT);
        assert(m.cells() == inv_round(before, round_key(w, i + 1)));
    }
    m.sub_s_box(DECRYPT);
    m.shift_rows(DECRYPT);
    m.add_round_key(&round_key_of(round_keys, 0));
    m.transpose();
    m
}

} // verus!
