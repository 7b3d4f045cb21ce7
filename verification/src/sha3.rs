//! The Keccak-f[1600] permutation and the SHA-3 sponge built on it.
//!
//! The state is 25 lanes of 64 bits, lane `x + 5 * y` holding the bits of
//! column `x`, row `y`. Byte `i` of the sponge state is byte `i % 8` (little
//! endian) of lane `i / 8`.
use vstd::prelude::*;
use vstd::arithmetic::div_mod::lemma_fundamental_div_mod_converse;
use vstd::string::StringSliceAdditionalSpecFns;

verus! {

/// Rotation offsets of the rho step, indexed by lane.
pub const RHO: [u32; 25] = [
    0, 1, 62, 28, 27, 36, 44, 6, 55, 20, 3, 10, 43, 25, 39, 41, 45, 15, 21, 8, 18, 2, 61, 56, 14,
];

/// Round constants of the iota step.
pub const RC: [u64; 24] = [
    1u64,
    0x8082u64,
    0x800000000000808au64,
    0x8000000080008000u64,
    0x808bu64,
    0x80000001u64,
    0x8000000080008081u64,
    0x8000000000008009u64,
    0x8au64,
    0x88u64,
    0x80008009u64,
    0x8000000au64,
    0x8000808bu64,
    0x800000000000008bu64,
    0x8000000000008089u64,
    0x8000000000008003u64,
    0x8000000000008002u64,
    0x8000000000000080u64,
    0x800au64,
    0x800000008000000au64,
    0x8000000080008081u64,
    0x8000000000008080u64,
    0x80000001u64,
    0x8000000080008008u64,
];

// ---------------------------------------------------------------------------
// Mathematical model of Keccak-f[1600]
// ---------------------------------------------------------------------------

/// `v` rotated left by `n` bits (`n < 64`).
pub open spec fn rotl(v: u64, n: u32) -> u64 {
    if n == 0 {
        v
    } else {
        (v << n) | (v >> ((64 - n) as u32))
    }
}

/// Parity (xor) of the five lanes of column `x`.
pub open spec fn column_parity(s: Seq<u64>, x: int) -> u64 {
    s[x] ^ s[x + 5] ^ s[x + 10] ^ s[x + 15] ^ s[x + 20]
}

/// The value that theta xors into every lane of column `x`.
pub open spec fn theta_effect(s: Seq<u64>, x: int) -> u64 {
    column_parity(s, (x + 4) % 5) ^ rotl(column_parity(s, (x + 1) % 5), 1)
}

pub open spec fn theta(s: Seq<u64>) -> Seq<u64> {
    Seq::new(25, |i: int| s[i] ^ theta_effect(s, i % 5))
}

pub open spec fn rho(s: Seq<u64>) -> Seq<u64> {
    Seq::new(25, |i: int| rotl(s[i], RHO@[i]))
}

/// pi moves lane (x', y') = ((x + 3y) mod 5, x) to position (x, y).
pub open spec fn pi(s: Seq<u64>) -> Seq<u64> {
    Seq::new(25, |i: int| s[5 * (i % 5) + ((i % 5) + 3 * (i / 5)) % 5])
}

pub open spec fn chi(s: Seq<u64>) -> Seq<u64> {
    Seq::new(
        25,
        |i: int|
            s[i] ^ (!s[5 * (i / 5) + (i % 5 + 1) % 5] & s[5 * (i / 5) + (i % 5 + 2) % 5]),
    )
}

pub open spec fn iota(s: Seq<u64>, r: int) -> Seq<u64> {
    s.update(0, s[0] ^ RC@[r])
}

/// Round number `r` of Keccak-f[1600].
pub open spec fn keccak_round(s: Seq<u64>, r: int) -> Seq<u64> {
    iota(chi(pi(rho(theta(s)))), r)
}

/// The first `n` rounds applied to `s`.
pub open spec fn keccak_rounds(s: Seq<u64>, n: nat) -> Seq<u64>
    decreases n,
{
    if n == 0 {
        s
    } else {
        keccak_round(keccak_rounds(s, (n - 1) as nat), n - 1)
    }
}

/// The full permutation Keccak-f[1600] (24 rounds).
pub open spec fn keccak_f(s: Seq<u64>) -> Seq<u64> {
    keccak_rounds(s, 24)
}

/// The permutation applied `k` times.
pub open spec fn permute_times(s: Seq<u64>, k: nat) -> Seq<u64>
    decreases k,
{
    if k == 0 {
        s
    } else {
        keccak_f(permute_times(s, (k - 1) as nat))
    }
}

// ---------------------------------------------------------------------------
// Mathematical model of the sponge
// ---------------------------------------------------------------------------

pub open spec fn zero_state() -> Seq<u64> {
    Seq::new(25, |i: int| 0u64)
}

/// The state with byte `b` xored into state byte `i`.
pub open spec fn xor_byte(s: Seq<u64>, i: int, b: u8) -> Seq<u64> {
    s.update(i / 8, s[i / 8] ^ ((b as u64) << ((8 * (i % 8)) as u64)))
}

/// State byte `j`.
pub open spec fn lane_byte(s: Seq<u64>, j: int) -> u8 {
    (s[j / 8] >> ((8 * (j % 8)) as u64)) as u8
}

/// State and position in the current block after absorbing `msg` into the
/// zero state, one byte at a time, permuting whenever a block of `rate`
/// bytes is full.
pub open spec fn absorb(msg: Seq<u8>, rate: nat) -> (Seq<u64>, nat)
    decreases msg.len(),
{
    if msg.len() == 0 {
        (zero_state(), 0)
    } else {
        let (s, pos) = absorb(msg.drop_last(), rate);
        let s1 = xor_byte(s, pos as int, msg.last());
        if pos + 1 >= rate {
            (keccak_f(s1), 0)
        } else {
            (s1, pos + 1)
        }
    }
}

/// The state after the message has been padded (domain byte `delim` at the
/// current position, `0x80` at the last byte of the block) and the final
/// block permuted.
pub open spec fn final_state(msg: Seq<u8>, rate: nat, delim: u8) -> Seq<u64> {
    let (s, pos) = absorb(msg, rate);
    keccak_f(xor_byte(xor_byte(s, pos as int, delim), rate - 1, 0x80))
}

/// The first `n` bytes squeezed out of state `s`: byte `j` is byte
/// `j % rate` of the state permuted `j / rate` times.
pub open spec fn squeeze(s: Seq<u64>, rate: nat, n: nat) -> Seq<u8> {
    Seq::new(n, |j: int| lane_byte(permute_times(s, (j / (rate as int)) as nat), j % (rate as int)))
}

/// The `n`-byte output of the sponge with block size `rate` and domain byte
/// `delim` on message `msg`. With `rate == 136` and `delim == 0x06` this is
/// SHA3-256.
pub open spec fn sponge_digest(msg: Seq<u8>, rate: nat, delim: u8, n: nat) -> Seq<u8> {
    squeeze(final_state(msg, rate, delim), rate, n)
}

/// Little-endian value of the eight bytes of `b` starting at `off`.
pub open spec fn le_u64(b: Seq<u8>, off: int) -> u64 {
    (b[off] as u64) | ((b[off + 1] as u64) << 8u64) | ((b[off + 2] as u64) << 16u64) | ((
    b[off + 3] as u64) << 24u64) | ((b[off + 4] as u64) << 32u64) | ((b[off + 5] as u64) << 40u64)
        | ((b[off + 6] as u64) << 48u64) | ((b[off + 7] as u64) << 56u64)
}

// ---------------------------------------------------------------------------
// Facts about the model
// ---------------------------------------------------------------------------

pub proof fn lemma_rounds_len(s: Seq<u64>, n: nat)
    requires
        s.len() == 25,
    ensures
        keccak_rounds(s, n).len() == 25,
    decreases n,
{
    if n > 0 {
        lemma_rounds_len(s, (n - 1) as nat);
    }
}

pub proof fn lemma_permute_times_len(s: Seq<u64>, k: nat)
    requires
        s.len() == 25,
    ensures
        permute_times(s, k).len() == 25,
    decreases k,
{
    if k > 0 {
        lemma_permute_times_len(s, (k - 1) as nat);
        lemma_rounds_len(permute_times(s, (k - 1) as nat), 24);
    }
}

pub proof fn lemma_absorb_shape(msg: Seq<u8>, rate: nat)
    requires
        0 < rate <= 200,
    ensures
        absorb(msg, rate).0.len() == 25,
        absorb(msg, rate).1 < rate,
    decreases msg.len(),
{
    if msg.len() > 0 {
        lemma_absorb_shape(msg.drop_last(), rate);
        let (s, pos) = absorb(msg.drop_last(), rate);
        lemma_rounds_len(xor_byte(s, pos as int, msg.last()), 24);
    }
}

// ---------------------------------------------------------------------------
// Executable permutation
// ---------------------------------------------------------------------------

/// The lane `(x, y)` that the walk of the rho offsets visits at step `t`:
/// `(1, 0)`, then `(y, (2x + 3y) mod 5)`.
pub open spec fn rho_walk(t: nat) -> (int, int)
    decreases t,
{
    if t == 0 {
        (1, 0)
    } else {
        let p = rho_walk((t - 1) as nat);
        (p.1, (2 * p.0 + 3 * p.1) % 5)
    }
}

/// The offsets after `t` steps of the walk: step `s` writes
/// `(s + 1)(s + 2) / 2 mod 64` at lane `x + 5y`.
pub open spec fn rho_table(t: nat) -> Seq<u32>
    decreases t,
{
    if t == 0 {
        Seq::new(25, |i: int| 0u32)
    } else {
        let p = rho_walk((t - 1) as nat);
        rho_table((t - 1) as nat).update(5 * p.1 + p.0, ((t * (t + 1) / 2) % 64) as u32)
    }
}

proof fn lemma_rho_table()
    ensures
        rho_table(24) == RHO@,
{
    assert(rho_walk(0) == (1int, 0int));
    assert(rho_walk(1) == (0int, 2int));
    assert(rho_walk(2) == (2int, 1int));
    assert(rho_walk(3) == (1int, 2int));
    assert(rho_walk(4) == (2int, 3int));
    assert(rho_walk(5) == (3int, 3int));
    assert(rho_walk(6) == (3int, 0int));
    assert(rho_walk(7) == (0int, 1int));
    assert(rho_walk(8) == (1int, 3int));
    assert(rho_walk(9) == (3int, 1int));
    assert(rho_walk(10) == (1int, 4int));
    assert(rho_walk(11) == (4int, 4int));
    assert(rho_walk(12) == (4int, 0int));
    assert(rho_walk(13) == (0int, 3int));
    assert(rho_walk(14) == (3int, 4int));
    assert(rho_walk(15) == (4int, 3int));
    assert(rho_walk(16) == (3int, 2int));
    assert(rho_walk(17) == (2int, 2int));
    assert(rho_walk(18) == (2int, 0int));
    assert(rho_walk(19) == (0int, 4int));
    assert(rho_walk(20) == (4int, 2int));
    assert(rho_walk(21) == (2int, 4int));
    assert(rho_walk(22) == (4int, 1int));
    assert(rho_walk(23) == (1int, 1int));
    assert(rho_table(1) == rho_table(0).update(1, 1u32));
    assert(rho_table(2) == rho_table(1).update(10, 3u32));
    assert(rho_table(3) == rho_table(2).update(7, 6u32));
    assert(rho_table(4) == rho_table(3).update(11, 10u32));
    assert(rho_table(5) == rho_table(4).update(17, 15u32));
    assert(rho_table(6) == rho_table(5).update(18, 21u32));
    assert(rho_table(7) == rho_table(6).update(3, 28u32));
    assert(rho_table(8) == rho_table(7).update(5, 36u32));
    assert(rho_table(9) == rho_table(8).update(16, 45u32));
    assert(rho_table(10) == rho_table(9).update(8, 55u32));
    assert(rho_table(11) == rho_table(10).update(21, 2u32));
    assert(rho_table(12) == rho_table(11).update(24, 14u32));
    assert(rho_table(13) == rho_table(12).update(4, 27u32));
    assert(rho_table(14) == rho_table(13).update(15, 41u32));
    assert(rho_table(15) == rho_table(14).update(23, 56u32));
    assert(rho_table(16) == rho_table(15).update(19, 8u32));
    assert(rho_table(17) == rho_table(16).update(13, 25u32));
    assert(rho_table(18) == rho_table(17).update(12, 43u32));
    assert(rho_table(19) == rho_table(18).update(2, 62u32));
    assert(rho_table(20) == rho_table(19).update(20, 18u32));
    assert(rho_table(21) == rho_table(20).update(14, 39u32));
    assert(rho_table(22) == rho_table(21).update(22, 61u32));
    assert(rho_table(23) == rho_table(22).update(9, 20u32));
    assert(rho_table(24) == rho_table(23).update(6, 44u32));
    assert(rho_table(24) =~= RHO@);
}

/// The rotation offsets of the rho step, computed by walking the lanes:
/// step `t` gives lane `(x, y)` the offset `(t + 1)(t + 2) / 2 mod 64`.
pub fn rho_offsets() -> (r: [u32; 25])
    ensures
        r@ == RHO@,
{
    let mut back_shift = [0u32; 25];
    let mut x: usize = 1;
    let mut y: usize = 0;
    for t in 0..24u32
        invariant
            x < 5,
            y < 5,
            (x as int, y as int) == rho_walk(t as nat),
            back_shift@ == rho_table(t as nat),
    {
        assert((t + 1) * (t + 2) <= 600) by (nonlinear_arith)
            requires
                t < 24,
        ;
        let v: u32 = (t + 1) * (t + 2);
        let h: u32 = v >> 1;
        assert(h == v / 2) by (bit_vector)
            requires
                h == v >> 1,
        ;
        back_shift[5 * y + x] = h % 64;
        let y_temp = y;
        let x2: usize = x << 1;
        let y2: usize = y << 1;
        assert(x2 == 2 * x && y2 == 2 * y) by (bit_vector)
            requires
                x < 5,
                y < 5,
                x2 == x << 1,
                y2 == y << 1,
        ;
        y = (x2 + y + y2) % 5;
        x = y_temp;
    }
    proof {
        lemma_rho_table();
    }
    back_shift
}

/// `v` rotated left by `n` bits.
pub fn rotate_lane(v: u64, n: u32) -> (r: u64)
    requires
        n < 64,
    ensures
        r == rotl(v, n),
{
    if n == 0 {
        v
    } else {
        (v << n) | (v >> (64 - n))
    }
}

fn theta_step(a: &[u64; 25]) -> (r: [u64; 25])
    ensures
        r@ == theta(a@),
{
    let mut array: [u64; 5] = [0;5];
    for x in 0..5
        invariant
            forall|j: int| 0 <= j < x ==> array@[j] == column_parity(a@, j),
    {
        array[x] = a[x] ^ a[x + 5] ^ a[x + 10] ^ a[x + 15] ^ a[x + 20];
    }
    let mut r = [0u64; 25];
    for i in 0..25
        invariant
            forall|j: int| 0 <= j < 5 ==> array@[j] == column_parity(a@, j),
            forall|j: int| 0 <= j < i ==> r@[j] == theta(a@)[j],
    {
        let x = i % 5;
        r[i] = a[i] ^ (array[(x + 4) % 5] ^ rotate_lane(array[(x + 1) % 5], 1));
    }
    assert(r@ =~= theta(a@));
    r
}

fn rho_step(a: &[u64; 25]) -> (r: [u64; 25])
    ensures
        r@ == rho(a@),
{
    let mut r = [0u64; 25];
    for i in 0..25
        invariant
            forall|j: int| 0 <= j < i ==> r@[j] == rho(a@)[j],
    {
        r[i] = rotate_lane(a[i], RHO[i]);
    }
    assert(r@ =~= rho(a@));
    r
}

fn pi_step(a: &[u64; 25]) -> (r: [u64; 25])
    ensures
        r@ == pi(a@),
{
    let mut r = [0u64; 25];
    for x in 0..5
        invariant
            forall|j: int| 0 <= j < 25 && j % 5 < x ==> r@[j] == pi(a@)[j],
    {
        for y in 0..5
            invariant
                x < 5,
                forall|j: int|
                    0 <= j < 25 && (j % 5 < x || (j % 5 == x && j / 5 < y)) ==> r@[j]
                        == pi(a@)[j],
        {
            r[5 * y + x] = a[5 * x + ((x + 3 * y) % 5)];
        }
    }
    assert(r@ =~= pi(a@));
    r
}

fn chi_step(a: &[u64; 25]) -> (r: [u64; 25])
    ensures
        r@ == chi(a@),
{
    let mut r = [0u64; 25];
    for i in 0..25
        invariant
            forall|j: int| 0 <= j < i ==> r@[j] == chi(a@)[j],
    {
        let row = 5 * (i / 5);
        let x = i % 5;
        let mut lane = !a[row + (x + 1) % 5];
        lane &= a[row + (x + 2) % 5];
        r[i] = a[i] ^ lane;
    }
    assert(r@ =~= chi(a@));
    r
}

// ---------------------------------------------------------------------------
// Buffer: the 25 lanes of the state
// ---------------------------------------------------------------------------

pub struct Buffer {
    pub buf: [u64; 25],
}

impl Buffer {
    /// The all-zero state.
    pub fn new() -> (b: Buffer)
        ensures
            b.buf@ == zero_state(),
    {
        let b = Buffer { buf: [0u64; 25] };
        assert(b.buf@ =~= zero_state());
        b
    }

    /// Xors the 24 lanes of `new_buf` into the first 24 lanes of the state and
    /// applies the full permutation.
    pub fn absorb(&mut self, new_buf: [u64; 24])
        ensures
            final(self).buf@ == keccak_f(
                Seq::new(25, |i: int| if i < 24 { old(self).buf@[i] ^ new_buf@[i] } else { old(self).buf@[i] }),
            ),
    {
        self.xor(new_buf);
        self.keccak(24);
    }

    /// Applies the first `round` rounds of Keccak-f[1600] to the state.
    pub fn keccak(&mut self, round: u8)
        requires
            round <= 24,
        ensures
            final(self).buf@ == keccak_rounds(old(self).buf@, round as nat),
    {
        let ghost init = self.buf@;
        let mut i: u8 = 0;
        while i < round
            invariant
                i <= round <= 24,
                self.buf@ == keccak_rounds(init, i as nat),
            decreases round - i,
        {
            let t = theta_step(&self.buf);
            let r = rho_step(&t);
            let p = pi_step(&r);
            let mut c = chi_step(&p);
            c[0] = c[0] ^ RC[i as usize];
            proof {
                assert(c@ =~= keccak_round(keccak_rounds(init, i as nat), i as int));
            }
            self.buf = c;
            i = i + 1;
        }
    }

    /// The first 24 lanes of the state.
    pub fn squeeze(&mut self) -> (r: [u64; 24])
        ensures
            final(self).buf@ == old(self).buf@,
            forall|i: int| 0 <= i < 24 ==> r@[i] == old(self).buf@[i],
    {
        let mut r = [0u64; 24];
        for i in 0..24
            invariant
                forall|j: int| 0 <= j < i ==> r@[j] == self.buf@[j],
        {
            r[i] = self.buf[i];
        }
        r
    }

    /// Xors the 24 lanes of `buf` into the first 24 lanes of the state.
    pub fn xor(&mut self, buf: [u64; 24])
        ensures
            final(self).buf@ == Seq::new(
                25,
                |i: int| if i < 24 { old(self).buf@[i] ^ buf@[i] } else { old(self).buf@[i] },
            ),
    {
        let ghost init = self.buf@;
        for i in 0..24
            invariant
                forall|j: int| 0 <= j < i ==> self.buf@[j] == init[j] ^ buf@[j],
                forall|j: int| i <= j < 25 ==> self.buf@[j] == init[j],
        {
            self.buf[i] = self.buf[i] ^ buf[i];
        }
        assert(self.buf@ =~= Seq::new(
            25,
            |i: int| if i < 24 { init[i] ^ buf@[i] } else { init[i] },
        ));
    }
}


// ---------------------------------------------------------------------------
// Executable sponge
// ---------------------------------------------------------------------------

/// Writes `out.len()` bytes squeezed out of `state` with block size `rate`.
fn squeeze_into(state: &[u64; 25], rate: usize, out: &mut [u8])
    requires
        0 < rate <= 200,
    ensures
        final(out)@ == squeeze(state@, rate as nat, old(out)@.len()),
{
    let n = out.len();
    let ghost target = squeeze(state@, rate as nat, n as nat);
    let mut cur = Buffer { buf: *state };
    let ghost mut k: nat = 0;
    let mut pos: usize = 0;
    let mut j: usize = 0;
    while j < n
        invariant
            0 < rate <= 200,
            n == out@.len(),
            target == squeeze(state@, rate as nat, n as nat),
            j <= n,
            pos <= rate,
            j == k * rate + pos,
            cur.buf@ == permute_times(state@, k),
            forall|i: int| 0 <= i < j ==> out@[i] == target[i],
        decreases n - j,
    {
        if pos == rate {
            cur.keccak(24);
            proof {
                assert((k + 1) * rate == k * rate + rate) by (nonlinear_arith);
                k = k + 1;
            }
            pos = 0;
        }
        proof {
            lemma_fundamental_div_mod_converse(j as int, rate as int, k as int, pos as int);
            lemma_permute_times_len(state@, k);
        }
        out[j] = (cur.buf[pos / 8] >> ((8 * (pos % 8)) as u64)) as u8;
        pos = pos + 1;
        j = j + 1;
    }
    assert(out@ =~= target);
}

/// A sponge: the permutation state, the block size (`rate` bytes), the
/// capacity, the position in the current block and the domain byte.
pub struct KeccakState {
    buf: Buffer,
    rate: usize,
    capacity: usize,
    offset: usize,
    delim: u8,
    absorbed: Ghost<Seq<u8>>,
}

impl KeccakState {
    /// Every byte absorbed so far.
    pub closed spec fn message(&self) -> Seq<u8> {
        self.absorbed@
    }

    pub closed spec fn spec_rate(&self) -> nat {
        self.rate as nat
    }

    pub closed spec fn spec_capacity(&self) -> nat {
        self.capacity as nat
    }

    pub closed spec fn spec_delim(&self) -> u8 {
        self.delim
    }

    /// The lanes and block position are those of absorbing `message()`.
    pub closed spec fn wf(&self) -> bool {
        &&& 0 < self.rate <= 200
        &&& self.offset < self.rate
        &&& (self.buf.buf@, self.offset as nat) == absorb(self.absorbed@, self.rate as nat)
    }

    /// An empty sponge with block size `rate`, the given capacity and domain
    /// byte `delim`. It can absorb only where `0 < rate <= 200`.
    pub fn new(rate: usize, capacity: usize, delim: u8) -> (k: KeccakState)
        ensures
            k.wf() <==> 0 < rate <= 200,
            k.message() == Seq::<u8>::empty(),
            k.spec_rate() == rate,
            k.spec_capacity() == capacity,
            k.spec_delim() == delim,
    {
        KeccakState {
            buf: Buffer::new(),
            rate,
            capacity,
            offset: 0,
            delim,
            absorbed: Ghost(Seq::empty()),
        }
    }

    /// The first 24 lanes read from `buf`, eight little-endian bytes each.
    pub fn h2s(buf: [u8; 200]) -> (array: [u64; 24])
        ensures
            forall|i: int| 0 <= i < 24 ==> array@[i] == le_u64(buf@, 8 * i),
    {
        let mut array = [0u64; 24];
        for i in 0..24
            invariant
                forall|j: int| 0 <= j < i ==> array@[j] == le_u64(buf@, 8 * j),
        {
            let o = 8 * i;
            array[i] = (buf[o] as u64) | ((buf[o + 1] as u64) << 8u64) | ((buf[o + 2] as u64)
                << 16u64) | ((buf[o + 3] as u64) << 24u64) | ((buf[o + 4] as u64) << 32u64) | ((
            buf[o + 5] as u64) << 40u64) | ((buf[o + 6] as u64) << 48u64) | ((buf[o + 7] as u64)
                << 56u64);
        }
        array
    }

    /// Absorbs one byte.
    fn absorb_byte(&mut self, b: u8)
        requires
            old(self).wf(),
        ensures
            final(self).wf(),
            final(self).message() == old(self).message().push(b),
            final(self).spec_rate() == old(self).spec_rate(),
            final(self).spec_capacity() == old(self).spec_capacity(),
            final(self).spec_delim() == old(self).spec_delim(),
    {
        let ghost m = self.absorbed@;
        proof {
            assert(m.push(b).drop_last() =~= m);
            lemma_absorb_shape(m, self.rate as nat);
        }
        let i = self.offset;
        self.buf.buf[i / 8] = self.buf.buf[i / 8] ^ ((b as u64) << ((8 * (i % 8)) as u64));
        self.offset = i + 1;
        if self.offset == self.rate {
            self.buf.keccak(24);
            self.offset = 0;
        }
        self.absorbed = Ghost(m.push(b));
    }

    /// Absorbs every byte of `data`, in order.
    pub fn update(&mut self, data: &[u8])
        requires
            old(self).wf(),
        ensures
            final(self).wf(),
            final(self).message() == old(self).message() + data@,
            final(self).spec_rate() == old(self).spec_rate(),
            final(self).spec_capacity() == old(self).spec_capacity(),
            final(self).spec_delim() == old(self).spec_delim(),
    {
        let ghost m0 = self.message();
        for i in 0..data.len()
            invariant
                self.wf(),
                self.message() == m0 + data@.take(i as int),
                self.spec_rate() == old(self).spec_rate(),
                self.spec_capacity() == old(self).spec_capacity(),
                self.spec_delim() == old(self).spec_delim(),
        {
            self.absorb_byte(data[i]);
            assert(m0 + data@.take(i + 1) =~= (m0 + data@.take(i as int)).push(data@[i as int]));
        }
        assert(data@.take(data@.len() as int) =~= data@);
    }

    /// Xors the domain byte into byte `offset` of `new_buf` and `0x80` into
    /// the last byte of the block.
    pub fn padding(&self, new_buf: &mut [u8; 200], offset: usize)
        requires
            self.wf(),
            offset < 200,
        ensures
            final(new_buf)@ == ({
                let b = old(new_buf)@.update(offset as int, old(new_buf)@[offset as int] ^ self.spec_delim());
                b.update(self.spec_rate() - 1, b[self.spec_rate() - 1] ^ 0x80u8)
            }),
    {
        new_buf[offset] = new_buf[offset] ^ self.delim;
        new_buf[self.rate - 1] = new_buf[self.rate - 1] ^ 0x80u8;
    }

    /// Writes the first `out.len()` bytes of the digest of `message()`.
    fn digest_into(&self, out: &mut [u8])
        requires
            self.wf(),
        ensures
            final(out)@ == sponge_digest(
                self.message(),
                self.spec_rate(),
                self.spec_delim(),
                old(out)@.len(),
            ),
    {
        proof {
            lemma_absorb_shape(self.absorbed@, self.rate as nat);
        }
        let mut st = Buffer { buf: self.buf.buf };
        let o = self.offset;
        st.buf[o / 8] = st.buf[o / 8] ^ ((self.delim as u64) << ((8 * (o % 8)) as u64));
        let last = self.rate - 1;
        st.buf[last / 8] = st.buf[last / 8] ^ ((0x80u8 as u64) << ((8 * (last % 8)) as u64));
        st.keccak(24);
        squeeze_into(&st.buf, self.rate, out);
    }

    /// The first `length` bytes of the digest of everything absorbed.
    pub fn result(&mut self, length: usize) -> (r: Vec<u8>)
        requires
            old(self).wf(),
        ensures
            *final(self) == *old(self),
            r@ == sponge_digest(old(self).message(), old(self).spec_rate(), old(self).spec_delim(), length as nat),
    {
        let mut out: Vec<u8> = Vec::new();
        for i in 0..length
            invariant
                out@.len() == i,
        {
            out.push(0u8);
        }
        self.digest_into(out.as_mut_slice());
        out
    }
}

/// Something that absorbs text.
pub trait Hasher {
    spec fn hashed(&self) -> Seq<u8>;

    spec fn hasher_wf(&self) -> bool;

    /// Absorbs the UTF-8 bytes of `s`.
    fn hash_str(&mut self, s: &str)
        requires
            old(self).hasher_wf(),
        ensures
            final(self).hasher_wf(),
            final(self).hashed() == old(self).hashed() + s.spec_bytes(),
    ;
}

/// A SHA-3 hasher.
pub struct Keccakf {
    state: KeccakState,
}

impl Keccakf {
    /// Everything hashed so far.
    pub closed spec fn message(&self) -> Seq<u8> {
        self.state.message()
    }

    pub closed spec fn spec_rate(&self) -> nat {
        self.state.spec_rate()
    }

    pub closed spec fn spec_delim(&self) -> u8 {
        self.state.spec_delim()
    }

    pub closed spec fn spec_capacity(&self) -> nat {
        self.state.spec_capacity()
    }

    pub closed spec fn wf(&self) -> bool {
        self.state.wf()
    }

    /// Block size in bytes of the variant with a `bits`-bit digest.
    pub fn bit2rate(bits: usize) -> (r: usize)
        requires
            bits / 4 <= 200,
        ensures
            r == 200 - bits / 4,
    {
        200 - bits / 4
    }

    /// SHA3-256: block size 136 bytes, capacity 64 bytes, domain byte 0x06.
    pub fn new_v256() -> (k: Keccakf)
        ensures
            k.wf(),
            k.message() == Seq::<u8>::empty(),
            k.spec_rate() == 136,
            k.spec_capacity() == 64,
            k.spec_delim() == 0x06,
    {
        Keccakf { state: KeccakState::new(Self::bit2rate(256), 256 / 4, 0x06) }
    }

    /// The 128-bit variant: block size 168 bytes, capacity 32 bytes, domain
    /// byte 0x06.
    pub fn new_v128() -> (k: Keccakf)
        ensures
            k.wf(),
            k.message() == Seq::<u8>::empty(),
            k.spec_rate() == 168,
            k.spec_capacity() == 32,
            k.spec_delim() == 0x06,
    {
        Keccakf { state: KeccakState::new(Self::bit2rate(128), 128 / 4, 0x06) }
    }

    /// Absorbs `input`.
    pub fn hash(&mut self, input: &[u8])
        requires
            old(self).wf(),
        ensures
            final(self).wf(),
            final(self).message() == old(self).message() + input@,
            final(self).spec_rate() == old(self).spec_rate(),
            final(self).spec_capacity() == old(self).spec_capacity(),
            final(self).spec_delim() == old(self).spec_delim(),
    {
        self.state.update(input);
    }

    /// Fills `buf` with the first `buf.len()` bytes of the digest of
    /// everything hashed so far.
    pub fn finalize(&self, buf: &mut [u8])
        requires
            self.wf(),
        ensures
            final(buf)@ == sponge_digest(self.message(), self.spec_rate(), self.spec_delim(), old(buf)@.len()),
    {
        self.state.digest_into(buf);
    }
}

impl Hasher for Keccakf {
    closed spec fn hashed(&self) -> Seq<u8> {
        self.message()
    }

    closed spec fn hasher_wf(&self) -> bool {
        self.wf()
    }

    fn hash_str(&mut self, s: &str) {
        self.hash(s.as_bytes());
    }
}

// ---------------------------------------------------------------------------
// The permutation is a bijection
// ---------------------------------------------------------------------------

proof fn lemma_xor_cancel(a: u64, b: u64, c: u64)
    by (bit_vector)
    requires
        a ^ c == b ^ c,
    ensures
        a == b,
{
}

proof fn lemma_rotl_injective(a: u64, b: u64, n: u32)
    by (bit_vector)
    requires
        n < 64,
        rotl(a, n) == rotl(b, n),
    ensures
        a == b,
{
}

/// chi is one-to-one on a row of five lanes.
proof fn lemma_chi_row(a0: u64, a1: u64, a2: u64, a3: u64, a4: u64, b0: u64, b1: u64, b2: u64, b3: u64, b4: u64)
    by (bit_vector)
    requires
        a0 ^ (!a1 & a2) == b0 ^ (!b1 & b2),
        a1 ^ (!a2 & a3) == b1 ^ (!b2 & b3),
        a2 ^ (!a3 & a4) == b2 ^ (!b3 & b4),
        a3 ^ (!a4 & a0) == b3 ^ (!b4 & b0),
        a4 ^ (!a0 & a1) == b4 ^ (!b0 & b1),
    ensures
        a0 == b0 && a1 == b1 && a2 == b2 && a3 == b3 && a4 == b4,
{
}

/// The only column differences that theta leaves unchanged are zero.
proof fn lemma_theta_kernel(e0: u64, e1: u64, e2: u64, e3: u64, e4: u64)
    by (bit_vector)
    requires
        e0 == e4 ^ rotl(e1, 1),
        e1 == e0 ^ rotl(e2, 1),
        e2 == e1 ^ rotl(e3, 1),
        e3 == e2 ^ rotl(e4, 1),
        e4 == e3 ^ rotl(e0, 1),
    ensures
        e0 == 0 && e1 == 0 && e2 == 0 && e3 == 0 && e4 == 0,
{
}

/// Lanes that all differ by `f` give column parities that differ by `f`.
proof fn lemma_parity_difference(
    x0: u64, x1: u64, x2: u64, x3: u64, x4: u64,
    y0: u64, y1: u64, y2: u64, y3: u64, y4: u64,
    f: u64,
)
    by (bit_vector)
    requires
        x0 ^ y0 == f,
        x1 ^ y1 == f,
        x2 ^ y2 == f,
        x3 ^ y3 == f,
        x4 ^ y4 == f,
    ensures
        (x0 ^ x1 ^ x2 ^ x3 ^ x4) ^ (y0 ^ y1 ^ y2 ^ y3 ^ y4) == f,
{
}

proof fn lemma_effect_difference(pa: u64, pb: u64, qa: u64, qb: u64, fa: u64, fb: u64)
    by (bit_vector)
    requires
        pa ^ qa == fa,
        pb ^ qb == fb,
    ensures
        (pa ^ rotl(pb, 1)) ^ (qa ^ rotl(qb, 1)) == fa ^ rotl(fb, 1),
{
}

proof fn lemma_lane_difference(x: u64, y: u64, ex: u64, ey: u64)
    by (bit_vector)
    requires
        x ^ ex == y ^ ey,
    ensures
        x ^ y == ex ^ ey,
        (ex ^ ey == 0) ==> x == y,
{
}

/// The difference of the two states in lane `i` is the difference of what
/// theta xors into its column.
proof fn lemma_theta_lane(x: Seq<u64>, y: Seq<u64>, i: int)
    requires
        x.len() == 25,
        y.len() == 25,
        0 <= i < 25,
        theta(x) == theta(y),
    ensures
        (x[i] ^ y[i]) == theta_effect(x, i % 5) ^ theta_effect(y, i % 5),
        (theta_effect(x, i % 5) ^ theta_effect(y, i % 5)) == 0 ==> x[i] == y[i],
{
    assert(theta(x)[i] == x[i] ^ theta_effect(x, i % 5));
    assert(theta(y)[i] == y[i] ^ theta_effect(y, i % 5));
    assert(theta(x)[i] == theta(y)[i]);
    lemma_lane_difference(x[i], y[i], theta_effect(x, i % 5), theta_effect(y, i % 5));
}

/// The parities of column `c` differ by what theta xors into the column.
proof fn lemma_theta_column(x: Seq<u64>, y: Seq<u64>, c: int)
    requires
        x.len() == 25,
        y.len() == 25,
        0 <= c < 5,
        theta(x) == theta(y),
    ensures
        (column_parity(x, c) ^ column_parity(y, c)) == theta_effect(x, c) ^ theta_effect(y, c),
{
    let fc = theta_effect(x, c) ^ theta_effect(y, c);
    assert((c + 5) % 5 == c && (c + 10) % 5 == c && (c + 15) % 5 == c && (c + 20) % 5 == c
        && c % 5 == c);
    lemma_theta_lane(x, y, c);
    lemma_theta_lane(x, y, c + 5);
    lemma_theta_lane(x, y, c + 10);
    lemma_theta_lane(x, y, c + 15);
    lemma_theta_lane(x, y, c + 20);
    lemma_parity_difference(x[c], x[c + 5], x[c + 10], x[c + 15], x[c + 20], y[c], y[c + 5], y[
        c + 10], y[c + 15], y[c + 20], fc);
}

/// What theta xors into column `c` is linear in the column differences.
proof fn lemma_theta_effect_step(x: Seq<u64>, y: Seq<u64>, c: int)
    requires
        x.len() == 25,
        y.len() == 25,
        0 <= c < 5,
        theta(x) == theta(y),
    ensures
        theta_effect(x, c) ^ theta_effect(y, c) == (theta_effect(x, (c + 4) % 5) ^ theta_effect(
            y,
            (c + 4) % 5,
        )) ^ rotl(theta_effect(x, (c + 1) % 5) ^ theta_effect(y, (c + 1) % 5), 1),
{
    lemma_theta_column(x, y, (c + 4) % 5);
    lemma_theta_column(x, y, (c + 1) % 5);
    lemma_effect_difference(
        column_parity(x, (c + 4) % 5),
        column_parity(x, (c + 1) % 5),
        column_parity(y, (c + 4) % 5),
        column_parity(y, (c + 1) % 5),
        theta_effect(x, (c + 4) % 5) ^ theta_effect(y, (c + 4) % 5),
        theta_effect(x, (c + 1) % 5) ^ theta_effect(y, (c + 1) % 5),
    );
}

proof fn lemma_theta_injective(x: Seq<u64>, y: Seq<u64>)
    requires
        x.len() == 25,
        y.len() == 25,
        theta(x) == theta(y),
    ensures
        x == y,
{
    let f0 = theta_effect(x, 0) ^ theta_effect(y, 0);
    let f1 = theta_effect(x, 1) ^ theta_effect(y, 1);
    let f2 = theta_effect(x, 2) ^ theta_effect(y, 2);
    let f3 = theta_effect(x, 3) ^ theta_effect(y, 3);
    let f4 = theta_effect(x, 4) ^ theta_effect(y, 4);
    lemma_theta_effect_step(x, y, 0);
    lemma_theta_effect_step(x, y, 1);
    lemma_theta_effect_step(x, y, 2);
    lemma_theta_effect_step(x, y, 3);
    lemma_theta_effect_step(x, y, 4);
    lemma_theta_kernel(f0, f1, f2, f3, f4);
    assert forall|i: int| 0 <= i < 25 implies x[i] == y[i] by {
        lemma_theta_lane(x, y, i);
    }
    assert(x =~= y);
}

proof fn lemma_rho_injective(x: Seq<u64>, y: Seq<u64>)
    requires
        x.len() == 25,
        y.len() == 25,
        rho(x) == rho(y),
    ensures
        x == y,
{
    assert forall|i: int| 0 <= i < 25 implies x[i] == y[i] by {
        assert(rho(x)[i] == rotl(x[i], RHO@[i]) && rho(y)[i] == rotl(y[i], RHO@[i]));
        assert(rho(x)[i] == rho(y)[i]);
        assert(RHO@[i] < 64);
        lemma_rotl_injective(x[i], y[i], RHO@[i]);
    }
    assert(x =~= y);
}

proof fn lemma_pi_injective(x: Seq<u64>, y: Seq<u64>)
    requires
        x.len() == 25,
        y.len() == 25,
        pi(x) == pi(y),
    ensures
        x == y,
{
    assert(pi(x)[0] == x[0] && pi(y)[0] == y[0] && pi(x)[0] == pi(y)[0]);
    assert(pi(x)[10] == x[1] && pi(y)[10] == y[1] && pi(x)[10] == pi(y)[10]);
    assert(pi(x)[20] == x[2] && pi(y)[20] == y[2] && pi(x)[20] == pi(y)[20]);
    assert(pi(x)[5] == x[3] && pi(y)[5] == y[3] && pi(x)[5] == pi(y)[5]);
    assert(pi(x)[15] == x[4] && pi(y)[15] == y[4] && pi(x)[15] == pi(y)[15]);
    assert(pi(x)[16] == x[5] && pi(y)[16] == y[5] && pi(x)[16] == pi(y)[16]);
    assert(pi(x)[1] == x[6] && pi(y)[1] == y[6] && pi(x)[1] == pi(y)[1]);
    assert(pi(x)[11] == x[7] && pi(y)[11] == y[7] && pi(x)[11] == pi(y)[11]);
    assert(pi(x)[21] == x[8] && pi(y)[21] == y[8] && pi(x)[21] == pi(y)[21]);
    assert(pi(x)[6] == x[9] && pi(y)[6] == y[9] && pi(x)[6] == pi(y)[6]);
    assert(pi(x)[7] == x[10] && pi(y)[7] == y[10] && pi(x)[7] == pi(y)[7]);
    assert(pi(x)[17] == x[11] && pi(y)[17] == y[11] && pi(x)[17] == pi(y)[17]);
    assert(pi(x)[2] == x[12] && pi(y)[2] == y[12] && pi(x)[2] == pi(y)[2]);
    assert(pi(x)[12] == x[13] && pi(y)[12] == y[13] && pi(x)[12] == pi(y)[12]);
    assert(pi(x)[22] == x[14] && pi(y)[22] == y[14] && pi(x)[22] == pi(y)[22]);
    assert(pi(x)[23] == x[15] && pi(y)[23] == y[15] && pi(x)[23] == pi(y)[23]);
    assert(pi(x)[8] == x[16] && pi(y)[8] == y[16] && pi(x)[8] == pi(y)[8]);
    assert(pi(x)[18] == x[17] && pi(y)[18] == y[17] && pi(x)[18] == pi(y)[18]);
    assert(pi(x)[3] == x[18] && pi(y)[3] == y[18] && pi(x)[3] == pi(y)[3]);
    assert(pi(x)[13] == x[19] && pi(y)[13] == y[19] && pi(x)[13] == pi(y)[13]);
    assert(pi(x)[14] == x[20] && pi(y)[14] == y[20] && pi(x)[14] == pi(y)[14]);
    assert(pi(x)[24] == x[21] && pi(y)[24] == y[21] && pi(x)[24] == pi(y)[24]);
    assert(pi(x)[9] == x[22] && pi(y)[9] == y[22] && pi(x)[9] == pi(y)[9]);
    assert(pi(x)[19] == x[23] && pi(y)[19] == y[23] && pi(x)[19] == pi(y)[19]);
    assert(pi(x)[4] == x[24] && pi(y)[4] == y[24] && pi(x)[4] == pi(y)[4]);
    assert(x =~= y);
}

proof fn lemma_chi_row_of(x: Seq<u64>, y: Seq<u64>, r: int)
    requires
        x.len() == 25,
        y.len() == 25,
        0 <= r < 5,
        chi(x) == chi(y),
    ensures
        x[5 * r] == y[5 * r],
        x[5 * r + 1] == y[5 * r + 1],
        x[5 * r + 2] == y[5 * r + 2],
        x[5 * r + 3] == y[5 * r + 3],
        x[5 * r + 4] == y[5 * r + 4],
{
    assert((5 * r) / 5 == r && (5 * r) % 5 == 0);
    assert((5 * r + 1) / 5 == r && (5 * r + 1) % 5 == 1);
    assert((5 * r + 2) / 5 == r && (5 * r + 2) % 5 == 2);
    assert((5 * r + 3) / 5 == r && (5 * r + 3) % 5 == 3);
    assert((5 * r + 4) / 5 == r && (5 * r + 4) % 5 == 4);
    assert(chi(x)[5 * r] == x[5 * r] ^ (!x[5 * r + 1] & x[5 * r + 2]));
    assert(chi(y)[5 * r] == y[5 * r] ^ (!y[5 * r + 1] & y[5 * r + 2]));
    assert(chi(x)[5 * r] == chi(y)[5 * r]);
    assert(chi(x)[5 * r + 1] == x[5 * r + 1] ^ (!x[5 * r + 2] & x[5 * r + 3]));
    assert(chi(y)[5 * r + 1] == y[5 * r + 1] ^ (!y[5 * r + 2] & y[5 * r + 3]));
    assert(chi(x)[5 * r + 1] == chi(y)[5 * r + 1]);
    assert(chi(x)[5 * r + 2] == x[5 * r + 2] ^ (!x[5 * r + 3] & x[5 * r + 4]));
    assert(chi(y)[5 * r + 2] == y[5 * r + 2] ^ (!y[5 * r + 3] & y[5 * r + 4]));
    assert(chi(x)[5 * r + 2] == chi(y)[5 * r + 2]);
    assert(chi(x)[5 * r + 3] == x[5 * r + 3] ^ (!x[5 * r + 4] & x[5 * r]));
    assert(chi(y)[5 * r + 3] == y[5 * r + 3] ^ (!y[5 * r + 4] & y[5 * r]));
    assert(chi(x)[5 * r + 3] == chi(y)[5 * r + 3]);
    assert(chi(x)[5 * r + 4] == x[5 * r + 4] ^ (!x[5 * r] & x[5 * r + 1]));
    assert(chi(y)[5 * r + 4] == y[5 * r + 4] ^ (!y[5 * r] & y[5 * r + 1]));
    assert(chi(x)[5 * r + 4] == chi(y)[5 * r + 4]);
    lemma_chi_row(x[5 * r], x[5 * r + 1], x[5 * r + 2], x[5 * r + 3], x[5 * r + 4], y[5 * r], y[5
        * r + 1], y[5 * r + 2], y[5 * r + 3], y[5 * r + 4]);
}

proof fn lemma_chi_injective(x: Seq<u64>, y: Seq<u64>)
    requires
        x.len() == 25,
        y.len() == 25,
        chi(x) == chi(y),
    ensures
        x == y,
{
    lemma_chi_row_of(x, y, 0);
    lemma_chi_row_of(x, y, 1);
    lemma_chi_row_of(x, y, 2);
    lemma_chi_row_of(x, y, 3);
    lemma_chi_row_of(x, y, 4);
    assert(x =~= y);
}

/// Each round of Keccak-f[1600] is one-to-one on states.
pub proof fn lemma_keccak_round_injective(x: Seq<u64>, y: Seq<u64>, r: int)
    requires
        x.len() == 25,
        y.len() == 25,
        keccak_round(x, r) == keccak_round(y, r),
    ensures
        x == y,
{
    let cx = chi(pi(rho(theta(x))));
    let cy = chi(pi(rho(theta(y))));
    assert(iota(cx, r)[0] == iota(cy, r)[0]);
    lemma_xor_cancel(cx[0], cy[0], RC@[r]);
    assert forall|i: int| 0 <= i < 25 implies cx[i] == cy[i] by {
        if i != 0 {
            assert(iota(cx, r)[i] == iota(cy, r)[i]);
        }
    }
    assert(cx =~= cy);
    lemma_chi_injective(pi(rho(theta(x))), pi(rho(theta(y))));
    lemma_pi_injective(rho(theta(x)), rho(theta(y)));
    lemma_rho_injective(theta(x), theta(y));
    lemma_theta_injective(x, y);
}

/// The rounds of Keccak-f[1600] are a bijection on states: two different
/// states stay different after the same number of rounds.
pub proof fn lemma_keccak_rounds_injective(x: Seq<u64>, y: Seq<u64>, n: nat)
    requires
        x.len() == 25,
        y.len() == 25,
        keccak_rounds(x, n) == keccak_rounds(y, n),
    ensures
        x == y,
    decreases n,
{
    if n > 0 {
        lemma_rounds_len(x, (n - 1) as nat);
        lemma_rounds_len(y, (n - 1) as nat);
        lemma_keccak_round_injective(keccak_rounds(x, (n - 1) as nat), keccak_rounds(y, (n - 1) as nat), n - 1);
        lemma_keccak_rounds_injective(x, y, (n - 1) as nat);
    }
}

} // verus!
