//! The AES-128 key, the key schedule, and the 4x4 state matrix with the
//! round transformations.
//!
//! A state matrix is modelled as 16 bytes, row by row: byte `4 * r + c` is
//! row `r`, column `c`. A 16-byte block fills the matrix column by column.
use vstd::prelude::*;
use crate::aes::basic_operations::{gf_mul, gf_mul_byte, lemma_gf_mul_unit_zero, lemma_xor_unit, s_box, S_BOX, S_BOX_INV};
use rand::RngCore;

verus! {

/// The MixColumns matrix.
pub const MIX_COL: [[u8; 4]; 4] = [[2, 3, 1, 1], [1, 2, 3, 1], [1, 1, 2, 3], [3, 1, 1, 2]];

/// The transpose of the MixColumns matrix.
pub const MIX_COL_TRANS: [[u8; 4]; 4] = [[2, 1, 1, 3], [3, 2, 1, 1], [1, 3, 2, 1], [1, 1, 3, 2]];

/// The inverse MixColumns matrix.
pub const MIX_COL_INV: [[u8; 4]; 4] = [
    [0x0E, 0x0B, 0x0D, 0x09],
    [0x09, 0x0E, 0x0B, 0x0D],
    [0x0D, 0x09, 0x0E, 0x0B],
    [0x0B, 0x0D, 0x09, 0x0E],
];

/// Round constants of the key schedule.
pub const RC: [u8; 10] = [1, 2, 4, 8, 0x10, 0x20, 0x40, 0x80, 0x1b, 0x36];

/// Selects the forward transformations.
pub const ENCRYPT: usize = 0;

/// Selects the inverse transformations.
pub const DECRYPT: usize = 2;

// ---------------------------------------------------------------------------
// Model
// ---------------------------------------------------------------------------

/// The rows of a 4x4 matrix.
pub open spec fn grid(m: [[u8; 4]; 4]) -> Seq<Seq<u8>> {
    Seq::new(4, |r: int| Seq::new(4, |c: int| m@[r]@[c]))
}

/// A 4x4 state given by the byte at row `r`, column `c`.
pub open spec fn state_of(f: spec_fn(int, int) -> u8) -> Seq<Seq<u8>> {
    Seq::new(4, |r: int| Seq::new(4, |c: int| f(r, c)))
}

/// The four bytes of `w`, most significant first.
pub open spec fn be_bytes(w: u32) -> Seq<u8> {
    seq![(w >> 24u32) as u8, (w >> 16u32) as u8, (w >> 8u32) as u8, w as u8]
}

/// The word whose bytes, most significant first, are `b0 b1 b2 b3`.
pub open spec fn be_word(b0: u8, b1: u8, b2: u8, b3: u8) -> u32 {
    ((b0 as u32) << 24u32) | ((b1 as u32) << 16u32) | ((b2 as u32) << 8u32) | (b3 as u32)
}

/// SubWord(RotWord(w)) xor the round constant `rc` in the top byte.
pub open spec fn sub_rot_word(w: u32, rc: u8) -> u32 {
    be_word(
        S_BOX@[be_bytes(w)[1] as int] ^ rc,
        S_BOX@[be_bytes(w)[2] as int],
        S_BOX@[be_bytes(w)[3] as int],
        S_BOX@[be_bytes(w)[0] as int],
    )
}

/// Word `i` of the AES-128 key schedule of the 16-byte `key`.
pub open spec fn key_word(key: Seq<u8>, i: nat) -> u32
    decreases i,
{
    if i < 4 {
        let j = 4 * i as int;
        be_word(key[j], key[j + 1], key[j + 2], key[j + 3])
    } else if i % 4 == 0 {
        key_word(key, (i - 4) as nat) ^ sub_rot_word(
            key_word(key, (i - 1) as nat),
            RC@[(i - 1) / 4],
        )
    } else {
        key_word(key, (i - 4) as nat) ^ key_word(key, (i - 1) as nat)
    }
}

/// The first `n` words of the key schedule.
pub open spec fn key_schedule(key: Seq<u8>, n: nat) -> Seq<u32> {
    Seq::new(n, |i: int| key_word(key, i as nat))
}

/// The 16 key bytes made of words `4 * i .. 4 * i + 4` of `w`, each most
/// significant byte first.
pub open spec fn round_key(w: Seq<u32>, i: int) -> Seq<u8> {
    Seq::new(16, |k: int| be_bytes(w[4 * i + k / 4])[k % 4])
}

pub open spec fn sub_bytes(s: Seq<Seq<u8>>) -> Seq<Seq<u8>> {
    state_of(|r: int, c: int| S_BOX@[s[r][c] as int])
}

pub open spec fn inv_sub_bytes(s: Seq<Seq<u8>>) -> Seq<Seq<u8>> {
    state_of(|r: int, c: int| S_BOX_INV@[s[r][c] as int])
}

/// Row `r` rotated left by `r` places.
pub open spec fn shift_rows(s: Seq<Seq<u8>>) -> Seq<Seq<u8>> {
    state_of(|r: int, c: int| s[r][(c + r) % 4])
}

/// Row `r` rotated right by `r` places.
pub open spec fn inv_shift_rows(s: Seq<Seq<u8>>) -> Seq<Seq<u8>> {
    state_of(|r: int, c: int| s[r][(c + 4 - r) % 4])
}

/// The matrix product `a * b` over GF(2^8).
pub open spec fn mat_product(a: Seq<Seq<u8>>, b: Seq<Seq<u8>>) -> Seq<Seq<u8>> {
    state_of(
        |i: int, k: int|
            gf_mul(a[i][0], b[0][k]) ^ gf_mul(a[i][1], b[1][k]) ^ gf_mul(a[i][2], b[2][k])
                ^ gf_mul(a[i][3], b[3][k]),
    )
}

pub open spec fn mix_columns(s: Seq<Seq<u8>>) -> Seq<Seq<u8>> {
    mat_product(grid(MIX_COL), s)
}

pub open spec fn inv_mix_columns(s: Seq<Seq<u8>>) -> Seq<Seq<u8>> {
    mat_product(grid(MIX_COL_INV), s)
}

/// Key byte `r + 4 * c` is xored into row `r`, column `c`.
pub open spec fn add_round_key(s: Seq<Seq<u8>>, key: Seq<u8>) -> Seq<Seq<u8>> {
    state_of(|r: int, c: int| s[r][c] ^ key[r + 4 * c])
}

pub open spec fn transpose(s: Seq<Seq<u8>>) -> Seq<Seq<u8>> {
    state_of(|r: int, c: int| s[c][r])
}

/// The state filled column by column with the 16 bytes of `b`.
pub open spec fn from_block(b: Seq<u8>) -> Seq<Seq<u8>> {
    state_of(|r: int, c: int| b[r + 4 * c])
}

/// The 16 bytes of the state, row by row.
pub open spec fn flatten(s: Seq<Seq<u8>>) -> Seq<u8> {
    Seq::new(16, |k: int| s[k / 4][k % 4])
}

/// Word `i` (`4 <= i < 44`) of the key schedule from words `i - 4` and `i - 1`.
fn schedule_step(w4: u32, w1: u32, i: usize) -> (r: u32)
    requires
        4 <= i < 44,
    ensures
        r == (if i % 4 == 0 {
            w4 ^ sub_rot_word(w1, RC@[(i - 1) / 4])
        } else {
            w4 ^ w1
        }),
{
    if i % 4 == 0 {
        let b0 = (w1 >> 24u32) as u8;
        let b1 = (w1 >> 16u32) as u8;
        let b2 = (w1 >> 8u32) as u8;
        let b3 = w1 as u8;
        assert(be_bytes(w1) =~= seq![b0, b1, b2, b3]);
        let mut t = [b0, b1, b2, b3];
        M_matrix::shift_row(&mut t, 1);
        assert(t@[0] == b1 && t@[1] == b2 && t@[2] == b3 && t@[3] == b0);
        let u0 = s_box(&t[0]) ^ RC[(i - 1) / 4];
        let u1 = s_box(&t[1]);
        let u2 = s_box(&t[2]);
        let u3 = s_box(&t[3]);
        let temp = ((u0 as u32) << 24u32) | ((u1 as u32) << 16u32) | ((u2 as u32) << 8u32) | (u3 as u32);
        assert(temp == be_word(u0, u1, u2, u3));
        w4 ^ temp
    } else {
        w4 ^ w1
    }
}

// ---------------------------------------------------------------------------
// Key
// ---------------------------------------------------------------------------

#[verifier::external_body]
pub(crate) fn fill_random(buf: &mut [u8])
    ensures
        final(buf)@.len() == old(buf)@.len(),
{
    rand::thread_rng().fill_bytes(buf);
}

/// An AES-128 key.
#[derive(Debug)]
pub struct Key([u8; 16]);

impl Key {
    /// The 16 key bytes.
    pub closed spec fn bytes(&self) -> Seq<u8> {
        self.0@
    }

    pub fn new(arr: &[u8; 16]) -> (k: Key)
        ensures
            k.bytes() == arr@,
    {
        Key(*arr)
    }

    /// A key of 16 random bytes.
    pub fn new_random() -> (k: Key)
        ensures
            k.bytes().len() == 16,
    {
        let mut arr = [0u8; 16];
        fill_random(&mut arr);
        Key(arr)
    }

    /// The 44 words of the key schedule.
    pub fn expansion(&self) -> (v: Vec<u32>)
        ensures
            v@ == key_schedule(self.bytes(), 44),
    {
        let mut v: Vec<u32> = Vec::new();
        for i in 0..4
            invariant
                v@.len() == i,
                forall|j: int| 0 <= j < i ==> v@[j] == key_word(self.bytes(), j as nat),
        {
            let word = ((self.0[4 * i] as u32) << 24u32) | ((self.0[4 * i + 1] as u32) << 16u32) | ((
            self.0[4 * i + 2] as u32) << 8u32) | (self.0[4 * i + 3] as u32);
            v.push(word);
        }
        for i in 4..44
            invariant
                v@.len() == i,
                forall|j: int| 0 <= j < i ==> v@[j] == key_word(self.bytes(), j as nat),
        {
            let res = schedule_step(v[i - 4], v[i - 1], i);
            proof {
                assert(key_word(self.bytes(), i as nat) == (if i % 4 == 0 {
                    key_word(self.bytes(), (i - 4) as nat) ^ sub_rot_word(
                        key_word(self.bytes(), (i - 1) as nat),
                        RC@[(i - 1) / 4],
                    )
                } else {
                    key_word(self.bytes(), (i - 4) as nat) ^ key_word(self.bytes(), (i - 1) as nat)
                }));
            }
            v.push(res);
        }
        assert(v@ =~= key_schedule(self.bytes(), 44));
        v
    }

    /// The key whose bytes are those of the four words of `arr`, each most
    /// significant byte first.
    pub fn from(arr: Vec<u32>) -> (k: Self)
        requires
            arr@.len() == 4,
        ensures
            k.bytes() == Seq::new(16, |i: int| be_bytes(arr@[i / 4])[i % 4]),
    {
        let mut t = [[0u8; 4]; 4];
        for w in 0..4
            invariant
                arr@.len() == 4,
                forall|i: int| 0 <= i < w ==> #[trigger] t@[i]@ == be_bytes(arr@[i]),
        {
            let x = arr[w];
            t[w] = [(x >> 24u32) as u8, (x >> 16u32) as u8, (x >> 8u32) as u8, x as u8];
            assert(t@[w as int]@ =~= be_bytes(arr@[w as int]));
        }
        let r: M_row = M_row::from(M_matrix::new_with_u8(&t));
        assert(r.bytes() =~= Seq::new(16, |i: int| be_bytes(arr@[i / 4])[i % 4]));
        Key(r.0)
    }

    /// The 16 key bytes.
    pub fn msg(&self) -> (r: [u8; 16])
        ensures
            r@ == self.bytes(),
    {
        self.0
    }
}

// ---------------------------------------------------------------------------
// M_row: a block of 16 bytes
// ---------------------------------------------------------------------------

/// A 16-byte block.
#[allow(non_camel_case_types)]
#[derive(Debug)]
pub struct M_row(pub [u8; 16]);

impl M_row {
    pub closed spec fn bytes(&self) -> Seq<u8> {
        self.0@
    }

    /// The row with the given bytes.
    pub closed spec fn of_bytes(b: Seq<u8>) -> M_row {
        choose|r: M_row| r.bytes() == b
    }

    /// A row is its bytes: `of_bytes(r.bytes()) == r`.
    pub proof fn lemma_of_bytes(r: M_row)
        ensures
            M_row::of_bytes(r.bytes()) == r,
    {
        broadcast use vstd::array::group_array_axioms;

        let o = M_row::of_bytes(r.bytes());
        assert(o.bytes() == r.bytes());
        assert forall|i: int| 0 <= i < 16 implies o.0[i] == r.0[i] by {
            assert(o.bytes()[i] == r.bytes()[i]);
        }
        assert(o.0 =~= r.0);
    }

    pub fn new(msg: [u8; 16]) -> (r: M_row)
        ensures
            r.bytes() == msg@,
    {
        M_row(msg)
    }

    /// Replaces every byte by its S-box value, computed from the definition.
    pub fn sub_s_box_cal(&mut self)
        ensures
            final(self).bytes() == Seq::new(16, |i: int| S_BOX@[old(self).bytes()[i] as int]),
    {
        let ghost init = self.0@;
        for i in 0..16
            invariant
                forall|j: int| 0 <= j < i ==> self.0@[j] == S_BOX@[init[j] as int],
                forall|j: int| i <= j < 16 ==> self.0@[j] == init[j],
        {
            let item = self.0[i];
            self.0[i] = s_box(&item);
        }
        assert(self.0@ =~= Seq::new(16, |i: int| S_BOX@[init[i] as int]));
    }

    /// Replaces every byte by its S-box value, read from the table.
    pub fn sub_s_box(&mut self)
        ensures
            final(self).bytes() == Seq::new(16, |i: int| S_BOX@[old(self).bytes()[i] as int]),
    {
        let ghost init = self.0@;
        for i in 0..16
            invariant
                forall|j: int| 0 <= j < i ==> self.0@[j] == S_BOX@[init[j] as int],
                forall|j: int| i <= j < 16 ==> self.0@[j] == init[j],
        {
            let item = self.0[i];
            self.0[i] = S_BOX[item as usize];
        }
        assert(self.0@ =~= Seq::new(16, |i: int| S_BOX@[init[i] as int]));
    }

    pub fn msg(&self) -> (r: [u8; 16])
        ensures
            r@ == self.bytes(),
    {
        self.0
    }
}

// ---------------------------------------------------------------------------
// M_matrix: the 4x4 state
// ---------------------------------------------------------------------------

/// A 4x4 matrix of bytes.
#[allow(non_camel_case_types)]
#[derive(Debug, Clone, PartialEq, Eq)]
pub struct M_matrix {
    msg: [[u8; 4]; 4],
}

impl M_matrix {
    /// The rows of the matrix.
    pub closed spec fn cells(&self) -> Seq<Seq<u8>> {
        grid(self.msg)
    }

    /// The matrix with the given rows.
    pub closed spec fn of_cells(cells: Seq<Seq<u8>>) -> M_matrix {
        choose|m: M_matrix| m.cells() == cells
    }

    /// A matrix is its cells: `of_cells(m.cells()) == m`.
    pub proof fn lemma_of_cells(m: M_matrix)
        ensures
            M_matrix::of_cells(m.cells()) == m,
    {
        broadcast use vstd::array::group_array_axioms;

        let o = M_matrix::of_cells(m.cells());
        assert(o.cells() == m.cells());
        assert forall|r: int| 0 <= r < 4 implies o.msg[r] == m.msg[r] by {
            assert forall|c: int| 0 <= c < 4 implies o.msg[r][c] == m.msg[r][c] by {
                assert(o.cells()[r][c] == m.cells()[r][c]);
            }
            assert(o.msg[r] =~= m.msg[r]);
        }
        assert(o.msg =~= m.msg);
    }

    pub fn new() -> (m: Self)
        ensures
            m.cells() == state_of(|r: int, c: int| 0u8),
    {
        let m = Self { msg: [[0u8; 4]; 4] };
        assert(m.cells() =~~= state_of(|r: int, c: int| 0u8));
        m
    }

    pub fn new_with_u8(msg: &[[u8; 4]; 4]) -> (m: Self)
        ensures
            m.cells() == grid(*msg),
    {
        Self { msg: *msg }
    }

    /// Rotates the row left by `i` places.
    pub fn shift_row(row: &mut [u8; 4], i: usize)
        requires
            i <= usize::MAX - 3,
        ensures
            final(row)@ == Seq::new(4, |j: int| old(row)@[(i + j) % 4]),
    {
        let temp = *row;
        for j in 0..4
            invariant
                i <= usize::MAX - 3,
                forall|k: int| 0 <= k < j ==> row@[k] == temp@[(i + k) % 4],
        {
            row[j] = temp[(i + j) % 4];
        }
        assert(row@ =~= Seq::new(4, |j: int| temp@[(i + j) % 4]));
    }

    /// ShiftRows for `ENCRYPT`, its inverse for any other mode.
    pub fn shift_rows(&mut self, mode: usize)
        ensures
            final(self).cells() == if mode == ENCRYPT {
                shift_rows(old(self).cells())
            } else {
                inv_shift_rows(old(self).cells())
            },
    {
        let ghost init = self.cells();
        let ghost target = if mode == ENCRYPT { shift_rows(init) } else { inv_shift_rows(init) };
        for i in 1..4
            invariant
                target == if mode == ENCRYPT { shift_rows(init) } else { inv_shift_rows(init) },
                init == grid(old(self).msg),
                self.msg@[0] == old(self).msg@[0],
                forall|r: int, c: int|
                    1 <= r < i && 0 <= c < 4 ==> #[trigger] self.msg@[r]@[c] == target[r][c],
                forall|r: int| i <= r < 4 ==> #[trigger] self.msg@[r] == old(self).msg@[r],
        {
            let mut row = self.msg[i];
            if mode == ENCRYPT {
                M_matrix::shift_row(&mut row, i);
            } else {
                M_matrix::shift_row(&mut row, 4 - i);
            }
            self.msg[i] = row;
        }
        assert(grid(self.msg) =~~= target);
    }

    /// The matrix product `self * rhs` over GF(2^8).
    pub fn multiply(&self, rhs: &M_matrix) -> (m: M_matrix)
        ensures
            m.cells() == mat_product(self.cells(), rhs.cells()),
    {
        let ghost target = mat_product(grid(self.msg), grid(rhs.msg));
        let mut out = [[0u8; 4]; 4];
        for i in 0..4
            invariant
                target == mat_product(grid(self.msg), grid(rhs.msg)),
                forall|r: int, c: int| 0 <= r < i && 0 <= c < 4 ==> #[trigger] out@[r]@[c] == target[r][c],
        {
            let row = self.msg[i];
            let mut res_row = [0u8; 4];
            for k in 0..4
                invariant
                    i < 4,
                    row == self.msg@[i as int],
                    target == mat_product(grid(self.msg), grid(rhs.msg)),
                    forall|c: int| 0 <= c < k ==> #[trigger] res_row@[c] == target[i as int][c],
            {
                res_row[k] = gf_mul_byte(row[0], rhs.msg[0][k]) ^ gf_mul_byte(row[1], rhs.msg[1][k])
                    ^ gf_mul_byte(row[2], rhs.msg[2][k]) ^ gf_mul_byte(row[3], rhs.msg[3][k]);
            }
            out[i] = res_row;
        }
        assert(grid(out) =~~= target);
        M_matrix { msg: out }
    }

    /// The cell-wise sum, where no cell's sum passes 255.
    pub fn add(&self, rhs: &M_matrix) -> (m: M_matrix)
        requires
            forall|r: int, c: int|
                0 <= r < 4 && 0 <= c < 4 ==> #[trigger] self.cells()[r][c] + rhs.cells()[r][c]
                    <= 255,
        ensures
            m.cells() == state_of(|r: int, c: int| (self.cells()[r][c] + rhs.cells()[r][c]) as u8),
    {
        let ghost target = state_of(|r: int, c: int| (grid(self.msg)[r][c] + grid(rhs.msg)[r][c]) as u8);
        assert(self.cells() == grid(self.msg) && rhs.cells() == grid(rhs.msg));
        let mut out = [[0u8; 4]; 4];
        for i in 0..4
            invariant
                target == state_of(|r: int, c: int| (grid(self.msg)[r][c] + grid(rhs.msg)[r][c]) as u8),
                forall|r: int, c: int|
                    0 <= r < 4 && 0 <= c < 4 ==> #[trigger] grid(self.msg)[r][c] + grid(rhs.msg)[r][c]
                        <= 255,
                forall|r: int, c: int| 0 <= r < i && 0 <= c < 4 ==> #[trigger] out@[r]@[c] == target[r][c],
        {
            let mut res_row = [0u8; 4];
            for j in 0..4
                invariant
                    i < 4,
                    target == state_of(|r: int, c: int| (grid(self.msg)[r][c] + grid(rhs.msg)[r][c]) as u8),
                    forall|r: int, c: int|
                        0 <= r < 4 && 0 <= c < 4 ==> #[trigger] grid(self.msg)[r][c] + grid(rhs.msg)[r][c]
                            <= 255,
                    forall|c: int| 0 <= c < j ==> #[trigger] res_row@[c] == target[i as int][c],
            {
                assert(grid(self.msg)[i as int][j as int] + grid(rhs.msg)[i as int][j as int] <= 255);
                res_row[j] = self.msg[i][j] + rhs.msg[i][j];
            }
            out[i] = res_row;
        }
        assert(grid(out) =~~= target);
        M_matrix { msg: out }
    }

    /// The cell-wise difference, where no cell of `rhs` is above that of
    /// `self`.
    pub fn sub(&self, rhs: &M_matrix) -> (m: M_matrix)
        requires
            forall|r: int, c: int|
                0 <= r < 4 && 0 <= c < 4 ==> #[trigger] self.cells()[r][c] >= rhs.cells()[r][c],
        ensures
            m.cells() == state_of(|r: int, c: int| (self.cells()[r][c] - rhs.cells()[r][c]) as u8),
    {
        let ghost target = state_of(|r: int, c: int| (grid(self.msg)[r][c] - grid(rhs.msg)[r][c]) as u8);
        assert(self.cells() == grid(self.msg) && rhs.cells() == grid(rhs.msg));
        let mut out = [[0u8; 4]; 4];
        for i in 0..4
            invariant
                target == state_of(|r: int, c: int| (grid(self.msg)[r][c] - grid(rhs.msg)[r][c]) as u8),
                forall|r: int, c: int|
                    0 <= r < 4 && 0 <= c < 4 ==> #[trigger] grid(self.msg)[r][c] >= grid(rhs.msg)[r][c],
                forall|r: int, c: int| 0 <= r < i && 0 <= c < 4 ==> #[trigger] out@[r]@[c] == target[r][c],
        {
            let mut res_row = [0u8; 4];
            for j in 0..4
                invariant
                    i < 4,
                    target == state_of(|r: int, c: int| (grid(self.msg)[r][c] - grid(rhs.msg)[r][c]) as u8),
                    forall|r: int, c: int|
                        0 <= r < 4 && 0 <= c < 4 ==> #[trigger] grid(self.msg)[r][c] >= grid(rhs.msg)[r][c],
                    forall|c: int| 0 <= c < j ==> #[trigger] res_row@[c] == target[i as int][c],
            {
                assert(grid(self.msg)[i as int][j as int] >= grid(rhs.msg)[i as int][j as int]);
                res_row[j] = self.msg[i][j] - rhs.msg[i][j];
            }
            out[i] = res_row;
        }
        assert(grid(out) =~~= target);
        M_matrix { msg: out }
    }

    /// MixColumns for `ENCRYPT`, its inverse for any other mode.
    pub fn mix_col(&mut self, mode: usize)
        ensures
            final(self).cells() == if mode == ENCRYPT {
                mix_columns(old(self).cells())
            } else {
                inv_mix_columns(old(self).cells())
            },
    {
        let temp = M_matrix { msg: self.msg };
        if mode == ENCRYPT {
            *self = M_matrix::new_with_u8(&MIX_COL).multiply(&temp);
        } else {
            *self = M_matrix::new_with_u8(&MIX_COL_INV).multiply(&temp);
        }
    }

    pub fn msg(&self) -> (r: [[u8; 4]; 4])
        ensures
            grid(r) == self.cells(),
    {
        self.msg
    }

    /// Xors key byte `i` into row `i % 4`, column `i / 4`.
    pub fn add_round_key(&mut self, round_key: &Key)
        ensures
            final(self).cells() == add_round_key(old(self).cells(), round_key.bytes()),
    {
        let ghost target = add_round_key(grid(self.msg), round_key.bytes());
        let key = round_key.msg();
        for c in 0..4
            invariant
                key@ == round_key.bytes(),
                target == add_round_key(grid(old(self).msg), round_key.bytes()),
                forall|r: int, cc: int|
                    0 <= r < 4 && 0 <= cc < c ==> #[trigger] self.msg@[r]@[cc] == target[r][cc],
                forall|r: int, cc: int|
                    0 <= r < 4 && c <= cc < 4 ==> #[trigger] self.msg@[r]@[cc] == old(self).msg@[r]@[cc],
        {
            for r in 0..4
                invariant
                    c < 4,
                    key@ == round_key.bytes(),
                    target == add_round_key(grid(old(self).msg), round_key.bytes()),
                    forall|rr: int, cc: int|
                        0 <= rr < 4 && 0 <= cc < 4 && (cc < c || (cc == c && rr < r))
                            ==> #[trigger] self.msg@[rr]@[cc] == target[rr][cc],
                    forall|rr: int, cc: int|
                        0 <= rr < 4 && 0 <= cc < 4 && (cc > c || (cc == c && rr >= r))
                            ==> #[trigger] self.msg@[rr]@[cc] == old(self).msg@[rr]@[cc],
            {
                let ele = key[r + 4 * c];
                self.msg[r][c] = self.msg[r][c] ^ ele;
            }
        }
        assert(grid(self.msg) =~~= target);
    }

    /// SubBytes for `ENCRYPT`, its inverse for any other mode.
    pub fn sub_s_box(&mut self, mode: usize)
        ensures
            final(self).cells() == if mode == ENCRYPT {
                sub_bytes(old(self).cells())
            } else {
                inv_sub_bytes(old(self).cells())
            },
    {
        let ghost target = if mode == ENCRYPT {
            sub_bytes(grid(self.msg))
        } else {
            inv_sub_bytes(grid(self.msg))
        };
        for i in 0..4
            invariant
                target == if mode == ENCRYPT {
                    sub_bytes(grid(old(self).msg))
                } else {
                    inv_sub_bytes(grid(old(self).msg))
                },
                forall|r: int, c: int| 0 <= r < i && 0 <= c < 4 ==> #[trigger] self.msg@[r]@[c] == target[r][c],
                forall|r: int| i <= r < 4 ==> #[trigger] self.msg@[r] == old(self).msg@[r],
        {
            let mut row = self.msg[i];
            for j in 0..4
                invariant
                    i < 4,
                    target == if mode == ENCRYPT {
                        sub_bytes(grid(old(self).msg))
                    } else {
                        inv_sub_bytes(grid(old(self).msg))
                    },
                    self.msg@[i as int] == old(self).msg@[i as int],
                    forall|c: int| 0 <= c < j ==> #[trigger] row@[c] == target[i as int][c],
                    forall|c: int| j <= c < 4 ==> #[trigger] row@[c] == old(self).msg@[i as int]@[c],
            {
                let item = row[j];
                if mode == ENCRYPT {
                    row[j] = S_BOX[item as usize];
                } else {
                    row[j] = S_BOX_INV[item as usize];
                }
            }
            self.msg[i] = row;
        }
        assert(grid(self.msg) =~~= target);
    }

    pub fn transpose(&mut self)
        ensures
            final(self).cells() == transpose(old(self).cells()),
    {
        let ghost target = transpose(grid(self.msg));
        let mut temp = [[0u8; 4]; 4];
        for i in 0..4
            invariant
                target == transpose(grid(self.msg)),
                forall|r: int, c: int| 0 <= r < 4 && 0 <= c < i ==> #[trigger] temp@[r]@[c] == target[r][c],
        {
            for j in 0..4
                invariant
                    i < 4,
                    target == transpose(grid(self.msg)),
                    forall|r: int, c: int|
                        0 <= r < 4 && 0 <= c < 4 && (c < i || (c == i && r < j)) ==> #[trigger] temp@[r]@[c]
                            == target[r][c],
            {
                temp[j][i] = self.msg[i][j];
            }
        }
        assert(grid(temp) =~~= target);
        self.msg = temp;
    }
}

impl M_row {
    /// The bytes of the matrix, row by row.
    pub fn from(m: M_matrix) -> (r: Self)
        ensures
            r.bytes() == flatten(m.cells()),
    {
        let mut arr = [0u8; 16];
        for i in 0..4
            invariant
                forall|k: int| 0 <= k < 4 * i ==> arr@[k] == m.msg@[k / 4]@[k % 4],
        {
            for j in 0..4
                invariant
                    i < 4,
                    forall|k: int| 0 <= k < 4 * (i as int) + (j as int) ==> arr@[k] == m.msg@[k / 4]@[k % 4],
            {
                arr[4 * i + j] = m.msg[i][j];
            }
        }
        assert(arr@ =~= flatten(grid(m.msg)));
        M_row::new(arr)
    }
}

impl M_matrix {
    /// The matrix filled column by column with the bytes of the block.
    pub fn from(m: M_row) -> (r: Self)
        ensures
            r.cells() == from_block(m.bytes()),
    {
        let mut arr = [[0u8; 4]; 4];
        for i in 0..4
            invariant
                forall|r: int, c: int| 0 <= r < i && 0 <= c < 4 ==> #[trigger] arr@[r]@[c] == m.0@[r + 4 * c],
        {
            let mut row = [0u8; 4];
            for j in 0..4
                invariant
                    i < 4,
                    forall|c: int| 0 <= c < j ==> #[trigger] row@[c] == m.0@[i + 4 * c],
            {
                row[j] = m.0[i + 4 * j];
            }
            arr[i] = row;
        }
        assert(grid(arr) =~~= from_block(m.0@));
        M_matrix::new_with_u8(&arr)
    }
}


impl std::ops::Add for M_matrix {
    type Output = M_matrix;

    /// The cell-wise sum.
    fn add(self, rhs: M_matrix) -> (m: M_matrix) {
        let m = M_matrix::add(&self, &rhs);
        proof {
            M_matrix::lemma_of_cells(m);
        }
        m
    }
}

impl vstd::std_specs::ops::AddSpecImpl for M_matrix {
    open spec fn obeys_add_spec() -> bool {
        true
    }

    /// No cell's sum passes 255: the sum is taken in bytes, without wrapping.
    open spec fn add_req(self, rhs: M_matrix) -> bool {
        forall|r: int, c: int|
            0 <= r < 4 && 0 <= c < 4 ==> #[trigger] self.cells()[r][c] + rhs.cells()[r][c] <= 255
    }

    open spec fn add_spec(self, rhs: M_matrix) -> M_matrix {
        M_matrix::of_cells(state_of(|r: int, c: int| (self.cells()[r][c] + rhs.cells()[r][c]) as u8))
    }
}

impl std::ops::Sub for M_matrix {
    type Output = M_matrix;

    /// The cell-wise difference.
    fn sub(self, rhs: M_matrix) -> (m: M_matrix) {
        let m = M_matrix::sub(&self, &rhs);
        proof {
            M_matrix::lemma_of_cells(m);
        }
        m
    }
}

impl vstd::std_specs::ops::SubSpecImpl for M_matrix {
    open spec fn obeys_sub_spec() -> bool {
        true
    }

    /// No cell of `rhs` is above that of `self`: the difference is taken in
    /// bytes, without wrapping.
    open spec fn sub_req(self, rhs: M_matrix) -> bool {
        forall|r: int, c: int|
            0 <= r < 4 && 0 <= c < 4 ==> #[trigger] self.cells()[r][c] >= rhs.cells()[r][c]
    }

    open spec fn sub_spec(self, rhs: M_matrix) -> M_matrix {
        M_matrix::of_cells(state_of(|r: int, c: int| (self.cells()[r][c] - rhs.cells()[r][c]) as u8))
    }
}

impl std::ops::Mul for M_matrix {
    type Output = M_matrix;

    /// The product over GF(2^8).
    fn mul(self, rhs: M_matrix) -> (m: M_matrix) {
        let m = self.multiply(&rhs);
        proof {
            M_matrix::lemma_of_cells(m);
        }
        m
    }
}

impl vstd::std_specs::ops::MulSpecImpl for M_matrix {
    open spec fn obeys_mul_spec() -> bool {
        true
    }

    open spec fn mul_req(self, rhs: M_matrix) -> bool {
        true
    }

    open spec fn mul_spec(self, rhs: M_matrix) -> M_matrix {
        M_matrix::of_cells(mat_product(self.cells(), rhs.cells()))
    }
}


impl From<M_matrix> for M_row {
    /// The state read column by column.
    fn from(m: M_matrix) -> (r: M_row) {
        let r = M_row::from(m);
        proof {
            M_row::lemma_of_bytes(r);
        }
        r
    }
}

impl vstd::std_specs::convert::FromSpecImpl<M_matrix> for M_row {
    open spec fn obeys_from_spec() -> bool {
        true
    }

    open spec fn from_spec(m: M_matrix) -> M_row {
        M_row::of_bytes(flatten(m.cells()))
    }
}

impl From<M_row> for M_matrix {
    /// The bytes laid out as a state, column by column.
    fn from(m: M_row) -> (r: M_matrix) {
        let r = M_matrix::from(m);
        proof {
            M_matrix::lemma_of_cells(r);
        }
        r
    }
}

impl vstd::std_specs::convert::FromSpecImpl<M_row> for M_matrix {
    open spec fn obeys_from_spec() -> bool {
        true
    }

    open spec fn from_spec(m: M_row) -> M_matrix {
        M_matrix::of_cells(from_block(m.bytes()))
    }
}


/// The identity matrix.
pub open spec fn identity_cells() -> Seq<Seq<u8>> {
    state_of(|r: int, c: int| if r == c { 1u8 } else { 0u8 })
}

/// The identity matrix is neutral for the product over GF(2^8), on either
/// side: `I * m == m` and `m * I == m`.
pub proof fn lemma_identity_product(m: M_matrix)
    ensures
        mat_product(identity_cells(), m.cells()) == m.cells(),
        mat_product(m.cells(), identity_cells()) == m.cells(),
{
    let x = m.cells();
    let id = identity_cells();
    let l = mat_product(id, x);
    let r = mat_product(x, id);
    assert forall|i: int, k: int| 0 <= i < 4 && 0 <= k < 4 implies l[i][k] == x[i][k] && r[i][k]
        == x[i][k] by {
        lemma_gf_mul_unit_zero(x[0][k]);
        lemma_gf_mul_unit_zero(x[1][k]);
        lemma_gf_mul_unit_zero(x[2][k]);
        lemma_gf_mul_unit_zero(x[3][k]);
        lemma_gf_mul_unit_zero(x[i][0]);
        lemma_gf_mul_unit_zero(x[i][1]);
        lemma_gf_mul_unit_zero(x[i][2]);
        lemma_gf_mul_unit_zero(x[i][3]);
        lemma_xor_unit(x[i][k]);
    }
    assert forall|i: int| 0 <= i < 4 implies #[trigger] l[i] =~= x[i] && r[i] =~= x[i] by {
        assert forall|k: int| 0 <= k < 4 implies l[i][k] == x[i][k] && r[i][k] == x[i][k] by {}
    }
    assert(l =~= x);
    assert(r =~= x);
}

} // verus!
