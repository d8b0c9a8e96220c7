//! Session crypto primitives: AES-128 block encryption, the CMAC message
//! authentication code built on it, and counter-mode keystream
//! encryption. Everything here is a pure function of its inputs; the
//! secure-channel engine composes these into key derivation, handshake
//! proof values and per-packet protection.

use vstd::prelude::*;

verus! {

/// Doubling in GF(2^8) modulo the AES polynomial.
pub open spec fn spec_xtime(a: u8) -> u8 {
    ((a << 1) ^ (if a & 0x80 != 0 {
        0x1bu8
    } else {
        0u8
    }))
}

/// GF(2^8) product accumulated over `n` remaining bits of `b`.
pub open spec fn spec_gf_mul_rec(a: u8, b: u8, n: nat) -> u8
    decreases n,
{
    if n == 0 {
        0u8
    } else {
        ((if b & 1 != 0 {
            a
        } else {
            0u8
        }) ^ spec_gf_mul_rec(spec_xtime(a), b >> 1, (n - 1) as nat))
    }
}

/// The GF(2^8) product of two bytes.
pub open spec fn spec_gf_mul(a: u8, b: u8) -> u8 {
    spec_gf_mul_rec(a, b, 8)
}

/// The GF(2^8) multiplicative inverse (as x^254; 0 maps to 0).
pub open spec fn spec_gf_inv(a: u8) -> u8 {
    let a2 = spec_gf_mul(a, a);
    let a4 = spec_gf_mul(a2, a2);
    let a8 = spec_gf_mul(a4, a4);
    let a16 = spec_gf_mul(a8, a8);
    let a32 = spec_gf_mul(a16, a16);
    let a64 = spec_gf_mul(a32, a32);
    let a128 = spec_gf_mul(a64, a64);
    spec_gf_mul(a2, spec_gf_mul(a4, spec_gf_mul(a8, spec_gf_mul(a16, spec_gf_mul(a32, spec_gf_mul(
        a64, a128))))))
}

/// The AES S-box: the affine transform of the field inverse.
#[verifier::opaque]
pub open spec fn spec_sbox(a: u8) -> u8 {
    let b = spec_gf_inv(a);
    let r1 = ((b << 1) | (b >> 7));
    let r2 = ((b << 2) | (b >> 6));
    let r3 = ((b << 3) | (b >> 5));
    let r4 = ((b << 4) | (b >> 4));
    (b ^ r1 ^ r2 ^ r3 ^ r4 ^ 0x63)
}

fn xtime(a: u8) -> (r: u8)
    ensures
        r == spec_xtime(a),
{
    (a << 1) ^ (if a & 0x80 != 0 {
        0x1bu8
    } else {
        0u8
    })
}

proof fn lemma_xor_assoc(x: u8, y: u8, z: u8)
    ensures
        (x ^ y) ^ z == x ^ (y ^ z),
        x ^ 0 == x,
{
    assert((x ^ y) ^ z == x ^ (y ^ z) && x ^ 0 == x) by (bit_vector);
}

fn gf_mul(a0: u8, b0: u8) -> (r: u8)
    ensures
        r == spec_gf_mul(a0, b0),
{
    let mut acc: u8 = 0;
    let mut a = a0;
    let mut b = b0;
    let mut k: usize = 0;
    proof {
        lemma_xor_assoc(spec_gf_mul(a0, b0), 0, 0);
        assert(0u8 ^ spec_gf_mul_rec(a0, b0, 8) == spec_gf_mul_rec(a0, b0, 8)) by (bit_vector);
    }
    while k < 8
        invariant
            k <= 8,
            spec_gf_mul(a0, b0) == acc ^ spec_gf_mul_rec(a, b, (8 - k) as nat),
        decreases 8 - k,
    {
        let ghost t: u8 = if b & 1 != 0 {
            a
        } else {
            0u8
        };
        let ghost rest = spec_gf_mul_rec(spec_xtime(a), b >> 1, (8 - k - 1) as nat);
        proof {
            assert(spec_gf_mul_rec(a, b, (8 - k) as nat) == t ^ rest);
            lemma_xor_assoc(acc, t, rest);
        }
        if b & 1 != 0 {
            acc = acc ^ a;
        } else {
            proof {
                assert(acc ^ 0 == acc) by (bit_vector);
            }
        }
        a = xtime(a);
        b = b >> 1;
        k = k + 1;
    }
    proof {
        assert(acc ^ spec_gf_mul_rec(a, b, 0) == acc ^ 0);
        assert(acc ^ 0 == acc) by (bit_vector);
    }
    acc
}

fn gf_inv(a: u8) -> (r: u8)
    ensures
        r == spec_gf_inv(a),
{
    let a2 = gf_mul(a, a);
    let a4 = gf_mul(a2, a2);
    let a8 = gf_mul(a4, a4);
    let a16 = gf_mul(a8, a8);
    let a32 = gf_mul(a16, a16);
    let a64 = gf_mul(a32, a32);
    let a128 = gf_mul(a64, a64);
    gf_mul(a2, gf_mul(a4, gf_mul(a8, gf_mul(a16, gf_mul(a32, gf_mul(a64, a128))))))
}

fn sbox(a: u8) -> (r: u8)
    ensures
        r == spec_sbox(a),
{
    proof {
        reveal(spec_sbox);
    }
    let b = gf_inv(a);
    let r1 = (b << 1) | (b >> 7);
    let r2 = (b << 2) | (b >> 6);
    let r3 = (b << 3) | (b >> 5);
    let r4 = (b << 4) | (b >> 4);
    b ^ r1 ^ r2 ^ r3 ^ r4 ^ 0x63
}

/// A table of every S-box value, computed once and then indexed, so the
/// field inversion runs 256 times per table rather than once per state
/// byte.
fn sbox_table() -> (t: Vec<u8>)
    ensures
        t@.len() == 256,
        forall|i: int| 0 <= i < 256 ==> t@[i] == spec_sbox(i as u8),
{
    let mut t: Vec<u8> = Vec::new();
    let mut i: usize = 0;
    while i < 256
        invariant
            i <= 256,
            t@.len() == i,
            forall|j: int| 0 <= j < i ==> t@[j] == spec_sbox(j as u8),
        decreases 256 - i,
    {
        t.push(sbox(i as u8));
        i = i + 1;
    }
    t
}

/// Look an S-box value up.
fn sbox_look(t: &Vec<u8>, b: u8) -> (r: u8)
    requires
        t@.len() == 256,
        forall|i: int| 0 <= i < 256 ==> t@[i] == spec_sbox(i as u8),
    ensures
        r == spec_sbox(b),
{
    t[b as usize]
}

/// A zero multiplier contributes nothing, however many bits remain.
proof fn lemma_gf_mul_zero(c: u8, n: nat)
    ensures
        spec_gf_mul_rec(c, 0, n) == 0,
    decreases n,
{
    if n > 0 {
        lemma_gf_mul_zero(spec_xtime(c), (n - 1) as nat);
        assert(0u8 & 1 == 0 && 0u8 >> 1 == 0 && (0u8 ^ 0u8) == 0u8) by (bit_vector);
    }
}

/// Multiplying by two is one doubling; by three, a doubling and an
/// addition.
proof fn lemma_gf_mul_small(a: u8)
    ensures
        spec_gf_mul(a, 2) == spec_xtime(a),
        spec_gf_mul(a, 3) == (spec_xtime(a) ^ a),
{
    let x = spec_xtime(a);
    let xx = spec_xtime(x);
    assert(2u8 & 1 == 0 && 2u8 >> 1 == 1 && 1u8 & 1 == 1 && 1u8 >> 1 == 0 && 3u8 & 1 == 1 && 3u8
        >> 1 == 1) by (bit_vector);
    lemma_gf_mul_zero(xx, 6);
    assert(spec_gf_mul_rec(x, 1, 7) == (x ^ spec_gf_mul_rec(xx, 0, 6)));
    assert(spec_gf_mul_rec(a, 2, 8) == (0 ^ spec_gf_mul_rec(x, 1, 7)));
    assert(spec_gf_mul_rec(a, 3, 8) == (a ^ spec_gf_mul_rec(x, 1, 7)));
    assert((0u8 ^ (x ^ 0u8)) == x && (a ^ (x ^ 0u8)) == (x ^ a)) by (bit_vector);
}

/// The AES round constant for round `j`.
pub open spec fn spec_rcon(j: int) -> u8 {
    if j == 1 {
        1u8
    } else if j == 2 {
        2u8
    } else if j == 3 {
        4u8
    } else if j == 4 {
        8u8
    } else if j == 5 {
        0x10u8
    } else if j == 6 {
        0x20u8
    } else if j == 7 {
        0x40u8
    } else if j == 8 {
        0x80u8
    } else if j == 9 {
        0x1bu8
    } else if j == 10 {
        0x36u8
    } else {
        0u8
    }
}

fn rcon(j: usize) -> (r: u8)
    ensures
        r == spec_rcon(j as int),
{
    match j {
        1 => 1,
        2 => 2,
        3 => 4,
        4 => 8,
        5 => 0x10,
        6 => 0x20,
        7 => 0x40,
        8 => 0x80,
        9 => 0x1b,
        10 => 0x36,
        _ => 0,
    }
}

/// Component-wise xor of two 4-byte words.
pub open spec fn spec_xor4(a: Seq<u8>, b: Seq<u8>) -> Seq<u8> {
    seq![(a[0] ^ b[0]), (a[1] ^ b[1]), (a[2] ^ b[2]), (a[3] ^ b[3])]
}

/// Word `w` of the AES-128 key schedule.
pub open spec fn spec_ks_word(key: Seq<u8>, w: int) -> Seq<u8>
    decreases w,
{
    if w < 4 {
        key.subrange(4 * w, 4 * w + 4)
    } else if w % 4 == 0 {
        let prev = spec_ks_word(key, w - 1);
        let back = spec_ks_word(key, w - 4);
        let t = seq![
            (spec_sbox(prev[1]) ^ spec_rcon(w / 4)),
            spec_sbox(prev[2]),
            spec_sbox(prev[3]),
            spec_sbox(prev[0]),
        ];
        spec_xor4(back, t)
    } else {
        spec_xor4(spec_ks_word(key, w - 4), spec_ks_word(key, w - 1))
    }
}

/// Round key `r` of the AES-128 key schedule.
pub open spec fn spec_round_key(key: Seq<u8>, r: int) -> Seq<u8> {
    spec_ks_word(key, 4 * r) + spec_ks_word(key, 4 * r + 1) + spec_ks_word(key, 4 * r + 2)
        + spec_ks_word(key, 4 * r + 3)
}

/// SubBytes: the S-box applied to every state byte.
pub open spec fn spec_sub_bytes(s: Seq<u8>) -> Seq<u8> {
    Seq::new(16, |i: int| spec_sbox(s[i]))
}

/// The source index ShiftRows moves to position `i` (column-major state).
pub open spec fn spec_shift_src(i: int) -> int {
    (i % 4) + 4 * ((i / 4 + i % 4) % 4)
}

/// ShiftRows: each row of the state rotated left by its index.
pub open spec fn spec_shift_rows(s: Seq<u8>) -> Seq<u8> {
    Seq::new(16, |i: int| s[spec_shift_src(i)])
}

/// One output byte of MixColumns for column `c`, row `r`.
pub open spec fn spec_mix_one(s: Seq<u8>, c: int, r: int) -> u8 {
    let a0 = s[4 * c];
    let a1 = s[4 * c + 1];
    let a2 = s[4 * c + 2];
    let a3 = s[4 * c + 3];
    if r == 0 {
        (spec_gf_mul(a0, 2) ^ spec_gf_mul(a1, 3) ^ a2 ^ a3)
    } else if r == 1 {
        (a0 ^ spec_gf_mul(a1, 2) ^ spec_gf_mul(a2, 3) ^ a3)
    } else if r == 2 {
        (a0 ^ a1 ^ spec_gf_mul(a2, 2) ^ spec_gf_mul(a3, 3))
    } else {
        (spec_gf_mul(a0, 3) ^ a1 ^ a2 ^ spec_gf_mul(a3, 2))
    }
}

/// MixColumns over the whole state.
pub open spec fn spec_mix_columns(s: Seq<u8>) -> Seq<u8> {
    Seq::new(16, |i: int| spec_mix_one(s, i / 4, i % 4))
}

/// AddRoundKey: state xor round key.
pub open spec fn spec_xor16(a: Seq<u8>, b: Seq<u8>) -> Seq<u8> {
    Seq::new(16, |i: int| (a[i] ^ b[i]))
}

/// The AES-128 state after `r` rounds of encrypting `block` under `key`.
pub open spec fn spec_aes_state(key: Seq<u8>, block: Seq<u8>, r: int) -> Seq<u8>
    decreases r,
{
    if r <= 0 {
        spec_xor16(block, spec_round_key(key, 0))
    } else if r <= 9 {
        spec_xor16(
            spec_mix_columns(spec_shift_rows(spec_sub_bytes(spec_aes_state(key, block, r - 1)))),
            spec_round_key(key, r),
        )
    } else {
        spec_xor16(
            spec_shift_rows(spec_sub_bytes(spec_aes_state(key, block, 9))),
            spec_round_key(key, 10),
        )
    }
}

/// AES-128 encryption of one 16-byte block.
pub open spec fn spec_aes128(key: Seq<u8>, block: Seq<u8>) -> Seq<u8> {
    spec_aes_state(key, block, 10)
}

/// Expand an AES-128 key into its 176-byte schedule.
#[verifier::rlimit(100)]
fn expand_key(key: &Vec<u8>, t: &Vec<u8>) -> (xk: Vec<u8>)
    requires
        key@.len() == 16,
        t@.len() == 256,
        forall|i: int| 0 <= i < 256 ==> t@[i] == spec_sbox(i as u8),
    ensures
        xk@.len() == 176,
        forall|w: int| 0 <= w < 44 ==> #[trigger] xk@.subrange(4 * w, 4 * w + 4) == spec_ks_word(
            key@,
            w,
        ),
{
    let mut xk: Vec<u8> = Vec::new();
    let mut w: usize = 0;
    while w < 44
        invariant
            w <= 44,
            key@.len() == 16,
            t@.len() == 256,
            forall|i: int| 0 <= i < 256 ==> t@[i] == spec_sbox(i as u8),
            xk@.len() == 4 * w,
            forall|ww: int| 0 <= ww < w ==> #[trigger] xk@.subrange(4 * ww, 4 * ww + 4)
                == spec_ks_word(key@, ww),
        decreases 44 - w,
    {
        let ghost prev_xk = xk@;
        let (b0, b1, b2, b3): (u8, u8, u8, u8) = if w < 4 {
            (key[4 * w], key[4 * w + 1], key[4 * w + 2], key[4 * w + 3])
        } else {
            let p0 = xk[4 * (w - 1)];
            let p1 = xk[4 * (w - 1) + 1];
            let p2 = xk[4 * (w - 1) + 2];
            let p3 = xk[4 * (w - 1) + 3];
            let k0 = xk[4 * (w - 4)];
            let k1 = xk[4 * (w - 4) + 1];
            let k2 = xk[4 * (w - 4) + 2];
            let k3 = xk[4 * (w - 4) + 3];
            proof {
                assert(prev_xk.subrange(4 * (w - 1) as int, 4 * (w - 1) as int + 4)
                    == spec_ks_word(key@, w - 1));
                assert(prev_xk.subrange(4 * (w - 4) as int, 4 * (w - 4) as int + 4)
                    == spec_ks_word(key@, w - 4));
                assert(spec_ks_word(key@, w - 1)[0] == prev_xk[4 * (w - 1) as int]);
                assert(spec_ks_word(key@, w - 1)[1] == prev_xk[4 * (w - 1) as int + 1]);
                assert(spec_ks_word(key@, w - 1)[2] == prev_xk[4 * (w - 1) as int + 2]);
                assert(spec_ks_word(key@, w - 1)[3] == prev_xk[4 * (w - 1) as int + 3]);
                assert(spec_ks_word(key@, w - 4)[0] == prev_xk[4 * (w - 4) as int]);
                assert(spec_ks_word(key@, w - 4)[1] == prev_xk[4 * (w - 4) as int + 1]);
                assert(spec_ks_word(key@, w - 4)[2] == prev_xk[4 * (w - 4) as int + 2]);
                assert(spec_ks_word(key@, w - 4)[3] == prev_xk[4 * (w - 4) as int + 3]);
            }
            if w % 4 == 0 {
                let t0 = sbox_look(t, p1) ^ rcon(w / 4);
                let t1 = sbox_look(t, p2);
                let t2 = sbox_look(t, p3);
                let t3 = sbox_look(t, p0);
                (k0 ^ t0, k1 ^ t1, k2 ^ t2, k3 ^ t3)
            } else {
                (k0 ^ p0, k1 ^ p1, k2 ^ p2, k3 ^ p3)
            }
        };
        xk.push(b0);
        xk.push(b1);
        xk.push(b2);
        xk.push(b3);
        proof {
            assert(xk@ =~= prev_xk + seq![b0, b1, b2, b3]);
            assert forall|ww: int| 0 <= ww < w implies #[trigger] xk@.subrange(
                4 * ww,
                4 * ww + 4,
            ) == spec_ks_word(key@, ww) by {
                assert(xk@.subrange(4 * ww, 4 * ww + 4) =~= prev_xk.subrange(4 * ww, 4 * ww + 4));
            }
            assert(xk@.subrange(4 * w as int, 4 * w as int + 4) =~= seq![b0, b1, b2, b3]);
            if w < 4 {
                assert(seq![b0, b1, b2, b3] =~= key@.subrange(4 * w as int, 4 * w as int + 4));
            } else {
                assert(seq![b0, b1, b2, b3] =~= spec_ks_word(key@, w as int));
            }
        }
        w = w + 1;
    }
    xk
}

/// SubBytes on the running state.
fn sub_bytes(st: &Vec<u8>, t: &Vec<u8>) -> (r: Vec<u8>)
    requires
        st@.len() == 16,
        t@.len() == 256,
        forall|i: int| 0 <= i < 256 ==> t@[i] == spec_sbox(i as u8),
    ensures
        r@ =~= spec_sub_bytes(st@),
{
    let mut out: Vec<u8> = Vec::new();
    let mut i: usize = 0;
    while i < 16
        invariant
            i <= 16,
            st@.len() == 16,
            t@.len() == 256,
            forall|ii: int| 0 <= ii < 256 ==> t@[ii] == spec_sbox(ii as u8),
            out@.len() == i,
            forall|j: int| 0 <= j < i ==> out@[j] == spec_sbox(st@[j]),
        decreases 16 - i,
    {
        out.push(sbox_look(t, st[i]));
        i = i + 1;
    }
    out
}

/// ShiftRows on the running state.
fn shift_rows(st: &Vec<u8>) -> (r: Vec<u8>)
    requires
        st@.len() == 16,
    ensures
        r@ =~= spec_shift_rows(st@),
{
    let mut out: Vec<u8> = Vec::new();
    let mut i: usize = 0;
    while i < 16
        invariant
            i <= 16,
            st@.len() == 16,
            out@.len() == i,
            forall|j: int| 0 <= j < i ==> out@[j] == st@[spec_shift_src(j)],
        decreases 16 - i,
    {
        let src = (i % 4) + 4 * ((i / 4 + i % 4) % 4);
        out.push(st[src]);
        i = i + 1;
    }
    out
}

/// MixColumns on the running state.
fn mix_columns(st: &Vec<u8>) -> (r: Vec<u8>)
    requires
        st@.len() == 16,
    ensures
        r@ =~= spec_mix_columns(st@),
{
    let mut out: Vec<u8> = Vec::new();
    let mut i: usize = 0;
    while i < 16
        invariant
            i <= 16,
            st@.len() == 16,
            out@.len() == i,
            forall|j: int| 0 <= j < i ==> out@[j] == spec_mix_one(st@, j / 4, j % 4),
        decreases 16 - i,
    {
        let c = i / 4;
        let r = i % 4;
        let a0 = st[4 * c];
        let a1 = st[4 * c + 1];
        let a2 = st[4 * c + 2];
        let a3 = st[4 * c + 3];
        proof {
            lemma_gf_mul_small(a0);
            lemma_gf_mul_small(a1);
            lemma_gf_mul_small(a2);
            lemma_gf_mul_small(a3);
        }
        let v: u8 = if r == 0 {
            xtime(a0) ^ (xtime(a1) ^ a1) ^ a2 ^ a3
        } else if r == 1 {
            a0 ^ xtime(a1) ^ (xtime(a2) ^ a2) ^ a3
        } else if r == 2 {
            a0 ^ a1 ^ xtime(a2) ^ (xtime(a3) ^ a3)
        } else {
            (xtime(a0) ^ a0) ^ a1 ^ a2 ^ xtime(a3)
        };
        out.push(v);
        i = i + 1;
    }
    out
}

/// AddRoundKey: xor round key `r` of the schedule into the state.
fn add_round_key(st: &Vec<u8>, xk: &Vec<u8>, r: usize, Ghost(key): Ghost<Seq<u8>>) -> (out: Vec<
    u8,
>)
    requires
        st@.len() == 16,
        xk@.len() == 176,
        r <= 10,
        key.len() == 16,
        forall|w: int| 0 <= w < 44 ==> #[trigger] xk@.subrange(4 * w, 4 * w + 4) == spec_ks_word(
            key,
            w,
        ),
    ensures
        out@ =~= spec_xor16(st@, spec_round_key(key, r as int)),
{
    let ghost rk = spec_round_key(key, r as int);
    proof {
        let w0 = 4 * (r as int);
        assert(spec_ks_word(key, w0).len() == 4 && spec_ks_word(key, w0 + 1).len() == 4
            && spec_ks_word(key, w0 + 2).len() == 4 && spec_ks_word(key, w0 + 3).len() == 4);
        assert(xk@.subrange(4 * w0, 4 * w0 + 4) == spec_ks_word(key, w0));
        assert(xk@.subrange(4 * (w0 + 1), 4 * (w0 + 1) + 4) == spec_ks_word(key, w0 + 1));
        assert(xk@.subrange(4 * (w0 + 2), 4 * (w0 + 2) + 4) == spec_ks_word(key, w0 + 2));
        assert(xk@.subrange(4 * (w0 + 3), 4 * (w0 + 3) + 4) == spec_ks_word(key, w0 + 3));
        assert forall|i: int| 0 <= i < 16 implies rk[i] == xk@[16 * (r as int) + i] by {
            if i < 4 {
                assert(rk[i] == spec_ks_word(key, w0)[i]);
                assert(spec_ks_word(key, w0)[i] == xk@.subrange(4 * w0, 4 * w0 + 4)[i]);
            } else if i < 8 {
                assert(rk[i] == spec_ks_word(key, w0 + 1)[i - 4]);
                assert(spec_ks_word(key, w0 + 1)[i - 4] == xk@.subrange(
                    4 * (w0 + 1),
                    4 * (w0 + 1) + 4,
                )[i - 4]);
            } else if i < 12 {
                assert(rk[i] == spec_ks_word(key, w0 + 2)[i - 8]);
                assert(spec_ks_word(key, w0 + 2)[i - 8] == xk@.subrange(
                    4 * (w0 + 2),
                    4 * (w0 + 2) + 4,
                )[i - 8]);
            } else {
                assert(rk[i] == spec_ks_word(key, w0 + 3)[i - 12]);
                assert(spec_ks_word(key, w0 + 3)[i - 12] == xk@.subrange(
                    4 * (w0 + 3),
                    4 * (w0 + 3) + 4,
                )[i - 12]);
            }
        }
    }
    let mut out: Vec<u8> = Vec::new();
    let mut i: usize = 0;
    while i < 16
        invariant
            i <= 16,
            st@.len() == 16,
            xk@.len() == 176,
            r <= 10,
            rk == spec_round_key(key, r as int),
            rk.len() == 16,
            forall|j: int| 0 <= j < 16 ==> rk[j] == xk@[16 * r as int + j],
            out@.len() == i,
            forall|j: int| 0 <= j < i ==> out@[j] == (st@[j] ^ rk[j]),
        decreases 16 - i,
    {
        out.push(st[i] ^ xk[16 * r + i]);
        i = i + 1;
    }
    out
}

/// AES-128: encrypt one block under a prepared S-box table and key
/// schedule.
fn aes_block(xk: &Vec<u8>, t: &Vec<u8>, block: &Vec<u8>, Ghost(key): Ghost<Seq<u8>>) -> (r: Vec<
    u8,
>)
    requires
        key.len() == 16,
        block@.len() == 16,
        xk@.len() == 176,
        forall|w: int| 0 <= w < 44 ==> #[trigger] xk@.subrange(4 * w, 4 * w + 4) == spec_ks_word(
            key,
            w,
        ),
        t@.len() == 256,
        forall|i: int| 0 <= i < 256 ==> t@[i] == spec_sbox(i as u8),
    ensures
        r@ =~= spec_aes128(key, block@),
        r@.len() == 16,
{
    let mut st = add_round_key(block, xk, 0, Ghost(key));
    let mut round: usize = 1;
    while round < 10
        invariant
            1 <= round <= 10,
            key.len() == 16,
            block@.len() == 16,
            xk@.len() == 176,
            forall|w: int| 0 <= w < 44 ==> #[trigger] xk@.subrange(4 * w, 4 * w + 4)
                == spec_ks_word(key, w),
            t@.len() == 256,
            forall|i: int| 0 <= i < 256 ==> t@[i] == spec_sbox(i as u8),
            st@.len() == 16,
            st@ =~= spec_aes_state(key, block@, round - 1),
        decreases 10 - round,
    {
        let s1 = sub_bytes(&st, t);
        let s2 = shift_rows(&s1);
        let s3 = mix_columns(&s2);
        st = add_round_key(&s3, xk, round, Ghost(key));
        round = round + 1;
    }
    let s1 = sub_bytes(&st, t);
    let s2 = shift_rows(&s1);
    let out = add_round_key(&s2, xk, 10, Ghost(key));
    proof {
        assert(out@ =~= spec_aes_state(key, block@, 10));
    }
    out
}

/// AES-128: encrypt one 16-byte block under a 16-byte key.
pub fn aes128_encrypt(key: &Vec<u8>, block: &Vec<u8>) -> (r: Vec<u8>)
    requires
        key@.len() == 16,
        block@.len() == 16,
    ensures
        r@ =~= spec_aes128(key@, block@),
        r@.len() == 16,
{
    let t = sbox_table();
    let xk = expand_key(key, &t);
    aes_block(&xk, &t, block, Ghost(key@))
}

/// The all-zero block.
pub open spec fn spec_zeros16() -> Seq<u8> {
    Seq::new(16, |i: int| 0u8)
}

/// CMAC subkey doubling: shift the 128-bit value left one bit and fold the
/// carry into the low byte with 0x87.
pub open spec fn spec_dbl(b: Seq<u8>) -> Seq<u8> {
    let sh = Seq::new(
        16,
        |i: int|
            if i < 15 {
                ((b[i] << 1) | (b[i + 1] >> 7))
            } else {
                (b[i] << 1)
            },
    );
    if b[0] & 0x80 != 0 {
        sh.update(15, (sh[15] ^ 0x87))
    } else {
        sh
    }
}

fn dbl(b: &Vec<u8>) -> (r: Vec<u8>)
    requires
        b@.len() == 16,
    ensures
        r@ =~= spec_dbl(b@),
{
    let mut sh: Vec<u8> = Vec::new();
    let mut i: usize = 0;
    while i < 16
        invariant
            i <= 16,
            b@.len() == 16,
            sh@.len() == i,
            forall|j: int|
                0 <= j < i ==> sh@[j] == (if j < 15 {
                    ((b@[j] << 1) | (b@[j + 1] >> 7))
                } else {
                    (b@[j] << 1)
                }),
        decreases 16 - i,
    {
        let v: u8 = if i < 15 {
            (b[i] << 1) | (b[i + 1] >> 7)
        } else {
            b[i] << 1
        };
        sh.push(v);
        i = i + 1;
    }
    if b[0] & 0x80 != 0 {
        let x = sh[15] ^ 0x87;
        sh[15] = x;
    }
    sh
}

/// The number of CMAC blocks a message occupies (an empty message still
/// occupies one padded block).
pub open spec fn spec_num_blocks(len: int) -> int {
    if len <= 0 {
        1
    } else {
        (len + 15) / 16
    }
}

/// The final, subkey-masked CMAC block of a message.
pub open spec fn spec_last_block(key: Seq<u8>, data: Seq<u8>) -> Seq<u8> {
    let n = spec_num_blocks(data.len() as int);
    let k1 = spec_dbl(spec_aes128(key, spec_zeros16()));
    let k2 = spec_dbl(k1);
    if data.len() > 0 && data.len() % 16 == 0 {
        spec_xor16(data.subrange(16 * (n - 1), data.len() as int), k1)
    } else {
        let part = data.subrange(16 * (n - 1), data.len() as int);
        let padded = part + seq![0x80u8] + Seq::new((16 - part.len() - 1) as nat, |i: int| 0u8);
        spec_xor16(padded, k2)
    }
}

/// The CBC chaining state after the first `i` full blocks of a message.
pub open spec fn spec_cbc_state(key: Seq<u8>, data: Seq<u8>, i: int) -> Seq<u8>
    decreases i,
{
    if i <= 0 {
        spec_zeros16()
    } else {
        spec_aes128(key, spec_xor16(spec_cbc_state(key, data, i - 1), data.subrange(
            16 * (i - 1),
            16 * i,
        )))
    }
}

/// The AES-CMAC of a message.
pub open spec fn spec_cmac(key: Seq<u8>, data: Seq<u8>) -> Seq<u8> {
    let n = spec_num_blocks(data.len() as int);
    spec_aes128(key, spec_xor16(spec_cbc_state(key, data, n - 1), spec_last_block(key, data)))
}

/// The 4-byte truncation of the CMAC, as carried on the wire.
pub open spec fn spec_mac4(key: Seq<u8>, data: Seq<u8>) -> Seq<u8> {
    spec_cmac(key, data).subrange(0, 4)
}

fn xor16(a: &Vec<u8>, b: &Vec<u8>) -> (r: Vec<u8>)
    requires
        a@.len() == 16,
        b@.len() == 16,
    ensures
        r@ =~= spec_xor16(a@, b@),
{
    let mut out: Vec<u8> = Vec::new();
    let mut i: usize = 0;
    while i < 16
        invariant
            i <= 16,
            a@.len() == 16,
            b@.len() == 16,
            out@.len() == i,
            forall|j: int| 0 <= j < i ==> out@[j] == (a@[j] ^ b@[j]),
        decreases 16 - i,
    {
        out.push(a[i] ^ b[i]);
        i = i + 1;
    }
    out
}

fn zeros16() -> (r: Vec<u8>)
    ensures
        r@ =~= spec_zeros16(),
{
    let mut out: Vec<u8> = Vec::new();
    let mut i: usize = 0;
    while i < 16
        invariant
            i <= 16,
            out@.len() == i,
            forall|j: int| 0 <= j < i ==> out@[j] == 0u8,
        decreases 16 - i,
    {
        out.push(0);
        i = i + 1;
    }
    out
}

/// Compute the AES-CMAC of a message.
pub fn cmac(key: &Vec<u8>, data: &[u8]) -> (r: Vec<u8>)
    requires
        key@.len() == 16,
        data@.len() < 0x10000000,
    ensures
        r@ =~= spec_cmac(key@, data@),
        r@.len() == 16,
{
    let t = sbox_table();
    let xk = expand_key(key, &t);
    let z = zeros16();
    let l = aes_block(&xk, &t, &z, Ghost(key@));
    let k1 = dbl(&l);
    let k2 = dbl(&k1);
    let n: usize = if data.len() == 0 {
        1
    } else {
        (data.len() + 15) / 16
    };
    proof {
        let l = data@.len() as int;
        if l > 0 {
            assert((l + 15) / 16 >= 1 && 16 * ((l + 15) / 16 - 1) <= l && l - 16 * ((l + 15) / 16
                - 1) <= 16 && (l % 16 != 0 ==> l - 16 * ((l + 15) / 16 - 1) < 16))
                by (nonlinear_arith)
                requires
                    l > 0,
            ;
        }
        assert(n as int == spec_num_blocks(data@.len() as int));
        assert(16 * (n as int - 1) <= data@.len());
        assert(data@.len() - 16 * (n as int - 1) <= 16);
        assert(data@.len() % 16 != 0 || data@.len() == 0 ==> data@.len() - 16 * (n as int - 1)
            < 16);
    }
    let mut state = zeros16();
    let mut i: usize = 0;
    while i + 1 < n
        invariant
            key@.len() == 16,
            data@.len() < 0x10000000,
            n as int == spec_num_blocks(data@.len() as int),
            16 * (n - 1) <= data@.len(),
            i <= n - 1,
            state@.len() == 16,
            state@ =~= spec_cbc_state(key@, data@, i as int),
            t@.len() == 256,
            forall|ii: int| 0 <= ii < 256 ==> t@[ii] == spec_sbox(ii as u8),
            xk@.len() == 176,
            forall|w: int| 0 <= w < 44 ==> #[trigger] xk@.subrange(4 * w, 4 * w + 4)
                == spec_ks_word(key@, w),
        decreases n - i,
    {
        let mut blk: Vec<u8> = Vec::new();
        let mut j: usize = 0;
        while j < 16
            invariant
                i + 1 < n,
                data@.len() < 0x10000000,
                16 * (n - 1) <= data@.len(),
                j <= 16,
                blk@.len() == j,
                forall|jj: int| 0 <= jj < j ==> blk@[jj] == data@[16 * i as int + jj],
            decreases 16 - j,
        {
            blk.push(data[16 * i + j]);
            j = j + 1;
        }
        proof {
            assert(blk@ =~= data@.subrange(16 * i as int, 16 * i as int + 16));
        }
        let x = xor16(&state, &blk);
        state = aes_block(&xk, &t, &x, Ghost(key@));
        i = i + 1;
    }
    // Assemble the final block.
    let last_start: usize = 16 * (n - 1);
    let mut last: Vec<u8> = Vec::new();
    let mut j: usize = last_start;
    while j < data.len()
        invariant
            last_start <= j <= data@.len(),
            data@.len() - last_start <= 16,
            last@.len() == j - last_start,
            forall|jj: int| 0 <= jj < j - last_start ==> last@[jj] == data@[last_start as int + jj],
        decreases data@.len() - j,
    {
        last.push(data[j]);
        j = j + 1;
    }
    proof {
        assert(last@ =~= data@.subrange(last_start as int, data@.len() as int));
    }
    let masked: Vec<u8>;
    if data.len() > 0 && data.len() % 16 == 0 {
        masked = xor16(&last, &k1);
    } else {
        let ghost part = last@;
        let mut padded = last;
        padded.push(0x80);
        proof {
            assert(part.len() < 16);
        }
        while padded.len() < 16
            invariant
                part.len() < 16,
                part.len() + 1 <= padded@.len() <= 16,
                padded@.subrange(0, part.len() as int + 1) =~= part + seq![0x80u8],
                forall|j: int| part.len() + 1 <= j < padded@.len() ==> padded@[j] == 0u8,
            decreases 16 - padded@.len(),
        {
            padded.push(0);
            proof {
                assert(padded@.subrange(0, part.len() as int + 1) =~= part + seq![0x80u8]);
            }
        }
        proof {
            assert(padded@ =~= part + seq![0x80u8] + Seq::new(
                (16 - part.len() - 1) as nat,
                |i: int| 0u8,
            ));
        }
        masked = xor16(&padded, &k2);
    }
    let x = xor16(&state, &masked);
    aes_block(&xk, &t, &x, Ghost(key@))
}

/// Compute the truncated 4-byte CMAC carried on the wire.
pub fn mac4(key: &Vec<u8>, data: &[u8]) -> (r: Vec<u8>)
    requires
        key@.len() == 16,
        data@.len() < 0x10000000,
    ensures
        r@ =~= spec_mac4(key@, data@),
        r@.len() == 4,
{
    let m = cmac(key, data);
    let mut out: Vec<u8> = Vec::new();
    out.push(m[0]);
    out.push(m[1]);
    out.push(m[2]);
    out.push(m[3]);
    proof {
        assert(out@ =~= spec_cmac(key@, data@).subrange(0, 4));
    }
    out
}

/// The big-endian bytes of a 32-bit value.
pub open spec fn spec_be32(x: u32) -> Seq<u8> {
    seq![((x >> 24) as u8), ((x >> 16) as u8), ((x >> 8) as u8), (x as u8)]
}

/// Counter block `j` of a session keystream: the session nonce, the
/// per-message counter and the block index.
pub open spec fn spec_ctr_block(nonce: Seq<u8>, counter: u32, j: int) -> Seq<u8> {
    nonce + spec_be32(counter) + spec_be32(j as u32)
}

/// Byte `j` of the keystream for a message.
pub open spec fn spec_keystream_byte(key: Seq<u8>, nonce: Seq<u8>, counter: u32, j: int) -> u8 {
    spec_aes128(key, spec_ctr_block(nonce, counter, j / 16))[j % 16]
}

/// Counter-mode encryption (and decryption: the operation is its own
/// inverse) of a message under a session key, nonce and message counter.
pub open spec fn spec_ctr_xor(key: Seq<u8>, nonce: Seq<u8>, counter: u32, data: Seq<u8>) -> Seq<
    u8,
> {
    Seq::new(data.len(), |j: int| (data[j] ^ spec_keystream_byte(key, nonce, counter, j)))
}

pub(crate) fn be32(x: u32) -> (r: Vec<u8>)
    ensures
        r@ =~= spec_be32(x),
{
    let mut out: Vec<u8> = Vec::new();
    out.push((x >> 24) as u8);
    out.push((x >> 16) as u8);
    out.push((x >> 8) as u8);
    out.push(x as u8);
    out
}

/// Counter-mode transform of a message. Applying it twice with the same
/// key, nonce and counter restores the message.
pub fn ctr_xor(key: &Vec<u8>, nonce: &Vec<u8>, counter: u32, data: &[u8]) -> (r: Vec<u8>)
    requires
        key@.len() == 16,
        nonce@.len() == 8,
        data@.len() < 0x10000000,
    ensures
        r@ =~= spec_ctr_xor(key@, nonce@, counter, data@),
{
    let t = sbox_table();
    let xk = expand_key(key, &t);
    let mut out: Vec<u8> = Vec::new();
    let mut bi: usize = 0;
    while 16 * bi < data.len()
        invariant
            key@.len() == 16,
            nonce@.len() == 8,
            data@.len() < 0x10000000,
            bi <= data@.len(),
            t@.len() == 256,
            forall|ii: int| 0 <= ii < 256 ==> t@[ii] == spec_sbox(ii as u8),
            xk@.len() == 176,
            forall|w: int| 0 <= w < 44 ==> #[trigger] xk@.subrange(4 * w, 4 * w + 4)
                == spec_ks_word(key@, w),
            out@.len() == if 16 * bi <= data@.len() {
                16 * bi
            } else {
                data@.len() as int
            },
            forall|j: int| 0 <= j < out@.len() ==> out@[j] == (data@[j] ^ spec_keystream_byte(
                key@,
                nonce@,
                counter,
                j,
            )),
        decreases data@.len() + 16 - 16 * bi,
    {
        let mut block: Vec<u8> = Vec::new();
        let mut ni: usize = 0;
        while ni < 8
            invariant
                ni <= 8,
                nonce@.len() == 8,
                block@.len() == ni,
                forall|j: int| 0 <= j < ni ==> block@[j] == nonce@[j],
            decreases 8 - ni,
        {
            block.push(nonce[ni]);
            ni = ni + 1;
        }
        let cb = be32(counter);
        block.push(cb[0]);
        block.push(cb[1]);
        block.push(cb[2]);
        block.push(cb[3]);
        let jb = be32(bi as u32);
        block.push(jb[0]);
        block.push(jb[1]);
        block.push(jb[2]);
        block.push(jb[3]);
        proof {
            assert(block@ =~= spec_ctr_block(nonce@, counter, bi as int));
        }
        let ks = aes_block(&xk, &t, &block, Ghost(key@));
        let mut k: usize = 0;
        while k < 16 && 16 * bi + k < data.len()
            invariant
                key@.len() == 16,
                nonce@.len() == 8,
                data@.len() < 0x10000000,
                k <= 16,
                16 * bi < data@.len(),
                16 * bi + k <= data@.len() || k == 0,
                ks@ =~= spec_aes128(key@, spec_ctr_block(nonce@, counter, bi as int)),
                ks@.len() == 16,
                out@.len() == if 16 * bi + k <= data@.len() {
                    16 * bi + k
                } else {
                    data@.len() as int
                },
                forall|j: int| 0 <= j < out@.len() ==> out@[j] == (data@[j] ^ spec_keystream_byte(
                    key@,
                    nonce@,
                    counter,
                    j,
                )),
            decreases 16 - k,
        {
            let idx = 16 * bi + k;
            proof {
                assert((16 * bi as int + k as int) / 16 == bi as int && (16 * bi as int
                    + k as int) % 16 == k as int) by (nonlinear_arith)
                    requires
                        0 <= k < 16,
                        bi >= 0,
                ;
            }
            out.push(data[idx] ^ ks[k]);
            k = k + 1;
        }
        bi = bi + 1;
    }
    out
}

/// Two counter-mode transforms with the same parameters cancel: decrypting
/// an encryption restores the plaintext.
pub proof fn lemma_ctr_round_trip(key: Seq<u8>, nonce: Seq<u8>, counter: u32, data: Seq<u8>)
    ensures
        spec_ctr_xor(key, nonce, counter, spec_ctr_xor(key, nonce, counter, data)) =~= data,
{
    let once = spec_ctr_xor(key, nonce, counter, data);
    let twice = spec_ctr_xor(key, nonce, counter, once);
    assert forall|j: int| 0 <= j < data.len() implies twice[j] == data[j] by {
        let ks = spec_keystream_byte(key, nonce, counter, j);
        let d = data[j];
        assert((d ^ ks) ^ ks == d) by (bit_vector);
    }
}

} // verus!
