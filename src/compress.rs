//! The SHA-1 compression function: message schedule, round functions,
//! round constants, and the fold of one 512-bit block into the state.
use vstd::prelude::*;

verus! {

/// `x` rotated left by `n` bits, as a 32-bit word.
pub open spec fn rotl(x: u32, n: u32) -> u32 {
    (x << n) | (x >> ((32 - n) as u32))
}

/// Sum of two words modulo 2^32.
pub open spec fn add32(x: u32, y: u32) -> u32 {
    ((x + y) % 0x1_0000_0000) as u32
}

/// Ch(x, y, z): `y` where `x` has a one bit, `z` where it has a zero bit.
pub open spec fn ch(x: u32, y: u32, z: u32) -> u32 {
    (x & y) | (!x & z)
}

/// Parity(x, y, z).
pub open spec fn parity(x: u32, y: u32, z: u32) -> u32 {
    x ^ y ^ z
}

/// Maj(x, y, z): the bitwise majority of the three words.
pub open spec fn maj(x: u32, y: u32, z: u32) -> u32 {
    (x & y) | (x & z) | (y & z)
}

/// The logical function of round `i` (0 to 79): Ch, Parity, Maj, Parity
/// over four bands of twenty rounds.
pub open spec fn round_fn(i: int, x: u32, y: u32, z: u32) -> u32 {
    if i < 20 {
        ch(x, y, z)
    } else if i < 40 {
        parity(x, y, z)
    } else if i < 60 {
        maj(x, y, z)
    } else {
        parity(x, y, z)
    }
}

/// The additive constant of round `i` (0 to 79).
pub open spec fn round_const(i: int) -> u32 {
    if i < 20 {
        0x5a827999
    } else if i < 40 {
        0x6ed9eba1
    } else if i < 60 {
        0x8f1bbcdc
    } else {
        0xca62c1d6
    }
}

/// Word `i` (0 to 79) of the message schedule of a 16-word block.
pub open spec fn schedule(blk: Seq<u32>, i: int) -> u32
    decreases i,
{
    if i < 16 {
        blk[i]
    } else {
        rotl(
            schedule(blk, i - 3) ^ schedule(blk, i - 8) ^ schedule(blk, i - 14) ^ schedule(
                blk,
                i - 16,
            ),
            1,
        )
    }
}

/// The working variables (a, b, c, d, e) of one compression.
pub type Working = (u32, u32, u32, u32, u32);

/// Round `i` applied to the working variables.
pub open spec fn round_step(v: Working, blk: Seq<u32>, i: int) -> Working {
    let t = add32(
        add32(add32(add32(rotl(v.0, 5), round_fn(i, v.1, v.2, v.3)), v.4), round_const(i)),
        schedule(blk, i),
    );
    (t, v.0, rotl(v.1, 30), v.2, v.3)
}

/// The working variables after the first `n` rounds, starting from `v`.
pub open spec fn rounds(v: Working, blk: Seq<u32>, n: int) -> Working
    decreases n,
{
    if n <= 0 {
        v
    } else {
        round_step(rounds(v, blk, n - 1), blk, n - 1)
    }
}

/// The state after one block has been folded into `st` (five words).
#[verifier::opaque]
pub open spec fn compress_spec(st: Seq<u32>, blk: Seq<u32>) -> Seq<u32> {
    let v = rounds((st[0], st[1], st[2], st[3], st[4]), blk, 80);
    seq![add32(st[0], v.0), add32(st[1], v.1), add32(st[2], v.2), add32(st[3], v.3), add32(st[4], v.4)]
}

fn rotate_left(x: u32, n: u32) -> (r: u32)
    requires
        0 < n < 32,
    ensures
        r == rotl(x, n),
{
    (x << n) | (x >> (32 - n))
}

fn wrapping_add32(x: u32, y: u32) -> (r: u32)
    ensures
        r == add32(x, y),
{
    x.wrapping_add(y)
}

/// The logical function of round `round`.
pub fn f(round: u8, x: u32, y: u32, z: u32) -> (r: u32)
    requires
        round < 80,
    ensures
        r == round_fn(round as int, x, y, z),
{
    if round < 20 {
        (x & y) | (!x & z)
    } else if round < 40 {
        x ^ y ^ z
    } else if round < 60 {
        (x & y) | (x & z) | (y & z)
    } else {
        x ^ y ^ z
    }
}

/// The additive constant of round `round`.
pub fn sha1_const(round: u8) -> (r: u32)
    requires
        round < 80,
    ensures
        r == round_const(round as int),
{
    if round < 20 {
        0x5a827999
    } else if round < 40 {
        0x6ed9eba1
    } else if round < 60 {
        0x8f1bbcdc
    } else {
        0xca62c1d6
    }
}

/// Folds one 512-bit block into the running state.
pub fn block(hash: &mut [u32; 5], block: &[u32; 16])
    ensures
        final(hash)@ == compress_spec(old(hash)@, block@),
{
    let ghost init: Working = (hash[0], hash[1], hash[2], hash[3], hash[4]);
    let mut w: Vec<u32> = Vec::with_capacity(80);
    let mut a = hash[0];
    let mut b = hash[1];
    let mut c = hash[2];
    let mut d = hash[3];
    let mut e = hash[4];
    for i in 0..80usize
        invariant
            w@.len() == i,
            forall|j: int| 0 <= j < i ==> w@[j] == schedule(block@, j),
            (a, b, c, d, e) == rounds(init, block@, i as int),
    {
        let wi = if i < 16 {
            block[i]
        } else {
            rotate_left(w[i - 3] ^ w[i - 8] ^ w[i - 14] ^ w[i - 16], 1)
        };
        w.push(wi);
        let t = wrapping_add32(
            wrapping_add32(
                wrapping_add32(
                    wrapping_add32(rotate_left(a, 5), f(i as u8, b, c, d)),
                    e,
                ),
                sha1_const(i as u8),
            ),
            wi,
        );
        e = d;
        d = c;
        c = rotate_left(b, 30);
        b = a;
        a = t;
    }
    hash[0] = wrapping_add32(hash[0], a);
    hash[1] = wrapping_add32(hash[1], b);
    hash[2] = wrapping_add32(hash[2], c);
    hash[3] = wrapping_add32(hash[3], d);
    hash[4] = wrapping_add32(hash[4], e);
    proof {
        reveal(compress_spec);
    }
    assert(hash@ =~= compress_spec(old(hash)@, block@));
}

} // verus!
