//! Padding of a byte message into 512-bit blocks of sixteen big-endian words.
use vstd::prelude::*;

verus! {

/// Inputs must be shorter than this many bytes, so that their length in
/// bits fits in 64 bits.
pub const MAX_INPUT_BYTES: u64 = 0x2000_0000_0000_0000;

/// Number of 64-byte blocks that a message of `n` bytes pads to: the fewest
/// that hold the message, one `0x80` byte and the 8-byte length.
pub open spec fn num_blocks(n: nat) -> nat {
    ((n + 8) / 64 + 1) as nat
}

/// Byte `j` of the message followed by the single `1` bit and zero bits
/// (before the length field is written over the end).
pub open spec fn padded_byte(msg: Seq<u8>, j: int) -> u8 {
    if j < msg.len() {
        msg[j]
    } else if j == msg.len() {
        0x80
    } else {
        0
    }
}

/// Four bytes read as one big-endian word.
pub open spec fn be_word(b0: u8, b1: u8, b2: u8, b3: u8) -> u32 {
    (b0 * 0x100_0000 + b1 * 0x1_0000 + b2 * 0x100 + b3) as u32
}

/// Word `k` of the padded message, counted over all of its blocks: the
/// last word holds the low 32 bits of the bit length, the one before it
/// the high 32 bits, and every other word packs four padded bytes.
pub open spec fn padded_word(msg: Seq<u8>, k: int) -> u32 {
    let last = 16 * num_blocks(msg.len()) - 1;
    let bits = 8 * msg.len();
    if k == last {
        (bits % 0x1_0000_0000) as u32
    } else if k == last - 1 {
        ((bits / 0x1_0000_0000) % 0x1_0000_0000) as u32
    } else {
        be_word(
            padded_byte(msg, 4 * k),
            padded_byte(msg, 4 * k + 1),
            padded_byte(msg, 4 * k + 2),
            padded_byte(msg, 4 * k + 3),
        )
    }
}

/// The padded message as a sequence of 16-word blocks.
pub open spec fn pad_blocks(msg: Seq<u8>) -> Seq<Seq<u32>> {
    Seq::new(num_blocks(msg.len()), |b: int| Seq::new(16, |w: int| padded_word(msg, 16 * b + w)))
}

proof fn lemma_be_word(b0: u8, b1: u8, b2: u8, b3: u8)
    ensures
        ((b0 as u32) << 24u32) | ((b1 as u32) << 16u32) | ((b2 as u32) << 8u32) | (b3 as u32)
            == be_word(b0, b1, b2, b3),
{
    assert(((b0 as u32) << 24u32) | ((b1 as u32) << 16u32) | ((b2 as u32) << 8u32) | (b3 as u32)
        == (b0 * 0x100_0000 + b1 * 0x1_0000 + b2 * 0x100 + b3) as u32) by (bit_vector);
}

fn byte_at(inp: &[u8], j: u64) -> (r: u8)
    ensures
        r == padded_byte(inp@, j as int),
{
    if j < inp.len() as u64 {
        inp[j as usize]
    } else if j == inp.len() as u64 {
        0x80
    } else {
        0
    }
}

fn word_at(inp: &[u8], k: u64, nb: u64) -> (r: u32)
    requires
        inp@.len() < MAX_INPUT_BYTES,
        nb == num_blocks(inp@.len()),
        k < 16 * nb,
    ensures
        r == padded_word(inp@, k as int),
{
    let bits: u64 = (inp.len() as u64) * 8;
    if k == 16 * nb - 1 {
        assert(bits as u32 == bits % 0x1_0000_0000) by (bit_vector);
        bits as u32
    } else if k == 16 * nb - 2 {
        assert((bits >> 32u64) as u32 == (bits / 0x1_0000_0000) % 0x1_0000_0000) by (bit_vector);
        (bits >> 32) as u32
    } else {
        let b0 = byte_at(inp, 4 * k);
        let b1 = byte_at(inp, 4 * k + 1);
        let b2 = byte_at(inp, 4 * k + 2);
        let b3 = byte_at(inp, 4 * k + 3);
        proof {
            lemma_be_word(b0, b1, b2, b3);
        }
        ((b0 as u32) << 24) | ((b1 as u32) << 16) | ((b2 as u32) << 8) | (b3 as u32)
    }
}

/// Pads `inp` into 512-bit blocks of sixteen big-endian words: the message
/// bytes, a `1` bit, zero bits, and the 64-bit bit length in the last two
/// words of the last block. An empty message gives one block; a message
/// that leaves fewer than 9 bytes free in its last block gets a further one.
pub fn pad_data(inp: &[u8]) -> (r: Vec<[u32; 16]>)
    requires
        inp@.len() < MAX_INPUT_BYTES,
    ensures
        r@.len() == num_blocks(inp@.len()),
        forall|b: int| 0 <= b < r@.len() ==> #[trigger] r@[b]@ == pad_blocks(inp@)[b],
{
    let n: u64 = inp.len() as u64;
    let nb: u64 = (n + 8) / 64 + 1;
    let mut blocks: Vec<[u32; 16]> = Vec::new();
    let mut b: u64 = 0;
    while b < nb
        invariant
            nb == num_blocks(inp@.len()),
            inp@.len() < MAX_INPUT_BYTES,
            b <= nb,
            blocks@.len() == b,
            forall|bb: int| 0 <= bb < b ==> #[trigger] blocks@[bb]@ == pad_blocks(inp@)[bb],
        decreases nb - b,
    {
        let k = 16 * b;
        let blk: [u32; 16] = [
            word_at(inp, k, nb),
            word_at(inp, k + 1, nb),
            word_at(inp, k + 2, nb),
            word_at(inp, k + 3, nb),
            word_at(inp, k + 4, nb),
            word_at(inp, k + 5, nb),
            word_at(inp, k + 6, nb),
            word_at(inp, k + 7, nb),
            word_at(inp, k + 8, nb),
            word_at(inp, k + 9, nb),
            word_at(inp, k + 10, nb),
            word_at(inp, k + 11, nb),
            word_at(inp, k + 12, nb),
            word_at(inp, k + 13, nb),
            word_at(inp, k + 14, nb),
            word_at(inp, k + 15, nb),
        ];
        assert(blk@ =~= pad_blocks(inp@)[b as int]);
        blocks.push(blk);
        b = b + 1;
    }
    blocks
}

} // verus!
