//! Properties that relate several calls or hold of every input.
use vstd::prelude::*;

verus! {

use crate::compress::compress_spec;
use crate::padding::{num_blocks, pad_blocks, padded_word};
use crate::{digest_of, hash_blocks, initial_state, outcome, sha1_words, HashError, Sha1};

/// Hashing is deterministic: two results of `Sha1::new` on equal inputs
/// are equal, the same digest words or the same error.
pub proof fn lemma_digest_deterministic(
    b1: Seq<u8>,
    b2: Seq<u8>,
    r1: Result<Sha1, HashError>,
    r2: Result<Sha1, HashError>,
)
    requires
        b1 == b2,
        outcome(r1) == digest_of(b1),
        outcome(r2) == digest_of(b2),
    ensures
        outcome(r1) == outcome(r2),
        r1 is Ok <==> r2 is Ok,
{
}

/// A message that pads to two blocks hashes to the initial state
/// compressed with its first block, and the result compressed with its
/// second block.
pub proof fn lemma_two_block_chaining(msg: Seq<u8>)
    requires
        num_blocks(msg.len()) == 2,
    ensures
        sha1_words(msg) == compress_spec(
            compress_spec(initial_state(), pad_blocks(msg)[0]),
            pad_blocks(msg)[1],
        ),
{
    let pb = pad_blocks(msg);
    let first = pb.drop_last();
    assert(first.drop_last() =~= Seq::<Seq<u32>>::empty());
    assert(hash_blocks(initial_state(), first.drop_last()) == initial_state());
    assert(hash_blocks(initial_state(), first) == compress_spec(initial_state(), pb[0]));
    assert(hash_blocks(initial_state(), pb) == compress_spec(
        hash_blocks(initial_state(), first),
        pb[1],
    ));
}

/// A non-empty message that fills whole blocks gets one more block, whose
/// first word carries the `1` bit and nothing else of the message.
pub proof fn lemma_full_blocks_open_new_block(msg: Seq<u8>)
    requires
        msg.len() > 0,
        msg.len() % 64 == 0,
    ensures
        num_blocks(msg.len()) == msg.len() / 64 + 1,
        pad_blocks(msg)[(msg.len() / 64) as int][0] == 0x8000_0000u32,
{
    let m: int = (msg.len() / 64) as int;
    assert((msg.len() + 8) / 64 == m);
    let k: int = 16 * m;
    assert(4 * k == msg.len());
    assert(padded_word(msg, k) == 0x8000_0000u32);
}

/// The padded message is as short as it can be: its blocks hold the
/// message, the `1` bit and the 64-bit length, and one block fewer would not.
pub proof fn lemma_block_count_is_least(n: nat)
    ensures
        num_blocks(n) >= 1,
        64 * num_blocks(n) >= n + 9,
        64 * (num_blocks(n) - 1) < n + 9,
{
    let q = (n + 8) / 64;
    assert(64 * q <= n + 8 < 64 * q + 64);
}

} // verus!
