//! SHA-1 message digest (FIPS 180-4): padding into 512-bit blocks, the
//! 80-round compression function, and a digest value rendered as hex.
use vstd::prelude::*;

pub mod compress;
pub mod hex;
pub mod laws;
pub mod padding;

verus! {

use crate::compress::{block, compress_spec};
use crate::hex::{hex_of, push_hex_word};
use crate::padding::{pad_blocks, pad_data, MAX_INPUT_BYTES};

/// The one failure of hashing.
#[derive(Debug, Clone, Copy, PartialEq, Eq)]
pub enum HashError {
    /// The input is 2^61 bytes or longer: its bit length does not fit in
    /// the 64-bit length field.
    DataTooLarge,
}

/// A finished SHA-1 digest: the five words of the final state.
pub struct Sha1 {
    hash: [u32; 5],
}

impl View for Sha1 {
    type V = Seq<u32>;

    closed spec fn view(&self) -> Seq<u32> {
        self.hash@
    }
}

/// The state before the first block.
pub open spec fn initial_state() -> Seq<u32> {
    seq![0x67452301u32, 0xefcdab89u32, 0x98badcfeu32, 0x10325476u32, 0xc3d2e1f0u32]
}

/// The state after the blocks have been folded into `st` in order.
pub open spec fn hash_blocks(st: Seq<u32>, blocks: Seq<Seq<u32>>) -> Seq<u32>
    decreases blocks.len(),
{
    if blocks.len() == 0 {
        st
    } else {
        compress_spec(hash_blocks(st, blocks.drop_last()), blocks.last())
    }
}

/// The SHA-1 digest of `msg`, as five words.
pub open spec fn sha1_words(msg: Seq<u8>) -> Seq<u32> {
    hash_blocks(initial_state(), pad_blocks(msg))
}

/// What hashing `msg` yields: the digest words, or the length error.
pub open spec fn digest_of(msg: Seq<u8>) -> Result<Seq<u32>, HashError> {
    if msg.len() < MAX_INPUT_BYTES {
        Ok(sha1_words(msg))
    } else {
        Err(HashError::DataTooLarge)
    }
}

/// The words that a digest result holds, or its error.
pub open spec fn outcome(r: Result<Sha1, HashError>) -> Result<Seq<u32>, HashError> {
    match r {
        Ok(s) => Ok(s@),
        Err(e) => Err(e),
    }
}

/// Computes the SHA-1 digest of `inp` as five words, or fails when `inp` is
/// 2^61 bytes or longer.
pub fn sha1(inp: &[u8]) -> (r: Result<[u32; 5], HashError>)
    ensures
        r is Ok <==> inp@.len() < MAX_INPUT_BYTES,
        r matches Ok(h) ==> h@ == sha1_words(inp@),
        r matches Err(e) ==> e == HashError::DataTooLarge,
{
    if inp.len() as u64 >= MAX_INPUT_BYTES {
        return Err(HashError::DataTooLarge);
    }
    let mut hash: [u32; 5] = [0x67452301, 0xefcdab89, 0x98badcfe, 0x10325476, 0xc3d2e1f0];
    assert(hash@ =~= initial_state());
    let blocks = pad_data(inp);
    let ghost pb = pad_blocks(inp@);
    assert(pb.take(0) =~= Seq::<Seq<u32>>::empty());
    let mut i: usize = 0;
    while i < blocks.len()
        invariant
            i <= blocks@.len(),
            blocks@.len() == pb.len(),
            forall|b: int| 0 <= b < blocks@.len() ==> #[trigger] blocks@[b]@ == pb[b],
            hash@ == hash_blocks(initial_state(), pb.take(i as int)),
        decreases blocks@.len() - i,
    {
        block(&mut hash, &blocks[i]);
        assert(pb.take(i + 1).drop_last() =~= pb.take(i as int));
        i = i + 1;
    }
    assert(pb.take(i as int) =~= pb);
    Ok(hash)
}

impl Sha1 {
    /// Hashes `inp`; fails with `DataTooLarge` exactly when `inp` is 2^61
    /// bytes or longer.
    pub fn new(inp: &[u8]) -> (r: Result<Sha1, HashError>)
        ensures
            outcome(r) == digest_of(inp@),
    {
        match sha1(inp) {
            Ok(hash) => Ok(Sha1 { hash }),
            Err(e) => Err(e),
        }
    }

    /// The digest as 40 lowercase hex digits, eight per word in order.
    pub fn to_string(&self) -> (r: String)
        ensures
            r@ == hex_of(self@),
            r@.len() == 40,
    {
        let mut out = String::new();
        let mut i: usize = 0;
        while i < 5
            invariant
                i <= 5,
                self@.len() == 5,
                out@ == hex_of(self@.take(i as int)),
                out@.len() == 8 * i,
            decreases 5 - i,
        {
            push_hex_word(&mut out, self.hash[i]);
            assert(self@.take(i + 1).drop_last() =~= self@.take(i as int));
            i = i + 1;
        }
        assert(self@.take(5) =~= self@);
        out
    }
}

} // verus!
