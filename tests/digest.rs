use sha1::compress::{block, f, sha1_const};
use sha1::padding::pad_data;
use sha1::{sha1, HashError, Sha1};

fn hex(inp: &[u8]) -> String {
    Sha1::new(inp).unwrap().to_string()
}

#[test]
fn digest_empty() {
    assert_eq!(hex(b""), "da39a3ee5e6b4b0d3255bfef95601890afd80709");
}

#[test]
fn digest_abc() {
    assert_eq!(hex(b"abc"), "a9993e364706816aba3e25717850c26c9cd0d89d");
}

#[test]
fn digest_two_block_vector() {
    assert_eq!(
        hex(b"abcdbcdecdefdefgefghfghighijhijkijkljklmklmnlmnomnopnopq"),
        "84983e441c3bd26ebaae4aa1f95129e5e54670f1"
    );
}

#[test]
fn digest_quick_brown_fox() {
    assert_eq!(
        hex(b"The quick brown fox jumps over the lazy dog"),
        "2fd4e1c67a2d28fced849ee1bb76e7391b93eb12"
    );
}

#[test]
fn digest_million_a() {
    let input = vec![b'a'; 1_000_000];
    assert_eq!(hex(&input), "34aa973cd4c4daa4f61eeb2bdbad27316534016f");
}

#[test]
fn digest_words() {
    assert_eq!(
        sha1(b"abc").unwrap(),
        [0xa9993e36, 0x4706816a, 0xba3e2571, 0x7850c26c, 0x9cd0d89d]
    );
}

#[test]
fn digest_is_deterministic() {
    let input = b"The quick brown fox jumps over the lazy dog";
    let first = Sha1::new(input).unwrap().to_string();
    let second = Sha1::new(input).unwrap().to_string();
    assert_eq!(first, second);
    assert_eq!(sha1(input).unwrap(), sha1(input).unwrap());
}

#[test]
fn digest_hex_is_forty_lowercase_digits() {
    let s = hex(b"abc");
    assert_eq!(s.len(), 40);
    assert!(s.chars().all(|c| c.is_ascii_digit() || ('a'..='f').contains(&c)));
}

#[test]
fn digest_of_two_blocks_chains_compression() {
    let input = b"abcdbcdecdefdefgefghfghighijhijkijkljklmklmnlmnomnopnopq";
    let blocks = pad_data(input);
    assert_eq!(blocks.len(), 2);
    let mut state = [0x67452301u32, 0xefcdab89, 0x98badcfe, 0x10325476, 0xc3d2e1f0];
    block(&mut state, &blocks[0]);
    block(&mut state, &blocks[1]);
    assert_eq!(sha1(input).unwrap(), state);
    assert_eq!(state, [0x84983e44, 0x1c3bd26e, 0xbaae4aa1, 0xf95129e5, 0xe54670f1]);
}

#[test]
fn block_order_matters() {
    let input = b"abcdbcdecdefdefgefghfghighijhijkijkljklmklmnlmnomnopnopq";
    let blocks = pad_data(input);
    let mut state = [0x67452301u32, 0xefcdab89, 0x98badcfe, 0x10325476, 0xc3d2e1f0];
    block(&mut state, &blocks[1]);
    block(&mut state, &blocks[0]);
    assert_ne!(sha1(input).unwrap(), state);
}

#[test]
fn block_changes_state() {
    let blocks = pad_data(b"");
    let mut state = [0x67452301u32, 0xefcdab89, 0x98badcfe, 0x10325476, 0xc3d2e1f0];
    block(&mut state, &blocks[0]);
    assert_eq!(state, [0xda39a3ee, 0x5e6b4b0d, 0x3255bfef, 0x95601890, 0xafd80709]);
}

#[test]
fn round_function_bands() {
    let (x, y, z) = (0xf0f0_f0f0u32, 0xff00_ff00u32, 0x0f0f_0f0fu32);
    let ch = (x & y) | (!x & z);
    let parity = x ^ y ^ z;
    let maj = (x & y) | (x & z) | (y & z);
    assert_eq!(f(0, x, y, z), ch);
    assert_eq!(f(19, x, y, z), ch);
    assert_eq!(f(20, x, y, z), parity);
    assert_eq!(f(39, x, y, z), parity);
    assert_eq!(f(40, x, y, z), maj);
    assert_eq!(f(59, x, y, z), maj);
    assert_eq!(f(60, x, y, z), parity);
    assert_eq!(f(79, x, y, z), parity);
    assert_eq!(f(0, 0xffff_0000, 0x1234_5678, 0x9abc_def0), 0x1234_def0);
    assert_eq!(f(40, 0b1100, 0b1010, 0b0110), 0b1110);
}

#[test]
fn round_constants() {
    assert_eq!(sha1_const(0), 0x5a827999);
    assert_eq!(sha1_const(19), 0x5a827999);
    assert_eq!(sha1_const(20), 0x6ed9eba1);
    assert_eq!(sha1_const(39), 0x6ed9eba1);
    assert_eq!(sha1_const(40), 0x8f1bbcdc);
    assert_eq!(sha1_const(59), 0x8f1bbcdc);
    assert_eq!(sha1_const(60), 0xca62c1d6);
    assert_eq!(sha1_const(79), 0xca62c1d6);
}

#[test]
fn error_variant_compares() {
    let e = HashError::DataTooLarge;
    assert_eq!(e, HashError::DataTooLarge);
    assert!(Sha1::new(b"x").is_ok());
}
