//! Rendering of words as lowercase hexadecimal text.
use vstd::prelude::*;
use vstd::string::*;

verus! {

/// The lowercase hex digit of `d` (0 to 15).
pub open spec fn hex_digit(d: int) -> char {
    if d < 10 {
        (d + '0' as int) as char
    } else {
        (d - 10 + 'a' as int) as char
    }
}

/// Digit `i` (0 to 7, most significant first) of `x` in base 16.
pub open spec fn nibble(x: u32, i: int) -> int {
    ((x >> ((28 - 4 * i) as u32)) & 0xf) as int
}

/// `x` as exactly eight lowercase hex digits.
pub open spec fn hex_word(x: u32) -> Seq<char> {
    Seq::new(8, |i: int| hex_digit(nibble(x, i)))
}

/// The words rendered in order, eight hex digits each.
pub open spec fn hex_of(words: Seq<u32>) -> Seq<char>
    decreases words.len(),
{
    if words.len() == 0 {
        Seq::empty()
    } else {
        hex_of(words.drop_last()) + hex_word(words.last())
    }
}

spec fn hex_digits() -> Seq<char> {
    seq!['0', '1', '2', '3', '4', '5', '6', '7', '8', '9', 'a', 'b', 'c', 'd', 'e', 'f']
}

proof fn lemma_hex_digits(d: int)
    requires
        0 <= d < 16,
    ensures
        hex_digits().len() == 16,
        hex_digits()[d] == hex_digit(d),
{
    assert(d == 0 || d == 1 || d == 2 || d == 3 || d == 4 || d == 5 || d == 6 || d == 7 || d == 8
        || d == 9 || d == 10 || d == 11 || d == 12 || d == 13 || d == 14 || d == 15);
}

/// Appends the eight hex digits of `x` to `out`.
pub fn push_hex_word(out: &mut String, x: u32)
    ensures
        final(out)@ == old(out)@ + hex_word(x),
{
    let digits = "0123456789abcdef";
    proof {
        reveal_strlit("0123456789abcdef");
        assert(digits@ =~= hex_digits());
    }
    let ghost start = out@;
    let mut i: u32 = 0;
    while i < 8
        invariant
            i <= 8,
            digits@ == hex_digits(),
            out@ == start + hex_word(x).take(i as int),
        decreases 8 - i,
    {
        let sh: u32 = 28 - 4 * i;
        let d = ((x >> sh) & 0xf) as usize;
        assert(((x >> sh) & 0xf) < 16) by (bit_vector);
        assert(d == nibble(x, i as int));
        proof {
            lemma_hex_digits(d as int);
        }
        out.append(digits.substring_char(d, d + 1));
        assert(hex_word(x).take(i + 1) =~= hex_word(x).take(i as int).push(hex_digit(d as int)));
        i = i + 1;
    }
    assert(hex_word(x).take(8) =~= hex_word(x));
}

} // verus!
