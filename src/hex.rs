//! Lowercase hexadecimal rendering of 32-bit words.
use vstd::prelude::*;
use vstd::string::*;

verus! {

/// The sixteen lowercase hexadecimal digits, in order of value.
pub open spec fn hex_digits() -> Seq<char> {
    seq!['0', '1', '2', '3', '4', '5', '6', '7', '8', '9', 'a', 'b', 'c', 'd', 'e', 'f']
}

/// Whether `c` is a lowercase hexadecimal digit.
pub open spec fn is_lower_hex(c: char) -> bool {
    ('0' <= c && c <= '9') || ('a' <= c && c <= 'f')
}

/// The `i`-th four-bit group of `w`, counting from the most significant.
pub open spec fn nibble(w: u32, i: int) -> u32 {
    (w >> ((28 - 4 * i) as u32)) & 0xf
}

/// `w` as eight hexadecimal digits, most significant first, zero-padded.
pub open spec fn word_hex(w: u32) -> Seq<char> {
    Seq::new(8, |i: int| hex_digits()[nibble(w, i) as int])
}

/// Every digit of `word_hex(w)` is a lowercase hexadecimal digit.
pub proof fn lemma_word_hex_is_lower_hex(w: u32)
    ensures
        word_hex(w).len() == 8,
        forall|i: int| 0 <= i < 8 ==> is_lower_hex(#[trigger] word_hex(w)[i]),
{
    assert forall|i: int| 0 <= i < 8 implies is_lower_hex(#[trigger] word_hex(w)[i]) by {
        let shift = (28 - 4 * i) as u32;
        let d = (w >> shift) & 0xf;
        assert(d < 16) by (bit_vector)
            requires
                d == (w >> shift) & 0xf,
        ;
        assert(nibble(w, i) == d);
        assert(is_lower_hex(hex_digits()[d as int]));
    }
}

/// Appends the digit of value `n` to `s`.
fn push_hex_digit(s: &mut String, n: u32)
    requires
        n < 16,
    ensures
        final(s)@ == old(s)@.push(hex_digits()[n as int]),
{
    let digits = "0123456789abcdef";
    proof {
        reveal_strlit("0123456789abcdef");
        assert(digits@ =~= hex_digits());
    }
    let piece = digits.substring_char(n as usize, n as usize + 1);
    s.append(piece);
    assert(piece@ =~= seq![hex_digits()[n as int]]);
}

/// Appends the eight digits of `w` to `s`.
pub(crate) fn push_word_hex(s: &mut String, w: u32)
    ensures
        final(s)@ == old(s)@ + word_hex(w),
{
    let mut i: u32 = 0;
    while i < 8
        invariant
            i <= 8,
            s@ == old(s)@ + word_hex(w).subrange(0, i as int),
        decreases 8 - i,
    {
        let shift: u32 = 28 - 4 * i;
        let d: u32 = (w >> shift) & 0xf;
        assert(d < 16) by (bit_vector)
            requires
                d == (w >> shift) & 0xf,
        ;
        push_hex_digit(s, d);
        assert(word_hex(w).subrange(0, i + 1) =~= word_hex(w).subrange(0, i as int).push(
            hex_digits()[d as int],
        ));
        i = i + 1;
    }
    assert(word_hex(w).subrange(0, 8) =~= word_hex(w));
}

} // verus!
