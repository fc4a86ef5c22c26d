use vstd::prelude::*;

verus! {

/// Whether bit `b` of the word `w` is set.
pub open spec fn word_bit(w: u64, b: u64) -> bool {
    w & (1u64 << b) != 0
}

/// Setting bit `b` sets that bit and leaves the others as they were.
pub proof fn lemma_set_bit(w: u64, b: u64, c: u64)
    requires
        b < 64,
        c < 64,
    ensures
        word_bit(w | (1u64 << b), c) == (b == c || word_bit(w, c)),
{
    assert((w | (1u64 << b)) & (1u64 << c) != 0 <==> (b == c || w & (1u64 << c) != 0))
        by (bit_vector)
        requires
            b < 64,
            c < 64,
    ;
}

/// Clearing bit `b` clears that bit and leaves the others as they were.
pub proof fn lemma_clear_bit(w: u64, b: u64, c: u64)
    requires
        b < 64,
        c < 64,
    ensures
        word_bit(w & !(1u64 << b), c) == (b != c && word_bit(w, c)),
{
    assert((w & !(1u64 << b)) & (1u64 << c) != 0 <==> (b != c && w & (1u64 << c) != 0))
        by (bit_vector)
        requires
            b < 64,
            c < 64,
    ;
}

/// Every bit of a word with all bits set is set.
pub proof fn lemma_full_word(c: u64)
    requires
        c < 64,
    ensures
        word_bit(u64::MAX, c),
{
    assert(0xffff_ffff_ffff_ffffu64 & (1u64 << c) != 0) by (bit_vector)
        requires
            c < 64,
    ;
}

/// Two words whose bits below `n` agree agree on their low `n` bits.
proof fn lemma_low_bits_agree(x: u64, y: u64, n: u64)
    requires
        n <= 63,
        forall|b: u64| b < 64 ==> word_bit(x, b) == word_bit(y, b),
    ensures
        x & ((1u64 << n) - 1) as u64 == y & ((1u64 << n) - 1) as u64,
    decreases n,
{
    if n == 0 {
        assert(x & ((1u64 << 0u64) - 1) as u64 == 0 && y & ((1u64 << 0u64) - 1) as u64 == 0) by (bit_vector);
    } else {
        let m = (n - 1) as u64;
        lemma_low_bits_agree(x, y, m);
        assert(word_bit(x, m) == word_bit(y, m));
        assert(x & ((1u64 << n) - 1) as u64 == y & ((1u64 << n) - 1) as u64) by (bit_vector)
            requires
                m < 63,
                n == m + 1,
                x & ((1u64 << m) - 1) as u64 == y & ((1u64 << m) - 1) as u64,
                (x & (1u64 << m) != 0) == (y & (1u64 << m) != 0),
        ;
    }
}

/// Two words with the same bits are the same word.
pub proof fn lemma_word_ext(x: u64, y: u64)
    requires
        forall|b: u64| b < 64 ==> word_bit(x, b) == word_bit(y, b),
    ensures
        x == y,
{
    lemma_low_bits_agree(x, y, 63);
    assert(word_bit(x, 63u64) == word_bit(y, 63u64));
    assert(x == y) by (bit_vector)
        requires
            x & ((1u64 << 63u64) - 1) as u64 == y & ((1u64 << 63u64) - 1) as u64,
            (x & (1u64 << 63u64) != 0) == (y & (1u64 << 63u64) != 0),
    ;
}

} // verus!
