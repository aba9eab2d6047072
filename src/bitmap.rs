//! Allocation bitmaps packed into 64-bit words, one bit per resource.
use vstd::prelude::*;

verus! {

/// Whether bit `b` of word `w` is set.
pub open spec fn word_bit(w: u64, b: u64) -> bool {
    w & (1u64 << b) != 0
}

proof fn lemma_set_bit(w: u64, b: u64, c: u64)
    requires
        b < 64,
        c < 64,
    ensures
        word_bit(w | (1u64 << b), c) == (c == b || word_bit(w, c)),
{
    assert((w | (1u64 << b)) & (1u64 << c) != 0 <==> (c == b || w & (1u64 << c) != 0)) by (bit_vector)
        requires
            b < 64,
            c < 64,
    ;
}

proof fn lemma_clear_bit(w: u64, b: u64, c: u64)
    requires
        b < 64,
        c < 64,
    ensures
        word_bit(w & !(1u64 << b), c) == (c != b && word_bit(w, c)),
{
    assert((w & !(1u64 << b)) & (1u64 << c) != 0 <==> (c != b && w & (1u64 << c) != 0)) by (bit_vector)
        requires
            b < 64,
            c < 64,
    ;
}

proof fn lemma_zero_word(c: u64)
    requires
        c < 64,
    ensures
        !word_bit(0u64, c),
{
    assert(0u64 & (1u64 << c) == 0) by (bit_vector);
}

/// Number of set bits among the first `n` of `bits`.
pub open spec fn count_set(bits: Seq<bool>, n: int) -> nat
    decreases n,
{
    if n <= 0 {
        0
    } else {
        count_set(bits, n - 1) + if bits[n - 1] { 1nat } else { 0nat }
    }
}

pub proof fn lemma_count_update(bits: Seq<bool>, i: int, v: bool, n: int)
    requires
        0 <= i < bits.len(),
        0 <= n <= bits.len(),
    ensures
        count_set(bits.update(i, v), n) == if i < n && bits[i] != v {
            if v { count_set(bits, n) + 1 } else { (count_set(bits, n) - 1) as nat }
        } else {
            count_set(bits, n)
        },
        count_set(bits, n) <= n,
    decreases n,
{
    if n > 0 {
        lemma_count_update(bits, i, v, n - 1);
        let u = bits.update(i, v);
        assert(count_set(u, n) == count_set(u, n - 1) + if u[n - 1] { 1nat } else { 0nat });
        assert(count_set(bits, n) == count_set(bits, n - 1) + if bits[n - 1] { 1nat } else { 0nat });
        if i < n - 1 && !v && bits[i] {
            lemma_count_positive(bits, i, n - 1);
        }
    }
}

pub proof fn lemma_count_le(bits: Seq<bool>, n: int)
    requires
        n >= 0,
    ensures
        count_set(bits, n) <= n,
    decreases n,
{
    if n > 0 {
        lemma_count_le(bits, n - 1);
    }
}

pub proof fn lemma_count_positive(bits: Seq<bool>, i: int, n: int)
    requires
        0 <= i < n <= bits.len(),
        bits[i],
    ensures
        count_set(bits, n) >= 1,
    decreases n,
{
    if i < n - 1 {
        lemma_count_positive(bits, i, n - 1);
    }
}

pub proof fn lemma_count_all_clear(bits: Seq<bool>, n: int)
    requires
        0 <= n <= bits.len(),
        forall|i: int| 0 <= i < n ==> !#[trigger] bits[i],
    ensures
        count_set(bits, n) == 0,
    decreases n,
{
    if n > 0 {
        lemma_count_all_clear(bits, n - 1);
    }
}

/// Fewer set bits than bits means some bit is clear.
pub proof fn lemma_count_clear_exists(bits: Seq<bool>, n: int)
    requires
        0 <= n <= bits.len(),
        count_set(bits, n) < n,
    ensures
        exists|i: int| 0 <= i < n && !#[trigger] bits[i],
    decreases n,
{
    if bits[n - 1] {
        lemma_count_clear_exists(bits, n - 1);
        let i = choose|i: int| 0 <= i < n - 1 && !#[trigger] bits[i];
        assert(!bits[i]);
    } else {
        assert(!bits[n - 1]);
    }
}

/// A fixed number of bits, all clear at first.
pub struct Bitmap {
    words: Vec<u64>,
}

impl View for Bitmap {
    type V = Seq<bool>;

    closed spec fn view(&self) -> Seq<bool> {
        Seq::new(
            (self.words@.len() * 64) as nat,
            |i: int| word_bit(self.words@[i / 64], (i % 64) as u64),
        )
    }
}

impl Bitmap {
    /// `n_words * 64` clear bits.
    pub fn new(n_words: usize) -> (r: Bitmap)
        requires
            n_words * 64 <= usize::MAX,
        ensures
            r@.len() == n_words * 64,
            forall|i: int| 0 <= i < r@.len() ==> !#[trigger] r@[i],
    {
        let r = Bitmap { words: vec![0u64; n_words] };
        assert forall|i: int| 0 <= i < r@.len() implies !#[trigger] r@[i] by {
            lemma_zero_word((i % 64) as u64);
        }
        r
    }

    /// Whether bit `i` is set.
    pub fn test(&self, i: usize) -> (r: bool)
        requires
            i < self@.len(),
        ensures
            r == self@[i as int],
    {
        (self.words[i / 64] & (1u64 << ((i % 64) as u64))) != 0
    }

    /// Sets bit `i`.
    pub fn set(&mut self, i: usize)
        requires
            i < old(self)@.len(),
        ensures
            final(self)@ == old(self)@.update(i as int, true),
    {
        let w = i / 64;
        let b = (i % 64) as u64;
        let word = self.words[w];
        self.words.set(w, word | (1u64 << b));
        assert forall|k: int| 0 <= k < self@.len() implies #[trigger] self@[k] == old(self)@.update(i as int, true)[k] by {
            lemma_set_bit(word, b, (k % 64) as u64);
            if k / 64 != w as int {
                assert(self.words@[k / 64] == old(self).words@[k / 64]);
            }
        }
        assert(self@ =~= old(self)@.update(i as int, true));
    }

    /// Clears bit `i`.
    pub fn clear(&mut self, i: usize)
        requires
            i < old(self)@.len(),
        ensures
            final(self)@ == old(self)@.update(i as int, false),
    {
        let w = i / 64;
        let b = (i % 64) as u64;
        let word = self.words[w];
        self.words.set(w, word & !(1u64 << b));
        assert forall|k: int| 0 <= k < self@.len() implies #[trigger] self@[k] == old(self)@.update(i as int, false)[k] by {
            lemma_clear_bit(word, b, (k % 64) as u64);
            if k / 64 != w as int {
                assert(self.words@[k / 64] == old(self).words@[k / 64]);
            }
        }
        assert(self@ =~= old(self)@.update(i as int, false));
    }
}

} // verus!
