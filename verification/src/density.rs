//! Density trackers: which variables of one category take part in a query.

use vstd::prelude::*;

verus! {

/// The number of set bits in a bit sequence.
pub open spec fn count_set(bits: Seq<bool>) -> nat
    decreases bits.len(),
{
    if bits.len() == 0 {
        0
    } else {
        count_set(bits.drop_last()) + if bits.last() { 1nat } else { 0nat }
    }
}

/// No sequence has more set bits than it has bits.
pub proof fn lemma_count_set_bounded(bits: Seq<bool>)
    ensures
        count_set(bits) <= bits.len(),
    decreases bits.len(),
{
    if bits.len() > 0 {
        lemma_count_set_bounded(bits.drop_last());
    }
}

/// Appending one bit adds it to the count.
pub proof fn lemma_count_set_push(bits: Seq<bool>, bit: bool)
    ensures
        count_set(bits.push(bit)) == count_set(bits) + if bit { 1nat } else { 0nat },
{
    assert(bits.push(bit).drop_last() =~= bits);
}

/// Setting a clear bit raises the count by one; setting a set bit changes
/// nothing.
pub proof fn lemma_count_set_update(bits: Seq<bool>, index: int)
    requires
        0 <= index < bits.len(),
    ensures
        count_set(bits.update(index, true)) == count_set(bits) + if bits[index] { 0nat } else { 1nat },
    decreases bits.len(),
{
    let after = bits.update(index, true);
    if index == bits.len() - 1 {
        assert(after.drop_last() =~= bits.drop_last());
    } else {
        lemma_count_set_update(bits.drop_last(), index);
        assert(after.drop_last() =~= bits.drop_last().update(index, true));
    }
}

/// Bit `index` of a sequence of 64-bit words, counted from the lowest bit
/// of the first word.
pub open spec fn word_bit(words: Seq<u64>, index: int) -> bool {
    (words[index / 64] >> ((index % 64) as u64)) & 1 == 1
}

/// `words` holds exactly `bits`, 64 to a word, and nothing beyond them.
pub open spec fn packs(words: Seq<u64>, bits: Seq<bool>) -> bool {
    &&& words.len() == (bits.len() + 63) / 64
    &&& forall|i: int| 0 <= i < bits.len() ==> word_bit(words, i) == #[trigger] bits[i]
    &&& forall|i: int| bits.len() <= i < 64 * words.len() ==> !#[trigger] word_bit(words, i)
}

/// Setting bit `at` of a word sets that bit and keeps every other.
proof fn lemma_set_bit(word: u64, at: u64, other: u64)
    requires
        at < 64,
        other < 64,
    ensures
        ((word | (1u64 << at)) >> other) & 1 == if other == at {
            1u64
        } else {
            (word >> other) & 1
        },
{
    assert(((word | (1u64 << at)) >> other) & 1 == if other == at {
        1u64
    } else {
        (word >> other) & 1
    }) by (bit_vector)
        requires
            at < 64,
            other < 64,
    ;
}

/// Masking a word with bit `at` tests that bit.
proof fn lemma_test_bit(word: u64, at: u64)
    requires
        at < 64,
    ensures
        (word & (1u64 << at) == 0) == ((word >> at) & 1 != 1),
{
    assert((word & (1u64 << at) == 0) == ((word >> at) & 1 != 1)) by (bit_vector)
        requires
            at < 64,
    ;
}

/// The zero word has no bit set.
proof fn lemma_clear_word(other: u64)
    requires
        other < 64,
    ensures
        (0u64 >> other) & 1 == 0,
{
    assert((0u64 >> other) & 1 == 0) by (bit_vector)
        requires
            other < 64,
    ;
}

/// One bit per variable of a category, packed 64 to a word with the lowest
/// bit first, and the number of set bits kept beside them. Bits are
/// appended and may be set; none is ever cleared or removed.
pub struct DensityTracker {
    words: Vec<u64>,
    bit_len: usize,
    total_density: usize,
}

impl View for DensityTracker {
    type V = Seq<bool>;

    closed spec fn view(&self) -> Seq<bool> {
        Seq::new(self.bit_len as nat, |i: int| word_bit(self.words@, i))
    }
}

impl DensityTracker {
    /// The words hold the bits and nothing beyond them, and the count kept
    /// beside them is the number of set bits.
    pub closed spec fn wf(&self) -> bool {
        &&& packs(self.words@, self@)
        &&& self.total_density == count_set(self@)
    }

    /// A tracker without bits.
    pub fn new() -> (r: DensityTracker)
        ensures
            r.wf(),
            r@ == Seq::<bool>::empty(),
    {
        let r = DensityTracker { words: Vec::new(), bit_len: 0, total_density: 0 };
        assert(r@ =~= Seq::<bool>::empty());
        r
    }

    /// Extends the sequence by one bit.
    pub fn append(&mut self, is_set: bool)
        requires
            old(self).wf(),
            old(self)@.len() < usize::MAX,
        ensures
            final(self).wf(),
            final(self)@ == old(self)@.push(is_set),
    {
        let ghost before = self.words@;
        let ghost seen = self@;
        let i = self.bit_len;
        if i % 64 == 0 {
            self.words.push(0);
            assert forall|k: int| 0 <= k < 64 * self.words@.len() implies #[trigger] word_bit(self.words@, k) == (k
                < i && word_bit(before, k)) by {
                if k >= i {
                    lemma_clear_word((k % 64) as u64);
                }
            }
        }
        let ghost padded = self.words@;
        assert(padded.len() == (i + 64) / 64);
        assert forall|k: int| 0 <= k < 64 * padded.len() implies #[trigger] word_bit(padded, k) == (k < i
            && seen[k]) by {
            if i % 64 == 0 {
                assert(word_bit(self.words@, k) == (k < i && word_bit(before, k)));
            } else {
                assert(padded == before);
                if k >= i {
                    assert(!word_bit(before, k));
                }
            }
            if k < i {
                assert(seen[k] == word_bit(before, k));
            }
        }
        if is_set {
            let last = self.words.len() - 1;
            let shift: u64 = (i % 64) as u64;
            let word = self.words[last];
            self.words[last] = word | (1u64 << shift);
            assert forall|k: int| 0 <= k < 64 * self.words@.len() implies #[trigger] word_bit(self.words@, k) == (k
                == i || word_bit(padded, k)) by {
                if k / 64 == last as int {
                    lemma_set_bit(word, shift, (k % 64) as u64);
                }
            }
        }
        self.bit_len = i + 1;
        proof {
            let next = seen.push(is_set);
            assert forall|k: int| 0 <= k < 64 * self.words@.len() implies #[trigger] word_bit(self.words@, k) == (k
                <= i && next[k]) by {
                assert(word_bit(padded, k) == (k < i && seen[k]));
                if k < i {
                    assert(next[k] == seen[k]);
                }
                if is_set {
                    assert(word_bit(self.words@, k) == (k == i || word_bit(padded, k)));
                } else {
                    assert(self.words@ == padded);
                }
            }
            assert(self@ =~= next);
            lemma_count_set_push(seen, is_set);
            lemma_count_set_bounded(next);
        }
        if is_set {
            self.total_density = self.total_density + 1;
        }
    }

    /// Sets the bit at `index`. Returns whether there is such a bit; where
    /// there is none the tracker is unchanged.
    pub fn mark(&mut self, index: usize) -> (r: bool)
        requires
            old(self).wf(),
        ensures
            final(self).wf(),
            r == (index < old(self)@.len()),
            r ==> final(self)@ == old(self)@.update(index as int, true),
            !r ==> final(self)@ == old(self)@,
    {
        if index >= self.bit_len {
            return false;
        }
        let ghost before = self.words@;
        let ghost seen = self@;
        let at = index / 64;
        let shift: u64 = (index % 64) as u64;
        let word = self.words[at];
        proof {
            lemma_test_bit(word, shift);
            assert(seen[index as int] == word_bit(before, index as int));
        }
        if word & (1u64 << shift) == 0 {
            self.words[at] = word | (1u64 << shift);
            proof {
                assert forall|k: int| 0 <= k < 64 * self.words@.len() implies #[trigger] word_bit(self.words@, k)
                    == (k == index || word_bit(before, k)) by {
                    if k / 64 == at as int {
                        lemma_set_bit(word, shift, (k % 64) as u64);
                    }
                }
                let next = seen.update(index as int, true);
                assert(self@ =~= next);
                assert forall|k: int| next.len() <= k < 64 * self.words@.len() implies !#[trigger] word_bit(
                    self.words@,
                    k,
                ) by {
                    assert(!word_bit(before, k));
                }
                lemma_count_set_update(seen, index as int);
                lemma_count_set_bounded(next);
            }
            self.total_density = self.total_density + 1;
        } else {
            assert(seen.update(index as int, true) =~= seen);
        }
        true
    }

    /// The number of set bits.
    pub fn total_density(&self) -> (r: usize)
        requires
            self.wf(),
        ensures
            r == count_set(self@),
    {
        self.total_density
    }

    /// The number of bits.
    pub fn len(&self) -> (r: usize)
        ensures
            r == self@.len(),
    {
        self.bit_len
    }

    /// The bit at `index`, if there is one.
    pub fn get(&self, index: usize) -> (r: Option<bool>)
        requires
            self.wf(),
        ensures
            r == if index < self@.len() { Some(self@[index as int]) } else { None },
    {
        if index < self.bit_len {
            let shift: u64 = (index % 64) as u64;
            Some((self.words[index / 64] >> shift) & 1 == 1)
        } else {
            None
        }
    }

    /// The bits, one by one and in order.
    pub fn bits(&self) -> (r: Vec<bool>)
        requires
            self.wf(),
        ensures
            r@ == self@,
    {
        let mut r: Vec<bool> = Vec::new();
        let mut i: usize = 0;
        while i < self.bit_len
            invariant
                self.wf(),
                i <= self@.len(),
                self@.len() == self.bit_len,
                r@ == self@.subrange(0, i as int),
            decreases self.bit_len - i,
        {
            let bit = self.get(i);
            match bit {
                Some(bit) => r.push(bit),
                None => {},
            }
            assert(r@ =~= self@.subrange(0, i + 1));
            i = i + 1;
        }
        assert(self@.subrange(0, i as int) =~= self@);
        r
    }

    /// The storage: the bits packed into 64-bit words, lowest bit first, as
    /// a proving backend reads them.
    pub fn words(&self) -> (r: &[u64])
        requires
            self.wf(),
        ensures
            packs(r@, self@),
    {
        self.words.as_slice()
    }
}

} // verus!
