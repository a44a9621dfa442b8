use crate::phenotype::Phenotype;
use crate::rng::draw_in;
use vstd::prelude::*;

verus! {

/// Number of bytes in a genome.
pub const GENOME_LEN: usize = 32;

/// A fixed-length byte string scored by the sum of its bytes.
#[derive(Clone, Copy, Debug, PartialEq, Eq)]
pub struct ByteGenome {
    pub genes: [u8; GENOME_LEN],
}

/// Sum of the first `n` bytes.
pub open spec fn byte_sum(s: Seq<u8>, n: int) -> int
    decreases n,
{
    if n <= 0 {
        0
    } else {
        byte_sum(s, n - 1) + s[n - 1]
    }
}

/// Sum of all bytes.
pub open spec fn total(s: Seq<u8>) -> int {
    byte_sum(s, s.len() as int)
}

/// Both sequences with every position from `split` on exchanged.
pub open spec fn swap_tail(a: Seq<u8>, b: Seq<u8>, split: int) -> (Seq<u8>, Seq<u8>) {
    (
        Seq::new(a.len(), |i: int| if i < split { a[i] } else { b[i] }),
        Seq::new(b.len(), |i: int| if i < split { b[i] } else { a[i] }),
    )
}

/// The greedy choice: the candidate, unless it scores lower than the value it
/// would replace.
pub open spec fn keep_if_no_worse(orig: Seq<u8>, cand: Seq<u8>) -> Seq<u8> {
    if total(cand) >= total(orig) {
        cand
    } else {
        orig
    }
}

proof fn lemma_byte_sum_bound(s: Seq<u8>, n: int)
    requires
        0 <= n <= s.len(),
    ensures
        0 <= byte_sum(s, n) <= 255 * n,
    decreases n,
{
    if n > 0 {
        lemma_byte_sum_bound(s, n - 1);
    }
}

impl ByteGenome {
    /// The genome with every byte zero.
    pub fn zeroed() -> (g: ByteGenome)
        ensures
            forall|i: int| 0 <= i < GENOME_LEN ==> g.genes[i] == 0,
    {
        ByteGenome { genes: [0u8; GENOME_LEN] }
    }

    /// The genome holding the given bytes.
    pub fn from_bytes(genes: [u8; GENOME_LEN]) -> (g: ByteGenome)
        ensures
            g.genes@ == genes@,
    {
        ByteGenome { genes }
    }

    /// Sum of the bytes.
    pub fn sum(&self) -> (u: u32)
        ensures
            u as int == total(self.genes@),
    {
        let mut acc: u32 = 0;
        let mut i: usize = 0;
        while i < GENOME_LEN
            invariant
                i <= GENOME_LEN,
                self.genes@.len() == GENOME_LEN,
                acc as int == byte_sum(self.genes@, i as int),
            decreases GENOME_LEN - i,
        {
            proof {
                lemma_byte_sum_bound(self.genes@, i as int);
            }
            acc = acc + self.genes[i] as u32;
            i = i + 1;
        }
        acc
    }

    /// Greedy one-point crossover at `split`: every position from `split` on
    /// is exchanged, and each side that would score lower than before keeps
    /// its old value.
    pub fn crossover_at(&mut self, other: &mut ByteGenome, split: usize)
        requires
            1 <= split < GENOME_LEN,
        ensures
            final(self).genes@ == keep_if_no_worse(
                old(self).genes@,
                swap_tail(old(self).genes@, old(other).genes@, split as int).0,
            ),
            final(other).genes@ == keep_if_no_worse(
                old(other).genes@,
                swap_tail(old(self).genes@, old(other).genes@, split as int).1,
            ),
            total(final(self).genes@) >= total(old(self).genes@),
            total(final(other).genes@) >= total(old(other).genes@),
    {
        let before_a = *self;
        let before_b = *other;
        let u1 = self.sum();
        let u2 = other.sum();
        let mut i: usize = split;
        while i < GENOME_LEN
            invariant
                split <= i <= GENOME_LEN,
                self.genes@.len() == GENOME_LEN,
                other.genes@.len() == GENOME_LEN,
                forall|k: int| 0 <= k < GENOME_LEN ==> self.genes@[k] == (if k < i { swap_tail(before_a.genes@, before_b.genes@, split as int).0[k] } else { before_a.genes@[k] }),
                forall|k: int| 0 <= k < GENOME_LEN ==> other.genes@[k] == (if k < i { swap_tail(before_a.genes@, before_b.genes@, split as int).1[k] } else { before_b.genes@[k] }),
            decreases GENOME_LEN - i,
        {
            let t = self.genes[i];
            self.genes[i] = other.genes[i];
            other.genes[i] = t;
            i = i + 1;
        }
        assert(self.genes@ =~= swap_tail(before_a.genes@, before_b.genes@, split as int).0);
        assert(other.genes@ =~= swap_tail(before_a.genes@, before_b.genes@, split as int).1);
        if self.sum() < u1 {
            *self = before_a;
        }
        if other.sum() < u2 {
            *other = before_b;
        }
    }

    /// Greedy point mutation: byte `pos` becomes `value`, unless that lowers
    /// the score, in which case the genome is left as it was.
    pub fn mutate_at(&mut self, pos: usize, value: u8)
        requires
            pos < GENOME_LEN,
        ensures
            final(self).genes@ == keep_if_no_worse(old(self).genes@, old(self).genes@.update(pos as int, value)),
            total(final(self).genes@) >= total(old(self).genes@),
    {
        let u1 = self.sum();
        let prev = self.genes[pos];
        self.genes[pos] = value;
        if self.sum() < u1 {
            self.genes[pos] = prev;
            assert(self.genes@ =~= old(self).genes@);
        }
    }
}

impl ByteGenome {
    /// Greedy one-point crossover at a split point drawn from `rng` in
    /// `[1, GENOME_LEN - 1]`.
    pub fn random_crossover(&mut self, other: &mut ByteGenome, rng: &mut rand::XorShiftRng)
        ensures
            exists|s: int|
                1 <= s < GENOME_LEN && final(self).genes@ == keep_if_no_worse(
                    old(self).genes@,
                    swap_tail(old(self).genes@, old(other).genes@, s).0,
                ) && final(other).genes@ == keep_if_no_worse(
                    old(other).genes@,
                    #[trigger] swap_tail(old(self).genes@, old(other).genes@, s).1,
                ),
            total(final(self).genes@) >= total(old(self).genes@),
            total(final(other).genes@) >= total(old(other).genes@),
    {
        let split = draw_in(rng, 1, GENOME_LEN);
        self.crossover_at(other, split);
    }

    /// Greedy point mutation at a position and to a value drawn from `rng`.
    pub fn random_mutate(&mut self, rng: &mut rand::XorShiftRng)
        ensures
            exists|p: int, v: u8|
                0 <= p < GENOME_LEN && final(self).genes@ == keep_if_no_worse(
                    old(self).genes@,
                    #[trigger] old(self).genes@.update(p, v),
                ),
            total(final(self).genes@) >= total(old(self).genes@),
    {
        let pos = draw_in(rng, 0, GENOME_LEN);
        let value = draw_in(rng, 0, 256) as u8;
        self.mutate_at(pos, value);
    }
}

impl Phenotype for ByteGenome {
    open spec fn score(&self) -> nat {
        total(self.genes@) as nat
    }

    fn init(&mut self, rng: &mut rand::XorShiftRng) {
        let mut i: usize = 0;
        while i < GENOME_LEN
            invariant
                i <= GENOME_LEN,
                self.genes@.len() == GENOME_LEN,
            decreases GENOME_LEN - i,
        {
            self.genes[i] = draw_in(rng, 0, 256) as u8;
            i = i + 1;
        }
    }

    fn utility(&self) -> (u: u32) {
        proof {
            lemma_byte_sum_bound(self.genes@, GENOME_LEN as int);
        }
        self.sum()
    }

    fn crossover(&mut self, other: &mut ByteGenome, rng: &mut rand::XorShiftRng) {
        proof {
            lemma_byte_sum_bound(old(self).genes@, GENOME_LEN as int);
            lemma_byte_sum_bound(old(other).genes@, GENOME_LEN as int);
        }
        self.random_crossover(other, rng);
    }

    fn mutate(&mut self, rng: &mut rand::XorShiftRng) {
        proof {
            lemma_byte_sum_bound(old(self).genes@, GENOME_LEN as int);
        }
        self.random_mutate(rng);
    }
}

} // verus!
