use crate::rng::next_word;
use vstd::prelude::*;

verus! {

/// Sum of the first `n` utilities.
pub open spec fn sum_of(u: Seq<u32>, n: int) -> int
    decreases n,
{
    if n <= 0 {
        0
    } else {
        sum_of(u, n - 1) + u[n - 1]
    }
}

/// The cumulative utility array: entry `i` is the sum of utilities `0..=i`.
pub open spec fn cumulative_of(u: Seq<u32>) -> Seq<u64> {
    Seq::new(u.len(), |i: int| sum_of(u, i + 1) as u64)
}

proof fn lemma_sum_bounds(u: Seq<u32>, n: int)
    requires
        0 <= n <= u.len(),
    ensures
        0 <= sum_of(u, n) <= n * 0xffff_ffff,
    decreases n,
{
    if n > 0 {
        lemma_sum_bounds(u, n - 1);
    }
}

/// Prefix sums of the utilities: the integer form of the normalised
/// cumulative array, whose last entry is the total rather than one.
pub fn prefix_sums(utilities: &Vec<u32>) -> (c: Vec<u64>)
    requires
        utilities.len() <= 0xffff_ffff,
    ensures
        c@ == cumulative_of(utilities@),
        forall|i: int| 0 <= i < c.len() ==> c[i] <= utilities.len() * 0xffff_ffff,
        forall|a: int, b: int| 0 <= a <= b < c.len() ==> c[a] <= c[b],
{
    let mut c: Vec<u64> = Vec::new();
    let mut acc: u64 = 0;
    let mut i: usize = 0;
    while i < utilities.len()
        invariant
            i <= utilities.len() <= 0xffff_ffff,
            acc == sum_of(utilities@, i as int),
            c@ == cumulative_of(utilities@).subrange(0, i as int),
            forall|k: int| 0 <= k < c.len() ==> c[k] <= utilities.len() * 0xffff_ffff,
            forall|k: int| 0 <= k < c.len() ==> c[k] <= acc,
            forall|a: int, b: int| 0 <= a <= b < c.len() ==> c[a] <= c[b],
        decreases utilities.len() - i,
    {
        proof {
            lemma_sum_bounds(utilities@, i as int + 1);
            assert(i as int + 1 <= utilities.len());
            assert((i as int + 1) * 0xffff_ffff <= utilities.len() * 0xffff_ffff) by (nonlinear_arith)
                requires i as int + 1 <= utilities.len();
            assert(utilities.len() * 0xffff_ffff <= 0xffff_ffff * 0xffff_ffff) by (nonlinear_arith)
                requires utilities.len() <= 0xffff_ffff;
        }
        acc = acc + utilities[i] as u64;
        c.push(acc);
        i = i + 1;
        assert(c@ =~= cumulative_of(utilities@).subrange(0, i as int));
    }
    assert(c@ =~= cumulative_of(utilities@));
    c
}

/// Roulette-wheel selection on a cumulative array whose last entry is the
/// total and a draw `r` below it: the smallest index `i >= 1` with
/// `c[i] > r`, or the last index when none qualifies. Index 0 comes out only
/// when the array has one entry.
///
/// In the integer form a draw `r` in `[0, total)` stands for the real draw
/// `(r + 1) / total`, so `c[i] > r` is the real `C[i] >= draw`.
pub fn select(c: &Vec<u64>, r: u64) -> (i: usize)
    requires
        c.len() >= 1,
        forall|a: int, b: int| 0 <= a <= b < c.len() ==> c[a] <= c[b],
        r < c[c.len() - 1],
    ensures
        i < c.len(),
        c.len() == 1 ==> i == 0,
        c.len() > 1 ==> i >= 1,
        c[i as int] > r,
        i >= 2 ==> c[i - 1] <= r,
        forall|k: int| 1 <= k < i ==> c[k] <= r,
{
    let n = c.len();
    if n == 1 {
        return 0;
    }
    let mut i: usize = 1;
    while i < n && c[i] <= r
        invariant
            1 <= i <= n,
            n == c.len(),
            forall|k: int| 1 <= k < i ==> c[k] <= r,
        decreases n - i,
    {
        i = i + 1;
    }
    if i == n {
        n - 1
    } else {
        i
    }
}

/// Index `i` is what `select` gives on `c` for the draw `r`, which lies
/// below the total.
pub open spec fn roulette_pick(c: Seq<u64>, i: int, r: int) -> bool {
    &&& 0 <= r < c[c.len() - 1]
    &&& 0 <= i < c.len()
    &&& c[i] > r
    &&& forall|k: int| 1 <= k < i ==> c[k] <= r
    &&& (c.len() == 1 ==> i == 0)
    &&& (c.len() > 1 ==> i >= 1)
}

/// Draws one word from `rng`, scales it into `[0, total)` and selects.
/// Exactly one word is drawn whatever the array holds, which keeps workers
/// that share a seed in step.
pub fn draw_select(rng: &mut rand::XorShiftRng, c: &Vec<u64>) -> (i: usize)
    requires
        c.len() >= 1,
        forall|a: int, b: int| 0 <= a <= b < c.len() ==> c[a] <= c[b],
        0 < c[c.len() - 1] <= 0xffff_ffff_ffff_ffff,
    ensures
        i < c.len(),
        c.len() > 1 ==> i >= 1,
        c.len() == 1 ==> i == 0,
        exists|r: int| #[trigger] roulette_pick(c@, i as int, r),
{
    let w = next_word(rng);
    let total = c[c.len() - 1];
    assert((w as u128) * (total as u128) <= 0xffff_ffff * 0xffff_ffff_ffff_ffff) by (nonlinear_arith)
        requires w <= 0xffff_ffff, total <= 0xffff_ffff_ffff_ffff;
    let scaled: u128 = (w as u128) * (total as u128);
    assert(scaled < 0x1_0000_0000 * total) by (nonlinear_arith)
        requires scaled == (w as u128) * (total as u128), w < 0x1_0000_0000nat, total > 0;
    let r: u128 = scaled / 0x1_0000_0000;
    assert(r < total) by (nonlinear_arith)
        requires r == scaled / 0x1_0000_0000, scaled < 0x1_0000_0000 * total;
    let i = select(c, r as u64);
    assert(roulette_pick(c@, i as int, r as int));
    i
}

} // verus!
