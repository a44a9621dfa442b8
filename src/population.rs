use crate::phenotype::Phenotype;
use vstd::prelude::*;

verus! {

/// `b` is the first slot holding the largest utility.
pub open spec fn is_first_best(u: Seq<u32>, b: int) -> bool {
    &&& 0 <= b < u.len()
    &&& forall|k: int| 0 <= k < u.len() ==> u[k] <= u[b]
    &&& forall|k: int| 0 <= k < b ==> u[k] < u[b]
}

/// A population of `size` individuals, each a copy of `template` randomised
/// in place before anything reads it.
pub fn init_population<T: Phenotype + Copy>(template: T, size: usize, rng: &mut rand::XorShiftRng) -> (pop: Vec<T>)
    ensures
        pop.len() == size,
{
    let mut pop: Vec<T> = Vec::new();
    let mut i: usize = 0;
    while i < size
        invariant
            i <= size,
            pop.len() == i,
        decreases size - i,
    {
        let mut p = template;
        p.init(rng);
        pop.push(p);
        i = i + 1;
    }
    pop
}

/// Scores every individual afresh and finds the first one with the largest
/// utility.
pub fn evaluate<T: Phenotype>(pop: &Vec<T>) -> (r: (Vec<u32>, usize))
    requires
        pop.len() >= 1,
    ensures
        r.0@.len() == pop.len(),
        forall|i: int| 0 <= i < pop.len() ==> r.0@[i] as nat == (#[trigger] pop[i]).score(),
        is_first_best(r.0@, r.1 as int),
{
    let mut u: Vec<u32> = Vec::new();
    let mut best: usize = 0;
    let mut i: usize = 0;
    while i < pop.len()
        invariant
            i <= pop.len(),
            u.len() == i,
            forall|k: int| 0 <= k < i ==> u@[k] as nat == (#[trigger] pop[k]).score(),
            i == 0 ==> best == 0,
            i > 0 ==> is_first_best(u@, best as int),
        decreases pop.len() - i,
    {
        let x = pop[i].utility();
        u.push(x);
        if x > u[best] {
            best = i;
        }
        i = i + 1;
    }
    (u, best)
}

} // verus!
