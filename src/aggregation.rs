use vstd::prelude::*;

verus! {

/// What worker `i` forwards in the best-propagation pass, over a line of
/// `(best, individual)` entries: worker 0 forwards its own entry; every later
/// worker forwards the received entry if its best is strictly larger, and its
/// own entry otherwise.
pub open spec fn line_winner<T>(entries: Seq<(u32, T)>, i: int) -> (u32, T)
    decreases i,
{
    if i <= 0 {
        entries[0]
    } else {
        let left = line_winner(entries, i - 1);
        if left.0 > entries[i].0 {
            left
        } else {
            entries[i]
        }
    }
}

/// The comparison each worker makes on the entry from its predecessor: the
/// received entry wins only with a strictly larger best.
pub fn keep_better<T>(own_best: u32, own: T, left_best: u32, left: T) -> (r: (u32, T))
    ensures
        r == if left_best > own_best { (left_best, left) } else { (own_best, own) },
{
    if left_best > own_best {
        (left_best, left)
    } else {
        (own_best, own)
    }
}

/// The entry that reaches the coordinator carries the largest best of the
/// line together with the individual that a worker holding that best owned,
/// however long the line and wherever the largest best sits.
pub proof fn lemma_aggregation_max<T>(entries: Seq<(u32, T)>, i: int)
    requires
        0 <= i < entries.len(),
    ensures
        forall|k: int| 0 <= k <= i ==> (#[trigger] entries[k]).0 <= line_winner(entries, i).0,
        exists|k: int| 0 <= k <= i && #[trigger] entries[k] == line_winner(entries, i),
    decreases i,
{
    if i > 0 {
        lemma_aggregation_max(entries, i - 1);
        let left = line_winner(entries, i - 1);
        if left.0 > entries[i].0 {
            let k = choose|k: int| 0 <= k <= i - 1 && #[trigger] entries[k] == left;
            assert(0 <= k <= i && entries[k] == line_winner(entries, i));
        } else {
            assert(entries[i] == line_winner(entries, i));
        }
    } else {
        assert(entries[0] == line_winner(entries, 0));
    }
}

} // verus!
