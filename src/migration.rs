use vstd::prelude::*;
use vstd::multiset::{group_multiset_axioms, Multiset};
use vstd::seq_lib::{lemma_multiset_commutative, to_multiset_update};

verus! {

/// The values at the given slots, in order.
pub open spec fn gather<T>(s: Seq<T>, idx: Seq<usize>) -> Seq<T> {
    Seq::new(idx.len(), |j: int| s[idx[j] as int])
}

/// `s` after the first `n` writes `s[idx[j]] = vals[j]`, made in order.
pub open spec fn write_prefix<T>(s: Seq<T>, idx: Seq<usize>, vals: Seq<T>, n: int) -> Seq<T>
    decreases n,
{
    if n <= 0 {
        s
    } else {
        write_prefix(s, idx, vals, n - 1).update(idx[n - 1] as int, vals[n - 1])
    }
}

/// What a non-initiating worker sends on: for each `j`, the value that slot
/// `idx[j]` held just before the `j`-th received value was written into it.
pub open spec fn exchange_out<T>(s: Seq<T>, idx: Seq<usize>, vals: Seq<T>) -> Seq<T> {
    Seq::new(idx.len(), |j: int| write_prefix(s, idx, vals, j)[idx[j] as int])
}

/// Every slot index lies below `n`.
pub open spec fn slots_below(idx: Seq<usize>, n: int) -> bool {
    forall|j: int| 0 <= j < idx.len() ==> (#[trigger] idx[j]) < n
}

proof fn lemma_write_prefix_len<T>(s: Seq<T>, idx: Seq<usize>, vals: Seq<T>, n: int)
    requires
        0 <= n <= idx.len(),
        slots_below(idx, s.len() as int),
    ensures
        write_prefix(s, idx, vals, n).len() == s.len(),
    decreases n,
{
    if n > 0 {
        lemma_write_prefix_len(s, idx, vals, n - 1);
    }
}

/// The individuals a worker sends out from the chosen slots.
pub fn take_outgoing<T: Copy>(pop: &Vec<T>, idx: &Vec<usize>) -> (out: Vec<T>)
    requires
        slots_below(idx@, pop.len() as int),
    ensures
        out@ == gather(pop@, idx@),
{
    let mut out: Vec<T> = Vec::new();
    let mut j: usize = 0;
    while j < idx.len()
        invariant
            j <= idx.len(),
            slots_below(idx@, pop.len() as int),
            out@ == gather(pop@, idx@).subrange(0, j as int),
        decreases idx.len() - j,
    {
        let k = idx[j];
        out.push(pop[k]);
        j = j + 1;
        assert(out@ =~= gather(pop@, idx@).subrange(0, j as int));
    }
    assert(out@ =~= gather(pop@, idx@));
    out
}

/// The initiator's receiving half: the received individuals are written, in
/// order, into the slots it sent from.
pub fn write_incoming<T: Copy>(pop: &mut Vec<T>, idx: &Vec<usize>, incoming: &Vec<T>)
    requires
        slots_below(idx@, old(pop).len() as int),
        incoming.len() == idx.len(),
    ensures
        final(pop)@ == write_prefix(old(pop)@, idx@, incoming@, idx.len() as int),
        final(pop).len() == old(pop).len(),
{
    let mut j: usize = 0;
    while j < idx.len()
        invariant
            j <= idx.len() == incoming.len(),
            slots_below(idx@, old(pop).len() as int),
            pop@ == write_prefix(old(pop)@, idx@, incoming@, j as int),
            pop.len() == old(pop).len(),
        decreases idx.len() - j,
    {
        proof {
            lemma_write_prefix_len(old(pop)@, idx@, incoming@, j as int);
        }
        let k = idx[j];
        pop.set(k, incoming[j]);
        j = j + 1;
    }
}

/// A non-initiating worker's exchange: for each received individual, the
/// slot's current value is set aside for sending on and the received one
/// takes its place.
pub fn exchange<T: Copy>(pop: &mut Vec<T>, idx: &Vec<usize>, incoming: &Vec<T>) -> (out: Vec<T>)
    requires
        slots_below(idx@, old(pop).len() as int),
        incoming.len() == idx.len(),
    ensures
        final(pop)@ == write_prefix(old(pop)@, idx@, incoming@, idx.len() as int),
        final(pop).len() == old(pop).len(),
        out@ == exchange_out(old(pop)@, idx@, incoming@),
{
    let mut out: Vec<T> = Vec::new();
    let mut j: usize = 0;
    while j < idx.len()
        invariant
            j <= idx.len() == incoming.len(),
            slots_below(idx@, old(pop).len() as int),
            pop@ == write_prefix(old(pop)@, idx@, incoming@, j as int),
            pop.len() == old(pop).len(),
            out@ == exchange_out(old(pop)@, idx@, incoming@).subrange(0, j as int),
        decreases idx.len() - j,
    {
        proof {
            lemma_write_prefix_len(old(pop)@, idx@, incoming@, j as int);
        }
        let k = idx[j];
        out.push(pop[k]);
        pop.set(k, incoming[j]);
        j = j + 1;
        assert(out@ =~= exchange_out(old(pop)@, idx@, incoming@).subrange(0, j as int));
    }
    assert(out@ =~= exchange_out(old(pop)@, idx@, incoming@));
    out
}

/// No slot index occurs twice.
pub open spec fn distinct_slots(idx: Seq<usize>) -> bool {
    forall|a: int, b: int| 0 <= a < b < idx.len() ==> idx[a] != idx[b]
}

/// What worker `i` of the ring sends on in one migration pass.
pub open spec fn ring_outgoing<T>(pops: Seq<Seq<T>>, idx: Seq<usize>, i: int) -> Seq<T>
    decreases i,
{
    if i <= 0 {
        gather(pops[0], idx)
    } else {
        exchange_out(pops[i], idx, ring_outgoing(pops, idx, i - 1))
    }
}

/// Worker `i`'s population after one migration pass: the initiator writes
/// what comes back from the last worker, every other worker writes what its
/// predecessor sent.
pub open spec fn ring_after<T>(pops: Seq<Seq<T>>, idx: Seq<usize>, i: int) -> Seq<T> {
    let incoming = if i == 0 {
        ring_outgoing(pops, idx, pops.len() - 1)
    } else {
        ring_outgoing(pops, idx, i - 1)
    };
    write_prefix(pops[i], idx, incoming, idx.len() as int)
}

/// The values held in slot `k` across the ring, worker by worker.
pub open spec fn slot_column<T>(pops: Seq<Seq<T>>, k: int) -> Seq<T> {
    Seq::new(pops.len(), |i: int| pops[i][k])
}

/// The ring after one migration pass.
pub open spec fn ring_migrated<T>(pops: Seq<Seq<T>>, idx: Seq<usize>) -> Seq<Seq<T>> {
    Seq::new(pops.len(), |i: int| ring_after(pops, idx, i))
}

proof fn lemma_write_prefix_distinct<T>(s: Seq<T>, idx: Seq<usize>, vals: Seq<T>, n: int, k: int)
    requires
        0 <= n <= idx.len(),
        0 <= k < s.len(),
        distinct_slots(idx),
        slots_below(idx, s.len() as int),
    ensures
        write_prefix(s, idx, vals, n).len() == s.len(),
        forall|j: int| 0 <= j < n && idx[j] == k ==> write_prefix(s, idx, vals, n)[k] == vals[j],
        (forall|j: int| 0 <= j < n ==> idx[j] != k) ==> write_prefix(s, idx, vals, n)[k] == s[k],
    decreases n,
{
    lemma_write_prefix_len(s, idx, vals, n);
    if n > 0 {
        lemma_write_prefix_distinct(s, idx, vals, n - 1, k);
        lemma_write_prefix_len(s, idx, vals, n - 1);
    }
}

proof fn lemma_outgoing_is_gather<T>(pops: Seq<Seq<T>>, idx: Seq<usize>, p: int, i: int)
    requires
        0 <= i < pops.len(),
        forall|w: int| 0 <= w < pops.len() ==> (#[trigger] pops[w]).len() == p,
        distinct_slots(idx),
        slots_below(idx, p),
    ensures
        ring_outgoing(pops, idx, i) == gather(pops[i], idx),
    decreases i,
{
    if i > 0 {
        lemma_outgoing_is_gather(pops, idx, p, i - 1);
        let vals = ring_outgoing(pops, idx, i - 1);
        assert forall|j: int| 0 <= j < idx.len() implies
            #[trigger] exchange_out(pops[i], idx, vals)[j] == gather(pops[i], idx)[j] by {
            lemma_write_prefix_distinct(pops[i], idx, vals, j, idx[j] as int);
        }
        assert(exchange_out(pops[i], idx, vals) =~= gather(pops[i], idx));
    }
}

proof fn lemma_rotation_multiset<T>(c: Seq<T>, r: Seq<T>)
    requires
        c.len() >= 1,
        r.len() == c.len(),
        r[0] == c[c.len() - 1],
        forall|i: int| 1 <= i < c.len() ==> r[i] == c[i - 1],
    ensures
        r.to_multiset() == c.to_multiset(),
{
    let n = c.len() as int;
    let head = c.subrange(0, n - 1);
    let tail = c.subrange(n - 1, n);
    assert(c =~= head + tail);
    assert(r =~= tail + head);
    lemma_multiset_commutative(head, tail);
    lemma_multiset_commutative(tail, head);
}

/// One migration pass around a ring of equal-sized populations, with slots
/// chosen without repetition, keeps, for every slot, the multiset of the
/// individuals that the workers hold there; so no individual is created or
/// lost, only passed one hop along the ring.
pub proof fn lemma_migration_conserves<T>(pops: Seq<Seq<T>>, idx: Seq<usize>, p: int, k: int)
    requires
        pops.len() >= 1,
        forall|w: int| 0 <= w < pops.len() ==> (#[trigger] pops[w]).len() == p,
        distinct_slots(idx),
        slots_below(idx, p),
        0 <= k < p,
    ensures
        forall|w: int| 0 <= w < pops.len() ==> (#[trigger] ring_migrated(pops, idx)[w]).len() == p,
        slot_column(ring_migrated(pops, idx), k).to_multiset() == slot_column(pops, k).to_multiset(),
{
    let n = pops.len() as int;
    let after = ring_migrated(pops, idx);
    assert forall|w: int| 0 <= w < n implies
        (#[trigger] after[w]).len() == p
            && after[w][k] == (if exists|j: int| 0 <= j < idx.len() && idx[j] == k {
                pops[if w == 0 { n - 1 } else { w - 1 }][k]
            } else {
                pops[w][k]
            }) by {
        let src = if w == 0 { n - 1 } else { w - 1 };
        lemma_outgoing_is_gather(pops, idx, p, src);
        let vals = ring_outgoing(pops, idx, src);
        lemma_write_prefix_distinct(pops[w], idx, vals, idx.len() as int, k);
    }
    if exists|j: int| 0 <= j < idx.len() && idx[j] == k {
        lemma_rotation_multiset(slot_column(pops, k), slot_column(after, k));
    } else {
        assert(slot_column(after, k) =~= slot_column(pops, k));
    }
}

/// The sum of a sequence of multisets.
pub open spec fn multiset_sum<T>(ms: Seq<Multiset<T>>) -> Multiset<T>
    decreases ms.len(),
{
    if ms.len() == 0 {
        Multiset::empty()
    } else {
        multiset_sum(ms.drop_last()).add(ms.last())
    }
}

/// All individuals held across a ring, counted with multiplicity.
pub open spec fn ring_multiset<T>(pops: Seq<Seq<T>>) -> Multiset<T> {
    multiset_sum(Seq::new(pops.len(), |w: int| pops[w].to_multiset()))
}

proof fn lemma_sum_concat<T>(a: Seq<Multiset<T>>, b: Seq<Multiset<T>>)
    ensures
        multiset_sum(a + b) == multiset_sum(a).add(multiset_sum(b)),
    decreases b.len(),
{
    broadcast use group_multiset_axioms;

    if b.len() == 0 {
        assert(a + b =~= a);
        assert(multiset_sum(a).add(Multiset::empty()) =~= multiset_sum(a));
    } else {
        lemma_sum_concat(a, b.drop_last());
        assert((a + b).drop_last() =~= a + b.drop_last());
        assert(multiset_sum(a + b) =~= multiset_sum(a).add(multiset_sum(b)));
    }
}

proof fn lemma_sum_pointwise<T>(x: Seq<Multiset<T>>, y: Seq<Multiset<T>>, z: Seq<Multiset<T>>)
    requires
        x.len() == y.len() == z.len(),
        forall|w: int| 0 <= w < z.len() ==> #[trigger] z[w] == x[w].add(y[w]),
    ensures
        multiset_sum(z) == multiset_sum(x).add(multiset_sum(y)),
    decreases z.len(),
{
    broadcast use group_multiset_axioms;

    if z.len() > 0 {
        lemma_sum_pointwise(x.drop_last(), y.drop_last(), z.drop_last());
        assert(multiset_sum(z) =~= multiset_sum(x).add(multiset_sum(y)));
    } else {
        assert(multiset_sum(z) =~= multiset_sum(x).add(multiset_sum(y)));
    }
}

proof fn lemma_sum_rotation<T>(c: Seq<Multiset<T>>, r: Seq<Multiset<T>>)
    requires
        c.len() >= 1,
        r.len() == c.len(),
        r[0] == c[c.len() - 1],
        forall|i: int| 1 <= i < c.len() ==> r[i] == c[i - 1],
    ensures
        multiset_sum(r) == multiset_sum(c),
{
    broadcast use group_multiset_axioms;

    let n = c.len() as int;
    let head = c.subrange(0, n - 1);
    let tail = c.subrange(n - 1, n);
    assert(c =~= head + tail);
    assert(r =~= tail + head);
    lemma_sum_concat(head, tail);
    lemma_sum_concat(tail, head);
    assert(multiset_sum(r) =~= multiset_sum(c));
}

proof fn lemma_row_exchange<T>(s: Seq<T>, idx: Seq<usize>, vals: Seq<T>, n: int)
    requires
        0 <= n <= idx.len(),
        vals.len() == idx.len(),
        distinct_slots(idx),
        slots_below(idx, s.len() as int),
    ensures
        write_prefix(s, idx, vals, n).to_multiset().add(gather(s, idx).take(n).to_multiset())
            == s.to_multiset().add(vals.take(n).to_multiset()),
    decreases n,
{
    broadcast use group_multiset_axioms;
    broadcast use vstd::seq_lib::group_to_multiset_ensures;

    if n == 0 {
        assert(gather(s, idx).take(0) =~= Seq::<T>::empty());
        assert(vals.take(0) =~= Seq::<T>::empty());
        assert(write_prefix(s, idx, vals, 0).to_multiset().add(Multiset::empty())
            =~= s.to_multiset().add(Multiset::empty()));
    } else {
        lemma_row_exchange(s, idx, vals, n - 1);
        let k = idx[n - 1] as int;
        let prev = write_prefix(s, idx, vals, n - 1);
        lemma_write_prefix_distinct(s, idx, vals, n - 1, k);
        assert(prev[k] == s[k]);
        to_multiset_update(prev, k, vals[n - 1]);
        assert(gather(s, idx).take(n) =~= gather(s, idx).take(n - 1).push(s[k]));
        assert(vals.take(n) =~= vals.take(n - 1).push(vals[n - 1]));
        assert(prev.to_multiset().count(s[k]) > 0) by {
            assert(prev.contains(s[k])) by {
                assert(prev[k] == s[k]);
            }
        }
        let v = vals[n - 1];
        let w_ms = write_prefix(s, idx, vals, n).to_multiset();
        assert(write_prefix(s, idx, vals, n) == prev.update(k, v));
        assert(w_ms == prev.to_multiset().insert(v).remove(s[k]));
        let g0 = gather(s, idx).take(n - 1);
        let v0 = vals.take(n - 1);
        assert(g0.push(s[k]).to_multiset() == g0.to_multiset().insert(s[k]));
        assert(v0.push(v).to_multiset() == v0.to_multiset().insert(v));
        assert(prev.to_multiset().add(g0.to_multiset()) == s.to_multiset().add(v0.to_multiset()));
        assert forall|y: T| #[trigger] w_ms.add(g0.to_multiset().insert(s[k])).count(y)
            == s.to_multiset().add(v0.to_multiset().insert(v)).count(y) by {
            assert(prev.to_multiset().add(g0.to_multiset()).count(y)
                == s.to_multiset().add(v0.to_multiset()).count(y));
        }
        assert(w_ms.add(g0.to_multiset().insert(s[k])) =~= s.to_multiset().add(v0.to_multiset().insert(v)));
    }
}

/// One migration pass around a ring of equal-sized populations, with slots
/// chosen without repetition, keeps the multiset of all individuals held
/// across the ring: migration moves individuals between workers and never
/// creates or destroys one.
pub proof fn lemma_migration_conserves_ring<T>(pops: Seq<Seq<T>>, idx: Seq<usize>, p: int)
    requires
        pops.len() >= 1,
        forall|w: int| 0 <= w < pops.len() ==> (#[trigger] pops[w]).len() == p,
        distinct_slots(idx),
        slots_below(idx, p),
    ensures
        ring_multiset(ring_migrated(pops, idx)) == ring_multiset(pops),
{
    broadcast use group_multiset_axioms;

    let n = pops.len() as int;
    let after = ring_migrated(pops, idx);
    let old_ms = Seq::new(n as nat, |w: int| pops[w].to_multiset());
    let new_ms = Seq::new(n as nat, |w: int| after[w].to_multiset());
    let sent = Seq::new(n as nat, |w: int| gather(pops[w], idx).to_multiset());
    let came = Seq::new(n as nat, |w: int| sent[if w == 0 { n - 1 } else { w - 1 }]);
    let lhs = Seq::new(n as nat, |w: int| new_ms[w].add(sent[w]));
    let rhs = Seq::new(n as nat, |w: int| old_ms[w].add(came[w]));
    assert forall|w: int| 0 <= w < n implies #[trigger] lhs[w] == rhs[w] by {
        let src = if w == 0 { n - 1 } else { w - 1 };
        lemma_outgoing_is_gather(pops, idx, p, src);
        let vals = gather(pops[src], idx);
        lemma_row_exchange(pops[w], idx, vals, idx.len() as int);
        assert(gather(pops[w], idx).take(idx.len() as int) =~= gather(pops[w], idx));
        assert(vals.take(idx.len() as int) =~= vals);
    }
    assert(lhs =~= rhs);
    lemma_sum_pointwise(new_ms, sent, lhs);
    lemma_sum_pointwise(old_ms, came, rhs);
    lemma_sum_rotation(sent, came);
    let a = multiset_sum(new_ms);
    let b = multiset_sum(old_ms);
    let x = multiset_sum(sent);
    assert(a.add(x) == b.add(x));
    assert forall|v: T| a.count(v) == b.count(v) by {
        assert(a.add(x).count(v) == b.add(x).count(v));
    }
    assert(a =~= b);
}

} // verus!
