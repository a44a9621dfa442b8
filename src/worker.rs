use crate::aggregation::keep_better;
use crate::config::WorkerConfig;
use crate::migration::{exchange, exchange_out, gather, slots_below, take_outgoing, write_incoming};
use crate::msg::{Msg, ProtocolError};
use crate::phenotype::Phenotype;
use crate::population::{evaluate, init_population, is_first_best};
use crate::rng::{draw_in, next_word, seeded_rng, shared_rng};
use crate::selection::{cumulative_of, draw_select, prefix_sums, roulette_pick};
use crate::migration::write_prefix;
use crate::termination::{pass_on, pass_on_spec};
use vstd::prelude::*;

verus! {

/// What a worker waits for next.
#[derive(Clone, Copy, Debug, PartialEq, Eq, Structural)]
pub enum Phase {
    /// Nothing has happened yet: `begin` comes first.
    Start,
    /// The first-pass flag of the handshake.
    FirstPass,
    /// The second-pass flag of the handshake.
    SecondPass,
    /// Migrating individuals from the predecessor.
    Migrants,
    /// The predecessor's best utility.
    LeftBest,
    /// The predecessor's winning individual.
    LeftWinner,
    /// Nothing: the worker is done.
    Finished,
}

/// What the caller does after a step: send `sends` forward in order, hand
/// `report` to the coordinator if there is one, then receive one message
/// from the predecessor if `awaits`.
pub struct Step<T> {
    pub sends: Vec<Msg<T>>,
    pub report: Option<T>,
    pub awaits: bool,
}

/// One ring position of the search. Its owner moves the messages; the
/// worker decides what they are.
pub struct Worker<T> {
    pub config: WorkerConfig,
    pub population: Vec<T>,
    pub shared_rng: rand::XorShiftRng,
    pub private_rng: rand::XorShiftRng,
    pub utilities: Vec<u32>,
    pub generation: usize,
    pub best: u32,
    pub winner: T,
    pub local_done: bool,
    pub phase: Phase,
    pub slots: Vec<usize>,
    pub incoming: Vec<T>,
    pub left_best: u32,
    /// The slot pairs drawn by the latest reproduction, equal when skipped.
    pub pairs: Vec<(usize, usize)>,
    /// The slots mutated by the latest reproduction.
    pub mutated: Vec<usize>,
}

/// The message a phase expects.
pub open spec fn expects<T>(phase: Phase, m: Msg<T>) -> bool {
    match phase {
        Phase::FirstPass | Phase::SecondPass => m is Done,
        Phase::Migrants | Phase::LeftWinner => m is Phenotype,
        Phase::LeftBest => m is Best,
        _ => false,
    }
}

/// A crossover trial's draw: when some utility is positive, both slots are
/// roulette picks for draws below the total; otherwise the trial is skipped
/// and records one slot twice.
pub open spec fn drawn_pair(c: Seq<u64>, p: (usize, usize)) -> bool {
    if c[c.len() - 1] > 0 {
        (exists|r: int| #[trigger] roulette_pick(c, p.0 as int, r))
            && (exists|r: int| #[trigger] roulette_pick(c, p.1 as int, r))
    } else {
        p.0 == p.1
    }
}

/// Slot `i` was crossed (in a pair of two different slots) or mutated.
pub open spec fn touched(pairs: Seq<(usize, usize)>, mutated: Seq<usize>, i: int) -> bool {
    ||| exists|q: int| 0 <= q < pairs.len() && (#[trigger] pairs[q]).0 != pairs[q].1
        && (pairs[q].0 == i || pairs[q].1 == i)
    ||| exists|q: int| 0 <= q < mutated.len() && #[trigger] mutated[q] == i
}

/// `after` is `before` bred by the recorded draws: `n_cross` crossover
/// trials drawn by utility on the cumulative array `c`, `n_mut` mutations
/// at uniformly drawn slots; a slot that no trial of two different slots and
/// no mutation touched is unchanged, and no slot's score fell.
pub open spec fn bred<T: Phenotype>(
    before: Seq<T>,
    after: Seq<T>,
    c: Seq<u64>,
    pairs: Seq<(usize, usize)>,
    mutated: Seq<usize>,
    n_cross: nat,
    n_mut: nat,
) -> bool {
    &&& pairs.len() == n_cross
    &&& mutated.len() == n_mut
    &&& after.len() == before.len()
    &&& forall|q: int| 0 <= q < pairs.len() ==> #[trigger] drawn_pair(c, pairs[q])
    &&& forall|q: int| 0 <= q < mutated.len() ==> (#[trigger] mutated[q]) < before.len()
    &&& forall|i: int| 0 <= i < after.len() && !touched(pairs, mutated, i) ==> #[trigger] after[i] == before[i]
    &&& forall|i: int| 0 <= i < after.len() ==> (#[trigger] after[i]).score() >= before[i].score()
}

/// Each individual as a message.
pub open spec fn as_msgs<T>(s: Seq<T>) -> Seq<Msg<T>> {
    Seq::new(s.len(), |j: int| Msg::Phenotype(s[j]))
}

/// Appends each individual as a message.
fn push_all<T: Copy>(sends: &mut Vec<Msg<T>>, items: &Vec<T>)
    ensures
        final(sends)@ == old(sends)@ + as_msgs(items@),
{
    let mut j: usize = 0;
    while j < items.len()
        invariant
            j <= items.len(),
            sends@ == old(sends)@ + as_msgs(items@).subrange(0, j as int),
        decreases items.len() - j,
    {
        sends.push(Msg::Phenotype(items[j]));
        j = j + 1;
        assert(sends@ =~= old(sends)@ + as_msgs(items@).subrange(0, j as int));
    }
    assert(as_msgs(items@).subrange(0, j as int) =~= as_msgs(items@));
}

/// What a non-initiating worker passes on in the second pass of the
/// handshake; the initiator passes nothing on at that point.
pub open spec fn relay<T>(index: usize, d: bool) -> Seq<Msg<T>> {
    if index == 0 {
        Seq::empty()
    } else {
        seq![Msg::Done(d)]
    }
}

/// What a worker sends when a generation's handshake opens: the initiator
/// its own flag, every other worker nothing.
pub open spec fn opening<T>(index: usize, local_done: bool) -> Seq<Msg<T>> {
    if index == 0 {
        seq![Msg::Done(local_done)]
    } else {
        Seq::empty()
    }
}

/// What the best-propagation pass hands on from a worker holding
/// `(best, winner)`: the last worker reports the winner to the coordinator,
/// every other worker sends both forward.
pub open spec fn handing_on<T>(last: bool, best: u32, winner: T) -> (Seq<Msg<T>>, Option<T>) {
    if last {
        (Seq::empty(), Some(winner))
    } else {
        (seq![Msg::Best(best), Msg::Phenotype(winner)], None)
    }
}

impl<T: Phenotype + Copy> Worker<T> {
    /// The worker's state is consistent with its configuration.
    pub open spec fn wf(&self) -> bool {
        &&& self.config.valid()
        &&& self.population.len() == self.config.population_count
        &&& self.utilities.len() == self.config.population_count
        &&& self.generation <= self.config.generations_max
        &&& slots_below(self.slots@, self.config.population_count as int)
        &&& self.phase is Migrants ==> {
            &&& self.generation < self.config.generations_max
            &&& self.slots.len() == self.config.migrate_count
            &&& self.incoming.len() < self.config.migrate_count
        }
    }

    /// The utilities, best and winner were just computed from the population.
    pub open spec fn evaluated(&self) -> bool {
        &&& self.utilities.len() == self.population.len()
        &&& forall|i: int| 0 <= i < self.population.len() ==>
            self.utilities@[i] as nat == (#[trigger] self.population@[i]).score()
        &&& exists|b: int| is_first_best(self.utilities@, b) && self.best == self.utilities@[b]
            && self.winner == self.population@[b]
        &&& self.local_done == (self.best >= self.config.phenotype_goal)
    }

    /// A worker at generation 0, its population filled from `template` with
    /// the private generator seeded by `seed` and then scored. The shared
    /// generator starts from `SHARED_SEED`.
    pub fn new(config: WorkerConfig, template: T, seed: [u32; 4]) -> (w: Worker<T>)
        requires
            config.valid(),
            seed[0] != 0 || seed[1] != 0 || seed[2] != 0 || seed[3] != 0,
        ensures
            w.wf(),
            w.evaluated(),
            w.config == config,
            w.generation == 0,
            w.phase == Phase::Start,
    {
        let mut private_rng = seeded_rng(seed[0], seed[1], seed[2], seed[3]);
        let shared_rng = shared_rng();
        let population = init_population(template, config.population_count, &mut private_rng);
        let (utilities, b) = evaluate(&population);
        let best = utilities[b];
        let winner = population[b];
        Worker {
            config,
            population,
            shared_rng,
            private_rng,
            utilities,
            generation: 0,
            best,
            winner,
            local_done: best >= config.phenotype_goal,
            phase: Phase::Start,
            slots: Vec::new(),
            incoming: Vec::new(),
            left_best: 0,
            pairs: Vec::new(),
            mutated: Vec::new(),
        }
    }

    /// Scores the population afresh.
    fn evaluate_generation(&mut self)
        requires
            old(self).wf(),
        ensures
            final(self).wf(),
            final(self).evaluated(),
            *final(self) == (Worker {
                utilities: final(self).utilities,
                best: final(self).best,
                winner: final(self).winner,
                local_done: final(self).local_done,
                ..*old(self)
            }),
    {
        let (utilities, b) = evaluate(&self.population);
        self.best = utilities[b];
        self.winner = self.population[b];
        self.utilities = utilities;
        self.local_done = self.best >= self.config.phenotype_goal;
    }

    /// Selection-driven reproduction: each crossover trial draws two slots by
    /// utility and is skipped when they are equal (or when every utility is
    /// zero), otherwise it crosses the lower slot with the higher; then
    /// `mutate_count` slots are drawn uniformly and mutated. The draws are
    /// recorded in `pairs` and `mutated`.
    fn reproduce(&mut self)
        requires
            old(self).wf(),
        ensures
            final(self).wf(),
            *final(self) == (Worker {
                population: final(self).population,
                shared_rng: final(self).shared_rng,
                private_rng: final(self).private_rng,
                pairs: final(self).pairs,
                mutated: final(self).mutated,
                ..*old(self)
            }),
            bred(
                old(self).population@,
                final(self).population@,
                cumulative_of(old(self).utilities@),
                final(self).pairs@,
                final(self).mutated@,
                old(self).config.crossover_count as nat,
                old(self).config.mutate_count as nat,
            ),
    {
        let n = self.config.population_count;
        let c = prefix_sums(&self.utilities);
        let total = c[n - 1];
        let ghost start = self.population@;
        let ghost before = *self;
        let mut pairs: Vec<(usize, usize)> = Vec::new();
        let mut t: usize = 0;
        while t < self.config.crossover_count
            invariant
                self.wf(),
                n == self.config.population_count,
                c@ == cumulative_of(before.utilities@),
                c.len() == n,
                total == c[n - 1],
                total <= n * 0xffff_ffff,
                forall|a: int, b: int| 0 <= a <= b < c.len() ==> c[a] <= c[b],
                *self == (Worker {
                    population: self.population,
                    shared_rng: self.shared_rng,
                    private_rng: self.private_rng,
                    ..before
                }),
                before == *old(self),
                start == before.population@,
                start.len() == n,
                pairs.len() == t,
                t <= self.config.crossover_count,
                forall|q: int| 0 <= q < t ==> #[trigger] drawn_pair(c@, pairs@[q]),
                forall|i: int| 0 <= i < n ==> (#[trigger] self.population@[i]).score() >= start[i].score(),
                forall|i: int| 0 <= i < n && !touched(pairs@, Seq::empty(), i) ==> #[trigger] self.population@[i] == start[i],
            decreases self.config.crossover_count - t,
        {
            t = t + 1;
            if total == 0 {
                let _ = next_word(&mut self.shared_rng);
                let _ = next_word(&mut self.shared_rng);
                let ghost old_pairs = pairs@;
                pairs.push((0, 0));
                proof {
                    assert forall|i: int| 0 <= i < n && !touched(pairs@, Seq::empty(), i) implies
                        #[trigger] self.population@[i] == start[i] by {
                        assert forall|q: int| 0 <= q < old_pairs.len() && (#[trigger] old_pairs[q]).0 != old_pairs[q].1
                            implies old_pairs[q].0 != i && old_pairs[q].1 != i by {
                            assert(pairs@[q] == old_pairs[q]);
                        }
                    }
                }
                continue;
            }
            proof {
                assert(n * 0xffff_ffff <= 0xffff_ffff * 0xffff_ffff) by (nonlinear_arith)
                    requires n <= 0xffff_ffff;
            }
            let j = draw_select(&mut self.shared_rng, &c);
            let k = draw_select(&mut self.shared_rng, &c);
            let ghost old_pairs = pairs@;
            let ghost mid = self.population@;
            pairs.push((j, k));
            if j != k {
                let (lo, hi) = if j < k { (j, k) } else { (k, j) };
                let mut a = self.population[lo];
                let mut b = self.population[hi];
                a.crossover(&mut b, &mut self.private_rng);
                self.population.set(lo, a);
                self.population.set(hi, b);
            }
            proof {
                assert(pairs@[t - 1] == (j, k));
                assert(c@[c@.len() - 1] == total && total > 0);
                let rj = choose|r: int| #[trigger] roulette_pick(c@, j as int, r);
                let rk = choose|r: int| #[trigger] roulette_pick(c@, k as int, r);
                assert(roulette_pick(c@, (j, k).0 as int, rj));
                assert(roulette_pick(c@, (j, k).1 as int, rk));
                assert(drawn_pair(c@, pairs@[t - 1]));
                assert forall|i: int| 0 <= i < n && !touched(pairs@, Seq::empty(), i) implies
                    #[trigger] self.population@[i] == start[i] by {
                    assert forall|q: int| 0 <= q < old_pairs.len() && (#[trigger] old_pairs[q]).0 != old_pairs[q].1
                        implies old_pairs[q].0 != i && old_pairs[q].1 != i by {
                        assert(pairs@[q] == old_pairs[q]);
                    }
                    if j != k {
                        assert(pairs@[t - 1] == (j, k));
                    }
                    assert(mid[i] == start[i]);
                }
            }
        }
        let mut mutated: Vec<usize> = Vec::new();
        let mut t: usize = 0;
        while t < self.config.mutate_count
            invariant
                self.wf(),
                n == self.config.population_count,
                *self == (Worker {
                    population: self.population,
                    shared_rng: self.shared_rng,
                    private_rng: self.private_rng,
                    ..before
                }),
                before == *old(self),
                start == before.population@,
                start.len() == n,
                mutated.len() == t,
                t <= self.config.mutate_count,
                forall|q: int| 0 <= q < t ==> (#[trigger] mutated@[q]) < n,
                forall|i: int| 0 <= i < n ==> (#[trigger] self.population@[i]).score() >= start[i].score(),
                forall|i: int| 0 <= i < n && !touched(pairs@, mutated@, i) ==> #[trigger] self.population@[i] == start[i],
            decreases self.config.mutate_count - t,
        {
            let j = draw_in(&mut self.shared_rng, 0, n);
            let ghost old_mut = mutated@;
            let ghost mid = self.population@;
            mutated.push(j);
            let mut a = self.population[j];
            a.mutate(&mut self.private_rng);
            self.population.set(j, a);
            t = t + 1;
            proof {
                assert forall|i: int| 0 <= i < n && !touched(pairs@, mutated@, i) implies
                    #[trigger] self.population@[i] == start[i] by {
                    assert(mutated@[t - 1] == j);
                    assert forall|q: int| 0 <= q < old_mut.len() implies (#[trigger] old_mut[q]) != i by {
                        assert(mutated@[q] == old_mut[q]);
                    }
                    assert(mid[i] == start[i]);
                }
            }
        }
        self.pairs = pairs;
        self.mutated = mutated;
    }
}

impl<T: Phenotype + Copy> Worker<T> {
    /// Ends the worker with the best-propagation hand-off of its current
    /// `(best, winner)`.
    fn deliver(&mut self, sends: Vec<Msg<T>>) -> (r: Step<T>)
        requires
            old(self).wf(),
        ensures
            final(self).wf(),
            *final(self) == (Worker { phase: Phase::Finished, ..*old(self) }),
            r.sends@ == sends@ + handing_on(old(self).config.index == old(self).config.num_workers - 1, old(self).best, old(self).winner).0,
            r.report == handing_on(old(self).config.index == old(self).config.num_workers - 1, old(self).best, old(self).winner).1,
            !r.awaits,
    {
        let mut sends = sends;
        self.phase = Phase::Finished;
        if self.config.is_last() {
            Step { sends, report: Some(self.winner), awaits: false }
        } else {
            sends.push(Msg::Best(self.best));
            sends.push(Msg::Phenotype(self.winner));
            Step { sends, report: None, awaits: false }
        }
    }

    /// Reproduces, moves to the next generation, scores it and opens its
    /// handshake.
    fn next_generation(&mut self, sends: Vec<Msg<T>>) -> (r: Step<T>)
        requires
            old(self).wf(),
            old(self).generation < old(self).config.generations_max,
        ensures
            final(self).wf(),
            final(self).evaluated(),
            final(self).config == old(self).config,
            final(self).generation == old(self).generation + 1,
            final(self).phase == Phase::FirstPass,
            final(self).slots == old(self).slots,
            final(self).incoming == old(self).incoming,
            bred(
                old(self).population@,
                final(self).population@,
                cumulative_of(old(self).utilities@),
                final(self).pairs@,
                final(self).mutated@,
                old(self).config.crossover_count as nat,
                old(self).config.mutate_count as nat,
            ),
            r.sends@ == sends@ + opening::<T>(old(self).config.index, final(self).local_done),
            r.report is None,
            r.awaits,
    {
        self.reproduce();
        self.generation = self.generation + 1;
        self.phase = Phase::FirstPass;
        self.evaluate_generation();
        let ghost s0 = sends@;
        let mut sends = sends;
        if self.config.is_initiator() {
            sends.push(Msg::Done(self.local_done));
        }
        assert(sends@ =~= s0 + opening::<T>(old(self).config.index, self.local_done));
        Step { sends, report: None, awaits: true }
    }

    /// Draws the migration slots from the shared generator; the initiator
    /// sends the individuals in them.
    fn begin_migration(&mut self, sends: Vec<Msg<T>>) -> (r: Step<T>)
        requires
            old(self).wf(),
            old(self).generation < old(self).config.generations_max,
        ensures
            final(self).wf(),
            final(self).config == old(self).config,
            final(self).slots.len() == old(self).config.migrate_count,
            old(self).config.migrate_count > 0 ==> {
                &&& *final(self) == (Worker {
                    phase: Phase::Migrants,
                    slots: final(self).slots,
                    incoming: final(self).incoming,
                    shared_rng: final(self).shared_rng,
                    ..*old(self)
                })
                &&& final(self).incoming@.len() == 0
                &&& r.sends@ == sends@ + if old(self).config.index == 0 {
                    as_msgs(gather(old(self).population@, final(self).slots@))
                } else {
                    Seq::empty()
                }
                &&& r.report is None
                &&& r.awaits
            },
            old(self).config.migrate_count == 0 ==> {
                &&& final(self).phase == Phase::FirstPass
                &&& final(self).evaluated()
                &&& bred(
                    old(self).population@,
                    final(self).population@,
                    cumulative_of(old(self).utilities@),
                    final(self).pairs@,
                    final(self).mutated@,
                    old(self).config.crossover_count as nat,
                    old(self).config.mutate_count as nat,
                )
                &&& final(self).generation == old(self).generation + 1
                &&& r.sends@ == sends@ + opening::<T>(old(self).config.index, final(self).local_done)
                &&& r.report is None
                &&& r.awaits
            },
    {
        let n = self.config.population_count;
        let m = self.config.migrate_count;
        let mut slots: Vec<usize> = Vec::new();
        let mut j: usize = 0;
        while j < m
            invariant
                j <= m,
                n == self.config.population_count,
                n > 0,
                slots.len() == j,
                slots_below(slots@, n as int),
                self.wf(),
                *self == (Worker { shared_rng: self.shared_rng, ..*old(self) }),
                m == self.config.migrate_count,
            decreases m - j,
        {
            let k = draw_in(&mut self.shared_rng, 0, n);
            slots.push(k);
            j = j + 1;
        }
        let ghost s0 = sends@;
        let mut sends = sends;
        if self.config.is_initiator() {
            let out = take_outgoing(&self.population, &slots);
            push_all(&mut sends, &out);
        } else {
            assert(sends@ =~= s0 + Seq::empty());
        }
        self.slots = slots;
        self.incoming = Vec::new();
        if m == 0 {
            self.next_generation(sends)
        } else {
            self.phase = Phase::Migrants;
            Step { sends, report: None, awaits: true }
        }
    }
}

impl<T: Phenotype + Copy> Worker<T> {
    /// Opens the first generation's handshake.
    pub fn begin(&mut self) -> (r: Step<T>)
        requires
            old(self).wf(),
            old(self).phase == Phase::Start,
        ensures
            final(self).wf(),
            *final(self) == (Worker { phase: Phase::FirstPass, ..*old(self) }),
            r.sends@ == opening::<T>(old(self).config.index, old(self).local_done),
            r.report is None,
            r.awaits,
    {
        let mut sends: Vec<Msg<T>> = Vec::new();
        if self.config.is_initiator() {
            sends.push(Msg::Done(self.local_done));
        }
        assert(sends@ =~= opening::<T>(self.config.index, self.local_done));
        self.phase = Phase::FirstPass;
        Step { sends, report: None, awaits: true }
    }

    /// Takes one message from the predecessor and decides what follows.
    ///
    /// Handshake: in the first pass the initiator passes on what came back
    /// to it and every other worker joins its own flag in; in the second pass
    /// every worker but the initiator passes the value on unchanged. The
    /// value of the second pass, or reaching the last generation, stops the
    /// search; otherwise migration starts. Migration: once all individuals
    /// have arrived the initiator writes them into the slots it sent from,
    /// and every other worker exchanges them for those it sends on; then the
    /// next generation is bred. Best-propagation: the received entry replaces
    /// the worker's own only with a strictly larger best.
    pub fn step(&mut self, m: Msg<T>) -> (r: Result<Step<T>, ProtocolError>)
        requires
            old(self).wf(),
        ensures
            final(self).wf(),
            final(self).config == old(self).config,
            r is Err <==> !expects(old(self).phase, m),
            r is Err ==> *final(self) == *old(self),
            old(self).phase == Phase::FirstPass && m is Done ==> {
                &&& *final(self) == (Worker { phase: Phase::SecondPass, ..*old(self) })
                &&& r->Ok_0.sends@ == seq![Msg::<T>::Done(pass_on_spec(old(self).config.index as int, old(self).local_done, m->Done_0))]
                &&& r->Ok_0.report is None
                &&& r->Ok_0.awaits
            },
            old(self).phase == Phase::SecondPass && m is Done ==> {
                let d = m->Done_0;
                let index = old(self).config.index;
                let stop = d || old(self).generation == old(self).config.generations_max;
                let last = index == old(self).config.num_workers - 1;
                &&& stop && index != 0 ==> {
                    &&& *final(self) == (Worker { phase: Phase::LeftBest, ..*old(self) })
                    &&& r->Ok_0.sends@ == relay::<T>(index, d)
                    &&& r->Ok_0.report is None
                    &&& r->Ok_0.awaits
                }
                &&& stop && index == 0 ==> {
                    &&& *final(self) == (Worker { phase: Phase::Finished, ..*old(self) })
                    &&& r->Ok_0.sends@ == handing_on(last, old(self).best, old(self).winner).0
                    &&& r->Ok_0.report == handing_on(last, old(self).best, old(self).winner).1
                    &&& !r->Ok_0.awaits
                }
                &&& !stop && old(self).config.migrate_count > 0 ==> {
                    &&& *final(self) == (Worker {
                        phase: Phase::Migrants,
                        slots: final(self).slots,
                        incoming: final(self).incoming,
                        shared_rng: final(self).shared_rng,
                        ..*old(self)
                    })
                    &&& final(self).slots.len() == old(self).config.migrate_count
                    &&& final(self).incoming.len() == 0
                    &&& r->Ok_0.sends@ == relay::<T>(index, d) + if index == 0 {
                        as_msgs(gather(old(self).population@, final(self).slots@))
                    } else {
                        Seq::empty()
                    }
                    &&& r->Ok_0.awaits
                }
                &&& !stop && old(self).config.migrate_count == 0 ==> {
                    &&& final(self).phase == Phase::FirstPass
                    &&& final(self).generation == old(self).generation + 1
                    &&& final(self).evaluated()
                    &&& bred(
                        old(self).population@,
                        final(self).population@,
                        cumulative_of(old(self).utilities@),
                        final(self).pairs@,
                        final(self).mutated@,
                        old(self).config.crossover_count as nat,
                        old(self).config.mutate_count as nat,
                    )
                    &&& r->Ok_0.sends@ == relay::<T>(index, d) + opening::<T>(index, final(self).local_done)
                    &&& r->Ok_0.awaits
                }
            },
            old(self).phase == Phase::Migrants && m is Phenotype ==> {
                let inc = old(self).incoming@.push(m->Phenotype_0);
                let slots = old(self).slots@;
                &&& inc.len() < old(self).config.migrate_count ==> {
                    &&& *final(self) == (Worker { incoming: final(self).incoming, ..*old(self) })
                    &&& final(self).incoming@ == inc
                    &&& r->Ok_0.sends@.len() == 0
                    &&& r->Ok_0.awaits
                }
                &&& inc.len() == old(self).config.migrate_count ==> {
                    &&& final(self).phase == Phase::FirstPass
                    &&& final(self).generation == old(self).generation + 1
                    &&& final(self).evaluated()
                    &&& bred(
                        write_prefix(old(self).population@, slots, inc, slots.len() as int),
                        final(self).population@,
                        cumulative_of(old(self).utilities@),
                        final(self).pairs@,
                        final(self).mutated@,
                        old(self).config.crossover_count as nat,
                        old(self).config.mutate_count as nat,
                    )
                    &&& r->Ok_0.sends@ == (if old(self).config.index == 0 {
                        Seq::empty()
                    } else {
                        as_msgs(exchange_out(old(self).population@, slots, inc))
                    }) + opening::<T>(old(self).config.index, final(self).local_done)
                    &&& r->Ok_0.awaits
                }
            },
            old(self).phase == Phase::LeftBest && m is Best ==> {
                &&& *final(self) == (Worker { phase: Phase::LeftWinner, left_best: m->Best_0, ..*old(self) })
                &&& r->Ok_0.sends@.len() == 0
                &&& r->Ok_0.report is None
                &&& r->Ok_0.awaits
            },
            old(self).phase == Phase::LeftWinner && m is Phenotype ==> {
                let last = old(self).config.index == old(self).config.num_workers - 1;
                let w = if old(self).left_best > old(self).best {
                    (old(self).left_best, m->Phenotype_0)
                } else {
                    (old(self).best, old(self).winner)
                };
                &&& *final(self) == (Worker {
                    phase: Phase::Finished,
                    best: w.0,
                    winner: w.1,
                    ..*old(self)
                })
                &&& r->Ok_0.sends@ == handing_on(last, w.0, w.1).0
                &&& r->Ok_0.report == handing_on(last, w.0, w.1).1
                &&& !r->Ok_0.awaits
            },
    {
        match self.phase {
            Phase::FirstPass => {
                let d = m.unwrap_done()?;
                let out = pass_on(self.config.index, self.local_done, d);
                self.phase = Phase::SecondPass;
                Ok(Step { sends: vec![Msg::Done(out)], report: None, awaits: true })
            },
            Phase::SecondPass => {
                let d = m.unwrap_done()?;
                let mut sends: Vec<Msg<T>> = Vec::new();
                if !self.config.is_initiator() {
                    sends.push(Msg::Done(d));
                }
                assert(sends@ =~= relay::<T>(self.config.index, d));
                if d || self.generation == self.config.generations_max {
                    if self.config.is_initiator() {
                        Ok(self.deliver(sends))
                    } else {
                        self.phase = Phase::LeftBest;
                        Ok(Step { sends, report: None, awaits: true })
                    }
                } else {
                    Ok(self.begin_migration(sends))
                }
            },
            Phase::Migrants => {
                let p = m.unwrap_pheno()?;
                self.incoming.push(p);
                if self.incoming.len() < self.config.migrate_count {
                    return Ok(Step { sends: Vec::new(), report: None, awaits: true });
                }
                let mut sends: Vec<Msg<T>> = Vec::new();
                self.phase = Phase::FirstPass;
                if self.config.is_initiator() {
                    write_incoming(&mut self.population, &self.slots, &self.incoming);
                } else {
                    let out = exchange(&mut self.population, &self.slots, &self.incoming);
                    push_all(&mut sends, &out);
                }
                assert(sends@ =~= (if self.config.index == 0 {
                    Seq::empty()
                } else {
                    as_msgs(exchange_out(old(self).population@, self.slots@, self.incoming@))
                }));
                Ok(self.next_generation(sends))
            },
            Phase::LeftBest => {
                let b = m.unwrap_best()?;
                self.left_best = b;
                self.phase = Phase::LeftWinner;
                Ok(Step { sends: Vec::new(), report: None, awaits: true })
            },
            Phase::LeftWinner => {
                let p = m.unwrap_pheno()?;
                let (b, w) = keep_better(self.best, self.winner, self.left_best, p);
                self.best = b;
                self.winner = w;
                Ok(self.deliver(Vec::new()))
            },
            Phase::Start | Phase::Finished => Err(ProtocolError::Finished),
        }
    }
}

} // verus!
