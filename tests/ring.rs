use std::collections::VecDeque;

use ring_ga::{
    draw_select, evaluate, exchange, pass_on, keep_better, prefix_sums, rng_from_seed, shared_rng,
    ring_configs, select, init_population, take_outgoing, write_incoming, ByteGenome, ConfigError,
    Msg, Phase, Phenotype, ProtocolError, Worker, WorkerConfig, GENOME_LEN,
};

struct RingOutcome {
    result: ByteGenome,
    generations: Vec<usize>,
    finals: Vec<Vec<ByteGenome>>,
}

/// Runs every worker of a ring in this process, each edge a FIFO queue.
fn run_ring(mut workers: Vec<Worker<ByteGenome>>) -> RingOutcome {
    let n = workers.len();
    let mut queues: Vec<VecDeque<Msg<ByteGenome>>> = (0..n).map(|_| VecDeque::new()).collect();
    let mut waiting = vec![false; n];
    let mut result = None;
    for i in 0..n {
        let step = workers[i].begin();
        for m in step.sends {
            queues[(i + 1) % n].push_back(m);
        }
        waiting[i] = step.awaits;
    }
    let mut rounds = 0;
    while waiting.iter().any(|w| *w) {
        rounds += 1;
        assert!(rounds < 1_000_000, "ring did not finish");
        for i in 0..n {
            if !waiting[i] {
                continue;
            }
            if let Some(m) = queues[i].pop_front() {
                let step = workers[i].step(m).expect("protocol desynchronised");
                for s in step.sends {
                    queues[(i + 1) % n].push_back(s);
                }
                if let Some(r) = step.report {
                    assert_eq!(i, n - 1);
                    result = Some(r);
                }
                waiting[i] = step.awaits;
            }
        }
    }
    for w in workers.iter() {
        assert_eq!(w.phase, Phase::Finished);
    }
    RingOutcome {
        result: result.expect("no report"),
        generations: workers.iter().map(|w| w.generation).collect(),
        finals: workers.iter().map(|w| w.population.clone()).collect(),
    }
}

fn workers_for(configs: &[WorkerConfig]) -> Vec<Worker<ByteGenome>> {
    configs
        .iter()
        .enumerate()
        .map(|(i, c)| Worker::new(*c, ByteGenome::zeroed(), [7, 11, 13, i as u32 + 1]))
        .collect()
}

fn score(g: &ByteGenome) -> u32 {
    g.genes.iter().map(|b| *b as u32).sum()
}

#[test]
fn select_returns_first_index_past_draw() {
    let c = vec![2u64, 5, 5, 9];
    assert_eq!(select(&c, 0), 1);
    assert_eq!(select(&c, 4), 1);
    assert_eq!(select(&c, 5), 3);
    assert_eq!(select(&c, 8), 3);
}

#[test]
fn select_single_entry_is_zero() {
    assert_eq!(select(&vec![3u64], 2), 0);
}

#[test]
fn select_satisfies_threshold_for_every_draw() {
    let c = prefix_sums(&vec![1u32, 0, 4, 2, 0, 3]);
    assert_eq!(c, vec![1, 1, 5, 7, 7, 10]);
    for r in 0..10u64 {
        let i = select(&c, r);
        assert!(i >= 1 && i < c.len());
        assert!(c[i] > r);
        assert!(i == 1 || c[i - 1] <= r);
    }
    assert_eq!(select(&c, 9), 5);
}

#[test]
fn draw_select_stays_in_range() {
    let mut rng = rng_from_seed([1, 2, 3, 4]).unwrap();
    let c = prefix_sums(&vec![0u32, 0, 1, 0]);
    for _ in 0..100 {
        assert_eq!(draw_select(&mut rng, &c), 2);
    }
}

#[test]
fn shared_seed_gives_same_draws() {
    let c = prefix_sums(&vec![1u32; 64]);
    let mut a = shared_rng();
    let mut b = shared_rng();
    let mut other = rng_from_seed([4, 3, 2, 1]).unwrap();
    let da: Vec<usize> = (0..16).map(|_| draw_select(&mut a, &c)).collect();
    let db: Vec<usize> = (0..16).map(|_| draw_select(&mut b, &c)).collect();
    let dc: Vec<usize> = (0..16).map(|_| draw_select(&mut other, &c)).collect();
    assert_eq!(da, db);
    assert_ne!(da, dc);
    assert!(da.iter().any(|i| *i != da[0]));
}

#[test]
fn zero_seed_is_refused() {
    assert!(rng_from_seed([0, 0, 0, 0]).is_none());
    assert!(rng_from_seed([0, 0, 0, 1]).is_some());
}

#[test]
fn crossover_swaps_tails_when_no_worse() {
    let mut a = ByteGenome::from_bytes([0; GENOME_LEN]);
    let mut b = ByteGenome::from_bytes([9; GENOME_LEN]);
    a.crossover_at(&mut b, 30);
    // a gains; b would lose, so b keeps its bytes.
    assert_eq!(&a.genes[..30], &[0u8; 30][..]);
    assert_eq!(&a.genes[30..], &[9u8, 9][..]);
    assert_eq!(b.genes, [9u8; GENOME_LEN]);
}

#[test]
fn crossover_never_lowers_either_score() {
    let mut rng = rng_from_seed([5, 6, 7, 8]).unwrap();
    for _ in 0..50 {
        let mut a = ByteGenome::zeroed();
        let mut b = ByteGenome::zeroed();
        a.init(&mut rng);
        b.init(&mut rng);
        let (ua, ub) = (a.utility(), b.utility());
        a.crossover(&mut b, &mut rng);
        assert!(a.utility() >= ua);
        assert!(b.utility() >= ub);
    }
}

#[test]
fn mutate_keeps_gain_and_reverts_loss() {
    let mut g = ByteGenome::from_bytes([100; GENOME_LEN]);
    g.mutate_at(3, 200);
    assert_eq!(g.genes[3], 200);
    assert_eq!(g.sum(), 100 * 31 + 200);
    g.mutate_at(4, 1);
    assert_eq!(g.genes[4], 100);
    let mut rng = rng_from_seed([9, 9, 9, 9]).unwrap();
    for _ in 0..100 {
        let before = g.utility();
        g.mutate(&mut rng);
        assert!(g.utility() >= before);
    }
}

#[test]
fn genome_sum_is_byte_total() {
    let mut bytes = [0u8; GENOME_LEN];
    bytes[0] = 255;
    bytes[31] = 1;
    assert_eq!(ByteGenome::from_bytes(bytes).sum(), 256);
    assert_eq!(ByteGenome::from_bytes([255; GENOME_LEN]).utility(), 255 * 32);
}

#[test]
fn evaluate_breaks_ties_by_first_occurrence() {
    let mut g = [ByteGenome::zeroed(); 4];
    g[1] = ByteGenome::from_bytes([5; GENOME_LEN]);
    g[3] = ByteGenome::from_bytes([5; GENOME_LEN]);
    let (u, b) = evaluate(&g.to_vec());
    assert_eq!(u, vec![0, 160, 0, 160]);
    assert_eq!(b, 1);
}

#[test]
fn handshake_first_pass_values() {
    assert!(!pass_on(0, true, false));
    assert!(pass_on(0, false, true));
    assert!(pass_on(2, false, true));
    assert!(pass_on(2, true, false));
    assert!(!pass_on(2, false, false));
}

#[test]
fn keep_better_prefers_strictly_larger() {
    assert_eq!(keep_better(5, 'a', 7, 'b'), (7, 'b'));
    assert_eq!(keep_better(5, 'a', 5, 'b'), (5, 'a'));
    assert_eq!(keep_better(5, 'a', 2, 'b'), (5, 'a'));
}

#[test]
fn migration_exchange_moves_one_hop() {
    let pop0 = vec![10u32, 11, 12, 13];
    let pop1 = vec![20u32, 21, 22, 23];
    let slots = vec![2usize, 0];
    let out0 = take_outgoing(&pop0, &slots);
    assert_eq!(out0, vec![12, 10]);
    let mut p1 = pop1.clone();
    let out1 = exchange(&mut p1, &slots, &out0);
    assert_eq!(out1, vec![22, 20]);
    assert_eq!(p1, vec![10, 21, 12, 23]);
    let mut p0 = pop0.clone();
    write_incoming(&mut p0, &slots, &out1);
    assert_eq!(p0, vec![20, 11, 22, 13]);
    let mut all: Vec<u32> = pop0.iter().chain(pop1.iter()).cloned().collect();
    let mut after: Vec<u32> = p0.iter().chain(p1.iter()).cloned().collect();
    all.sort();
    after.sort();
    assert_eq!(all, after);
}

#[test]
fn config_rejections() {
    assert_eq!(WorkerConfig::new(0, 0, 1, 4, 3, 1, 1, 1), Err(ConfigError::EmptyRing));
    assert_eq!(WorkerConfig::new(2, 2, 1, 4, 3, 1, 1, 1), Err(ConfigError::IndexOutOfRing));
    assert_eq!(WorkerConfig::new(0, 2, 1, 0, 3, 0, 0, 0), Err(ConfigError::EmptyPopulation));
    assert_eq!(WorkerConfig::new(0, 2, 1, 4, 3, 5, 1, 1), Err(ConfigError::CountExceedsPopulation));
    assert_eq!(WorkerConfig::new(0, 2, 1, 4, 3, 1, 5, 1), Err(ConfigError::CountExceedsPopulation));
    assert_eq!(WorkerConfig::new(0, 2, 1, 4, 3, 1, 1, 5), Err(ConfigError::CountExceedsPopulation));
    let c = WorkerConfig::new(1, 2, 9, 4, 3, 1, 2, 3).unwrap();
    assert_eq!((c.index, c.num_workers, c.phenotype_goal, c.migrate_count), (1, 2, 9, 3));
    assert!(c.is_last());
    assert!(c.is_valid());
    let mut bad = c;
    bad.migrate_count = 5;
    assert!(!bad.is_valid());
    assert!(!c.is_initiator());
}

#[test]
fn ring_configs_index_each_worker() {
    let cs = ring_configs(3, 100, 8, 2, 1, 1, 1).unwrap();
    assert_eq!(cs.iter().map(|c| c.index).collect::<Vec<_>>(), vec![0, 1, 2]);
    assert_eq!(ring_configs(0, 100, 8, 2, 1, 1, 1), Err(ConfigError::EmptyRing));
}

#[test]
fn message_unwraps() {
    assert_eq!(Msg::<u8>::Done(true).unwrap_done(), Ok(true));
    assert_eq!(Msg::<u8>::Best(3).unwrap_done(), Err(ProtocolError::NotDone));
    assert_eq!(Msg::<u8>::Phenotype(4).unwrap_pheno(), Ok(4));
    assert_eq!(Msg::<u8>::Done(false).unwrap_pheno(), Err(ProtocolError::NotPhenotype));
    assert_eq!(Msg::<u8>::Best(9).unwrap_best(), Ok(9));
    assert_eq!(Msg::<u8>::Phenotype(1).unwrap_best(), Err(ProtocolError::NotBest));
}

#[test]
fn worker_rejects_wrong_variant() {
    let cfg = WorkerConfig::new(1, 2, 10_000, 4, 3, 1, 1, 1).unwrap();
    let mut w = Worker::new(cfg, ByteGenome::zeroed(), [1, 1, 1, 1]);
    let s = w.begin();
    assert!(s.sends.is_empty() && s.awaits);
    assert_eq!(w.step(Msg::Best(1)).err(), Some(ProtocolError::NotDone));
    assert_eq!(w.phase, Phase::FirstPass);
}

#[test]
fn single_worker_stops_at_generation_cap() {
    let goal = 255 * GENOME_LEN as u32 + 1;
    let configs = ring_configs(1, goal, 4, 3, 1, 2, 1).unwrap();
    let out = run_ring(workers_for(&configs));
    assert_eq!(out.generations, vec![3]);
    let best = out.finals[0].iter().map(score).max().unwrap();
    assert_eq!(score(&out.result), best);
    assert!(out.finals[0].contains(&out.result));
}

fn run_seeded(at: usize) -> RingOutcome {
    let configs = ring_configs(3, 255 * GENOME_LEN as u32, 4, 5, 1, 1, 1).unwrap();
    let mut workers = workers_for(&configs);
    workers[at].population[2] = ByteGenome::from_bytes([255; GENOME_LEN]);
    let (u, b) = evaluate(&workers[at].population);
    workers[at].utilities = u;
    workers[at].best = workers[at].utilities[b];
    workers[at].winner = workers[at].population[b];
    workers[at].local_done = true;
    run_ring(workers)
}

#[test]
fn seeded_individual_reported_from_generation_zero() {
    let out = run_seeded(1);
    assert_eq!(out.generations, vec![0, 0, 0]);
    assert_eq!(out.result, ByteGenome::from_bytes([255; GENOME_LEN]));
}

#[test]
fn goal_at_initiator_or_last_stops_every_worker() {
    for at in [0usize, 2] {
        let out = run_seeded(at);
        assert_eq!(out.generations, vec![0, 0, 0]);
        assert_eq!(out.result, ByteGenome::from_bytes([255; GENOME_LEN]));
    }
}

#[test]
fn ring_result_is_global_best() {
    let configs = ring_configs(4, 255 * GENOME_LEN as u32 + 1, 6, 4, 2, 3, 2).unwrap();
    let out = run_ring(workers_for(&configs));
    assert_eq!(out.generations, vec![4, 4, 4, 4]);
    let best = out.finals.iter().flatten().map(score).max().unwrap();
    assert_eq!(score(&out.result), best);
}

#[test]
fn init_randomises_every_slot() {
    let mut rng = rng_from_seed([3, 1, 4, 1]).unwrap();
    let pop = init_population(ByteGenome::zeroed(), 5, &mut rng);
    assert_eq!(pop.len(), 5);
    for g in pop.iter() {
        assert!(g.genes.iter().any(|b| *b != g.genes[0]));
    }
    assert_ne!(pop[0], pop[1]);
}

#[test]
fn reproduction_records_its_draws() {
    let cfg = WorkerConfig::new(0, 1, 255 * GENOME_LEN as u32 + 1, 6, 2, 2, 3, 0).unwrap();
    let mut w = Worker::new(cfg, ByteGenome::zeroed(), [2, 7, 1, 8]);
    let s = w.begin();
    let before = w.population.clone();
    let s = w.step(s.sends[0]).unwrap();
    let s = w.step(s.sends[0]).unwrap();
    assert_eq!(w.generation, 1);
    assert_eq!(w.pairs.len(), 3);
    assert_eq!(w.mutated.len(), 2);
    for (i, g) in w.population.iter().enumerate() {
        let crossed = w.pairs.iter().any(|(j, k)| j != k && (*j == i || *k == i));
        if !crossed && !w.mutated.contains(&i) {
            assert_eq!(*g, before[i]);
        }
        assert!(score(g) >= score(&before[i]));
    }
    assert!(s.awaits);
}

#[test]
fn random_operators_keep_gains_only() {
    let mut rng = rng_from_seed([8, 6, 7, 5]).unwrap();
    let mut a = ByteGenome::from_bytes([1; GENOME_LEN]);
    let mut b = ByteGenome::from_bytes([200; GENOME_LEN]);
    a.random_crossover(&mut b, &mut rng);
    assert!(score(&a) > 32);
    assert_eq!(b, ByteGenome::from_bytes([200; GENOME_LEN]));
    let mut changed = false;
    for _ in 0..20 {
        let before = a;
        a.random_mutate(&mut rng);
        assert!(score(&a) >= score(&before));
        changed |= a != before;
    }
    assert!(changed);
}
