//! A ring of cooperating genetic-algorithm workers: selection, greedy
//! variation, index-implicit migration, the two-pass termination handshake
//! and the best-propagation pass, each as verified logic.

mod aggregation;
mod config;
mod genome;
mod migration;
mod msg;
mod phenotype;
mod population;
mod rng;
mod selection;
mod termination;
mod worker;

pub use aggregation::{keep_better, lemma_aggregation_max, line_winner};
pub use config::{config_error, ring_configs, ConfigError, WorkerConfig, MAX_POPULATION};
pub use genome::{byte_sum, keep_if_no_worse, swap_tail, total, ByteGenome, GENOME_LEN};
pub use migration::{
    distinct_slots, exchange, exchange_out, gather, lemma_migration_conserves,
    lemma_migration_conserves_ring, multiset_sum, ring_after, ring_migrated, ring_multiset,
    ring_outgoing, slot_column, slots_below, take_outgoing, write_incoming, write_prefix,
};
pub use msg::{Msg, ProtocolError};
pub use phenotype::Phenotype;
pub use population::{evaluate, init_population, is_first_best};
pub use rng::{rng_from_seed, shared_rng, SHARED_SEED};
pub use selection::{cumulative_of, draw_select, prefix_sums, roulette_pick, select, sum_of};
pub use termination::{
    agreed, any_done, first_pass_sent, lemma_handshake_agrees, lemma_termination_monotone,
    pass_on, pass_on_spec, second_pass_sent,
};
pub use worker::{as_msgs, bred, drawn_pair, expects, touched, handing_on, opening, relay, Phase, Step, Worker};
