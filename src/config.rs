use vstd::prelude::*;

verus! {

/// Largest population a worker accepts: the utilities of a population must
/// sum within 64 bits.
pub const MAX_POPULATION: usize = 0xffff_ffff;

/// Why a configuration was rejected.
#[derive(Clone, Copy, Debug, PartialEq, Eq, Structural)]
pub enum ConfigError {
    /// The ring has no workers.
    EmptyRing,
    /// The ring index is not below the ring size.
    IndexOutOfRing,
    /// The population has no individuals.
    EmptyPopulation,
    /// The population is larger than `MAX_POPULATION`.
    PopulationTooLarge,
    /// A mutation, crossover or migration count exceeds the population size.
    CountExceedsPopulation,
}

/// The settings of one worker, fixed for its lifetime.
#[derive(Clone, Copy, Debug, PartialEq, Eq, Structural)]
pub struct WorkerConfig {
    pub index: usize,
    pub num_workers: usize,
    pub phenotype_goal: u32,
    pub population_count: usize,
    pub generations_max: usize,
    pub mutate_count: usize,
    pub crossover_count: usize,
    pub migrate_count: usize,
}

/// The error for the given settings, in the order the checks are made, or
/// none when they are acceptable.
pub open spec fn config_error(
    index: usize,
    num_workers: usize,
    population_count: usize,
    mutate_count: usize,
    crossover_count: usize,
    migrate_count: usize,
) -> Option<ConfigError> {
    if num_workers == 0 {
        Some(ConfigError::EmptyRing)
    } else if index >= num_workers {
        Some(ConfigError::IndexOutOfRing)
    } else if population_count == 0 {
        Some(ConfigError::EmptyPopulation)
    } else if population_count > MAX_POPULATION {
        Some(ConfigError::PopulationTooLarge)
    } else if mutate_count > population_count || crossover_count > population_count
        || migrate_count > population_count {
        Some(ConfigError::CountExceedsPopulation)
    } else {
        None
    }
}

impl WorkerConfig {
    /// The configuration is acceptable.
    pub open spec fn valid(&self) -> bool {
        config_error(
            self.index,
            self.num_workers,
            self.population_count,
            self.mutate_count,
            self.crossover_count,
            self.migrate_count,
        ) is None
    }

    /// Builds a configuration, rejecting an empty ring, an index outside the
    /// ring, an empty or oversized population, and any count larger than the
    /// population.
    pub fn new(
        index: usize,
        num_workers: usize,
        phenotype_goal: u32,
        population_count: usize,
        generations_max: usize,
        mutate_count: usize,
        crossover_count: usize,
        migrate_count: usize,
    ) -> (r: Result<WorkerConfig, ConfigError>)
        ensures
            match config_error(index, num_workers, population_count, mutate_count, crossover_count, migrate_count) {
                Some(e) => r == Err::<WorkerConfig, ConfigError>(e),
                None => r == Ok::<WorkerConfig, ConfigError>(WorkerConfig {
                    index,
                    num_workers,
                    phenotype_goal,
                    population_count,
                    generations_max,
                    mutate_count,
                    crossover_count,
                    migrate_count,
                }),
            },
    {
        if num_workers == 0 {
            Err(ConfigError::EmptyRing)
        } else if index >= num_workers {
            Err(ConfigError::IndexOutOfRing)
        } else if population_count == 0 {
            Err(ConfigError::EmptyPopulation)
        } else if population_count > MAX_POPULATION {
            Err(ConfigError::PopulationTooLarge)
        } else if mutate_count > population_count || crossover_count > population_count
            || migrate_count > population_count {
            Err(ConfigError::CountExceedsPopulation)
        } else {
            Ok(WorkerConfig {
                index,
                num_workers,
                phenotype_goal,
                population_count,
                generations_max,
                mutate_count,
                crossover_count,
                migrate_count,
            })
        }
    }

    /// Whether the configuration is acceptable; a configuration built by
    /// `new` always is.
    pub fn is_valid(&self) -> (r: bool)
        ensures
            r == self.valid(),
    {
        self.num_workers != 0 && self.index < self.num_workers && self.population_count != 0
            && self.population_count <= MAX_POPULATION && self.mutate_count <= self.population_count
            && self.crossover_count <= self.population_count
            && self.migrate_count <= self.population_count
    }

    /// This worker starts the handshake.
    pub fn is_initiator(&self) -> (r: bool)
        ensures
            r == (self.index == 0),
    {
        self.index == 0
    }

    /// This worker reports the result to the coordinator.
    pub fn is_last(&self) -> (r: bool)
        requires
            self.valid(),
        ensures
            r == (self.index == self.num_workers - 1),
    {
        self.index == self.num_workers - 1
    }
}

/// The configurations of a whole ring, one per index, all sharing the
/// given settings; rejected as `WorkerConfig::new` rejects them.
pub fn ring_configs(
    num_workers: usize,
    phenotype_goal: u32,
    population_count: usize,
    generations_max: usize,
    mutate_count: usize,
    crossover_count: usize,
    migrate_count: usize,
) -> (r: Result<Vec<WorkerConfig>, ConfigError>)
    ensures
        match config_error(0, num_workers, population_count, mutate_count, crossover_count, migrate_count) {
            Some(e) => r == Err::<Vec<WorkerConfig>, ConfigError>(e),
            None => r is Ok && r->Ok_0.len() == num_workers && forall|i: int| 0 <= i < num_workers ==>
                (#[trigger] r->Ok_0[i]) == (WorkerConfig {
                    index: i as usize,
                    num_workers,
                    phenotype_goal,
                    population_count,
                    generations_max,
                    mutate_count,
                    crossover_count,
                    migrate_count,
                }),
        },
{
    let mut out: Vec<WorkerConfig> = Vec::new();
    if num_workers == 0 {
        return Err(ConfigError::EmptyRing);
    }
    let mut i: usize = 0;
    while i < num_workers
        invariant
            i <= num_workers,
            i > 0 ==> config_error(0, num_workers, population_count, mutate_count, crossover_count, migrate_count) is None,
            forall|k: int| 0 <= k < out.len() ==>
                (#[trigger] out[k]) == (WorkerConfig {
                    index: k as usize,
                    num_workers,
                    phenotype_goal,
                    population_count,
                    generations_max,
                    mutate_count,
                    crossover_count,
                    migrate_count,
                }),
            out.len() == i,
        decreases num_workers - i,
    {
        match WorkerConfig::new(i, num_workers, phenotype_goal, population_count, generations_max,
            mutate_count, crossover_count, migrate_count) {
            Ok(c) => out.push(c),
            Err(e) => return Err(e),
        }
        i = i + 1;
    }
    Ok(out)
}

} // verus!
