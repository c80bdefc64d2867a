//! An elitist genetic-algorithm engine over fixed-length boolean gene
//! vectors: individuals carry genes and an externally assigned fitness,
//! populations advance generation by generation through descending-fitness
//! selection, uniform multi-parent crossover, and per-gene mutation.

pub mod fitness;
pub mod individual;
pub mod population;
mod rng;

pub use individual::Individual;
pub use population::init_population;
pub use population::ConfigError;
pub use population::Population;
