//! Stochastic array transforms for simulating photon-counting noise.
//!
//! The library offers elementwise operations on dense n-dimensional arrays:
//! binomial thinning of integer counts (`binom_split`, with a seeded,
//! bit-reproducible variant `binom_split_det`), planning of Poisson
//! array generation (`pois_plan`; the float draws themselves live with
//! the binding layer), complex magnitude-squared reduction (`sqr_abs`)
//! and narrowing conversion (`to_i32`). The thinning engine partitions an
//! array into fixed-size row chunks; the deterministic variant derives one
//! pseudorandom stream per chunk by jump-ahead from a single 256-bit seed,
//! so results do not depend on how chunks are scheduled.

pub mod array;
pub mod engine;
pub mod error;
pub mod ops;
pub mod param;
pub mod rng;
pub mod sampler;
pub mod timing;
pub mod words;

pub use array::NDArray;
pub use error::DomainError;
pub use error::ParameterError;
pub use ops::Complex;
pub use ops::DEFAULT_CHUNK_ROWS;
pub use ops::binom_split;
pub use ops::binom_split_det;
pub use ops::pois_plan;
pub use ops::sqr_abs;
pub use ops::to_i32;
pub use param::RealBits;
pub use rng::Xoshiro256pp;
pub use timing::TimePassed;
pub use words::rotl;
pub use words::u32_from_64;
pub use words::u64_from_2_32;
pub use words::vec_u32_from_64;
pub use words::vec_u64_from_2_32;
