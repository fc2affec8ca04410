//! Snowflake-like 64-bit unique identifiers: a 35-bit window of 100 ms since
//! a configured epoch, an 18-bit sequence within the window and a 10-bit
//! worker id, with the highest bit always zero.

pub mod config;
pub mod error;
pub mod generator;
pub mod id;
pub mod layout;

pub use config::{Config, EnvVar};
pub use error::BeakIdError;
pub use generator::Generator;
pub use id::BeakId;
