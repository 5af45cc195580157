//! The grammars that turn recognised text into typed values, and the
//! assembly of a relic from them.

pub mod assembly;
pub mod samples;
pub mod set;
pub mod slot;
pub mod stat;

pub use assembly::parse_relic;
pub use set::parse_set;
pub use slot::parse_slot;
pub use stat::parse_stat;
