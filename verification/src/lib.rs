//! Typed persistence layer for a set of per-feature save files encoded in a
//! tagged binary object format: domain records, the codec that converts each
//! record to and from a named class with typed fields, and the orchestration
//! that maps records onto files created or deleted by their existence flags.

pub mod classes;
pub mod cybergrind;
pub mod decode;
pub mod difficulty;
pub mod encode;
pub mod enums;
pub mod fields;
pub mod general;
pub mod level;
pub mod store;
pub mod text;
pub mod traits;
pub mod wire_float;
