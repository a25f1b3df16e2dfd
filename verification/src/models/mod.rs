//! The entities that records of the platform decode into.

pub mod fork;
pub mod repo;
pub mod tree;
