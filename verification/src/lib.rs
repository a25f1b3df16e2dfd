//! Ranking and classifying repositories of a code-hosting platform.
//!
//! The crate decodes the platform's JSON records into repositories
//! ([`models`]), adds up the commit activity of their forks
//! ([`fork_activity`]), finds the files that recent commits touched most
//! often ([`hotspots`], [`histogram`]), decides whether a repository holds
//! genuine source code and which one of a batch to clone ([`inspect_repo`],
//! [`inspect`]), summarises a batch ([`data_manager`]) and lays out the
//! record that a store keeps of a repository ([`storage`]). The addresses of
//! the platform's requests and the decoding of its responses are in [`api`].
//!
//! Every function carries a contract that Verus proves. No function sends a
//! request, reads a file or prints: the caller does, and hands the library
//! status codes, bodies and outcomes. What the proofs take on trust of
//! `serde_json` and of a few string functions of `std` is marked "Trusted"
//! in [`json`] and [`text`].

pub mod api;
pub mod data_manager;
pub mod fork_activity;
pub mod histogram;
pub mod hotspots;
pub mod inspect;
pub mod inspect_repo;
pub mod json;
pub mod models;
pub mod storage;
pub mod text;
