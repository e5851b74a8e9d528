//! The core of a vanity address search: rarity rules and their compilation,
//! the matching of an address against a job, keypairs and their text forms,
//! and the decisions of the workers and the coordinator of a job.

pub mod coordinator;
pub mod events;
pub mod generator;
pub mod keys;
pub mod matcher;
pub mod rarity;
pub mod rarity_laws;
pub mod rules;
pub mod shared;
pub mod worker;
