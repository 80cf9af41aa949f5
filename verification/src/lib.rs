//! Bonded service registry and dispute escalation for a marketplace of
//! AI services: services lock a bond, disputes against them are judged by an
//! evaluator, and losing services are slashed progressively.

pub mod account;
pub mod crypto;
pub mod escalation;
pub mod registry;
pub mod token;
