pub mod contract;
pub mod lemmas;
pub mod model;
pub mod slashing;
pub mod types;
pub mod laws;
