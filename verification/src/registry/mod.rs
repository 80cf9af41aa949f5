pub mod contract;
pub mod lemmas;
pub mod model;
pub mod reputation;
pub mod rewards;
pub mod types;
pub mod laws;
pub mod history;
