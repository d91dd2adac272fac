pub mod online;
pub mod store;
