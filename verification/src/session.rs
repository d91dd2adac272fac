pub mod manager;
pub mod session;
