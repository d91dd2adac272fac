pub mod client;
pub mod message;
pub mod packet;
pub mod proto;
pub mod server;
