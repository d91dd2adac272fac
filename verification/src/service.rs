pub mod desktop_connect_ask;
pub mod desktop_connect_ask_auth;
pub mod desktop_connect_offer;
pub mod desktop_connect_offer_auth;
pub mod device;
pub mod message;
pub mod proxy;
