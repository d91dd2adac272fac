pub mod msg_login;
