pub mod reply;
pub mod reply_error;
pub mod request;
