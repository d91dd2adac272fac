pub mod device_goes_online;
pub mod heart_beat;
