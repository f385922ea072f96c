pub mod device;
pub mod house;
pub mod user_info;
