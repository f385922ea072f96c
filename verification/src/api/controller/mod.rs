pub mod area;
pub mod device;
pub mod house;
pub mod login;
pub mod signup;
