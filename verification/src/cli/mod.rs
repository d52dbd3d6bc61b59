//! The commands: what each of them decides, without the devices.

pub mod civil;
pub mod devices;
pub mod keys;
pub mod laws;
pub mod out;
pub mod shot;
