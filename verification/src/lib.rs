use vstd::prelude::*;

pub mod bytes;
pub mod config;
pub mod embedded;
pub mod emulator;
pub mod name_map;
pub mod launcher;
pub mod paths;
pub mod ext_devices;
pub mod peripherals;
pub mod text;
