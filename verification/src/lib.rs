//! A verified core for a Quake engine: data formats, the network protocol,
//! the console and the QuakeC virtual machine's memory.

pub mod bitset;
pub mod bsp;
pub mod console;
pub mod engine;
pub mod entity;
pub mod files;
pub mod input;
pub mod load;
pub mod map;
pub mod math;
pub mod mdl;
pub mod model;
pub mod net;
pub mod pak;
pub mod progs;
pub mod protocol;
pub mod sprite;
pub mod util;
pub mod vfs;
pub mod wad;
pub mod wire;
