//! Verified core of a Modbus RTU / Modbus TCP test bench: CRC-16, register
//! maps, slave-side request handling, master-side frame building and parsing,
//! an in-memory device emulator, and a handful of small text and collection
//! utilities.

pub mod app_state;
pub mod basics;
pub mod bits;
pub mod collections;
pub mod crc;
pub mod directory;
pub mod discover;
pub mod emulator;
pub mod firmware;
pub mod frames;
pub mod game;
pub mod keys;
pub mod master;
pub mod register_map;
pub mod rtu_slave;
pub mod screen;
pub mod tcp;
pub mod text;
pub mod trace;
pub mod ui;
pub mod wire;
pub mod worker;
