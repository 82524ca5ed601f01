//! Desktop companion library for an RFID cartridge reader: the firmware's
//! serial protocol, the game catalog, folder scanning heuristics, store
//! detection and launching rules, all with machine-checked contracts.

pub mod catalog;
pub mod commands;
pub mod flash;
pub mod launch;
pub mod paths;
pub mod scan;
pub mod text;
pub mod serial;
