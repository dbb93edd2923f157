//! Protocol engine of a SIM868 modem emulator.

pub mod command;
pub mod framer;
pub mod laws;
pub mod sim868;
pub mod text;
pub mod ui;
pub mod urc;
