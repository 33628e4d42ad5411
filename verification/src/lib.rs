//! A CHIP-8 virtual machine: a verified instruction interpreter with its
//! execution state machine (fetch, decode, dispatch, instruction semantics,
//! timer decay, blocking key input), plus a bounded history of machine
//! snapshots for save/restore.
#![allow(non_snake_case)]

pub mod chip8;
pub mod emulator;
pub mod input;
pub mod opcode;
pub mod utils;
