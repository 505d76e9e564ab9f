//! Rutty is a terminal emulator and serial console that supports the most common network and file
//! transfer protocols in a single command-line tool.
//!
//! This crate is the verified core of the tool: every decision that it takes, from the bytes typed
//! at the keyboard to the paths of a recursive file transfer, without any of the input and output
//! that the decisions are about.

pub mod cli;
pub mod download;
pub mod opts;
pub mod path;
pub mod scp;
pub mod serial;
pub mod ssh;
pub mod termios;
pub mod text;
pub mod transfer;
pub mod tree;
pub mod tty;
pub mod upload;
