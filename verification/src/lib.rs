//! `portctl`: manage Docker environments through the Portainer API.
//!
//! The library holds what the command-line client decides and computes: its
//! command-line grammar and parser, its configuration file, what each
//! command reads from the API's JSON answers and prints, the paths and
//! bodies of its requests, and Docker's multiplexed output streams.  Each
//! function carries a contract that Verus proves.
pub mod text;
pub mod config;
pub mod units;
pub mod json;
pub mod argparse;
pub mod help;
pub mod cli;
pub mod render;
pub mod actions;
pub mod stream;
pub mod encoding;
pub mod client;
pub mod prompt;
