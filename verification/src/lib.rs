//! Selection, configuration and message logic of a tool that runs commands on
//! a list of servers over SSH.
//!
//! - `server`: the server list, which entries a query selects, and which
//!   entry a connection goes to;
//! - `config`: the files under the home directory and the `ssh_key` setting;
//! - `remote`: the texts sent to the password store and to a remote shell;
//! - `report`: colours and the text of every message;
//! - `cli`: what a command line asks for;
//! - `text`: character-level helpers the others are built on.
pub mod cli;
pub mod config;
pub mod remote;
pub mod report;
pub mod server;
pub mod text;

pub use report::{get_colors, MAIN_COLOR_PREFIX, MAIN_COLOR_SUFFIX, ROOT_COLOR_PREFIX};
pub use server::Server;
