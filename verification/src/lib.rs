//! Verified core of the THU Med cluster helper: parsing of what kubectl and
//! Helm print, validation of user input, the environment check, the setup of
//! tools, the lecture account, the command line, and the decisions and screens
//! of the terminal interface.
use vstd::prelude::*;

pub mod cli;
pub mod constants;
pub mod environment;
pub mod error;
pub mod i18n;
pub mod platform;
pub mod pod_handler;
pub mod text;
pub mod tools;
pub mod tui;
pub mod utils;
pub mod view;

verus! {
}
