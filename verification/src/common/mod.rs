//! What every part of the application shares: the verdict on a form, the
//! settings, and the shortcuts.

pub mod cache;
pub mod config;
pub mod errors;
pub mod textmap;
pub mod utils;
