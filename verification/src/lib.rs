pub mod strutil;
pub mod overlay;
pub mod config;
pub mod errors;
mod jsonio;
pub mod autotest;
