pub mod config;
pub mod modules;
pub mod platform;
pub mod runner;
pub mod session;
pub mod text;
pub mod theme;
pub mod ui;
