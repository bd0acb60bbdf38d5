pub mod config;
pub mod game;
pub mod icon;
pub mod level;
pub mod rules;
pub mod render;
pub mod session;
pub mod ui;
