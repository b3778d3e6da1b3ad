pub mod cli;
pub mod config;
pub mod daemon;
pub mod install;
pub mod ipc;
pub mod laws;
pub mod platform;
pub mod sorting;
pub mod state;
pub mod supervise;
pub mod text;
pub mod web;
