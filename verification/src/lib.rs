pub mod cli;
pub mod config;
pub mod debug;
pub mod event_loop;
pub mod json;
pub mod loop_runner;
pub mod path;
pub mod text;
pub mod text_laws;
pub mod yaml;
