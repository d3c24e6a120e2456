//! A task runner's core: resolving task definitions, expanding variables,
//! deciding retries and group outcomes, and rendering results.

pub mod app_error;
pub mod cli;
pub mod config;
pub mod duration;
pub mod envfile;
pub mod expand;
pub mod history;
pub mod model;
pub mod notify;
pub mod orchestrator;
pub mod output;
pub mod outside;
pub mod runner;
pub mod sorted_map;
pub mod text;
