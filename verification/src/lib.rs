//! A small Git-native CI runner: the rules by which workflows are found,
//! selected, configured and run.

pub mod actions;
pub mod arch;
pub mod arguments;

pub mod buildargs;
pub mod builtins;
pub mod cli;
pub mod conditions;
pub mod config;
pub mod containers;
pub mod defaults;
pub mod depend;
pub mod discover;
pub mod environ;
pub mod error;
pub mod execution;
pub mod files;
pub mod hooks;
pub mod inputs;
pub mod install;
pub mod jobs;
pub mod local;
pub mod maps;
pub mod native;
pub mod output;
pub mod paths;
pub mod plain;
pub mod repo;
pub mod runner;
pub mod schema;
pub mod select;
pub mod small;
pub mod status;
pub mod steps;
pub mod strings;
pub mod text;
pub mod workflow;
pub mod yaml;
pub mod yamlish;
