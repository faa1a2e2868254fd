//! Launcher redirection and stub synchronisation: tags, per-tag configuration,
//! argument and environment composition, the repository of registered
//! applications, and the decisions of the management commands.

pub mod text;

pub mod tag;

pub mod paths;

pub mod config_model;

pub mod composer;

pub mod environment;

pub mod launcher;

pub mod wexe_repository;

pub mod args_buffer;

pub mod command_fix;

pub mod help_central;

pub mod commands;

pub mod command_help;

pub mod command_install;

pub mod command_drop;

pub mod command_list;

pub mod command_wrap;

pub mod config_writer;
