//! A declarative packaging runner: named definitions substituted into a
//! configuration document, and an ordered list of copy, replace and run
//! commands whose failures are collected without stopping the run.

pub mod words;
pub mod config;
pub mod subst;
pub mod document;
pub mod loader;
pub mod execution;
pub mod executors;

pub use config::{Command, Config, DefineItem, Replace, Run};
pub use document::{Doc, LoadError, command_from_doc, config_from_doc, define_items_from_doc};
pub use execution::{CommandError, Execution, ExecutionReport, Failure};
pub use executors::{
    Invocation, Pattern, RunPlan, WalkSettings, check_matches, copy_target, plan_from_words,
    plan_run, replace_pattern, replaced_content, run_outcome, walk_settings,
};
pub use loader::{build_name_table, substitute_document};
pub use subst::{NameTable, substitute_variables};
