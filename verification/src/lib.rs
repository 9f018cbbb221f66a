//! A verified core for a git worktree manager.
//!
//! The crate holds the tool's decision logic: parsing the porcelain
//! worktree listing, choosing cleanup candidates, building the paths
//! and argument lists that the surrounding program hands to the
//! version-control tool, and interpreting that tool's plain outputs.
//! All subprocess and file handling lives outside this library; every
//! function here is specified and verified.

pub mod clean;
pub mod cli;
pub mod commands;
pub mod config;
pub mod error;
pub mod git;
pub mod strutil;
