//! Shell prompt segments that report where the working directory sits inside
//! a git repository and what state its working tree is in.
//!
//! The library does no input or output. Its caller runs the two git queries
//! and hands over their outcomes; the library decides what they mean and
//! returns the text for the shell.

pub mod args;
pub mod bash;
pub mod cmd;
pub mod coloring;
pub mod git;
pub mod paths;
pub mod porcelain;
