//! Off-site replication of guests between remotes: ZFS snapshots of a guest are sent to another
//! remote on a schedule, and each complete one can be promoted there to a running guest.
//!
//! The library decides and computes; commands, files, worker tasks and the network are its callers'.
//! - Basics: `text`, `pieces`, `number`, `order`, `shell`, `types`.
//! - Jobs: `names` says which values are safe to use, `jobs` keeps the list of jobs, `config` its
//!   file, `status` tells what is known of a job and when it is due.
//! - Runs: `sync` writes the script of a run, `command` the commands that carry scripts to a node,
//!   `history` reads what a run printed, `run` makes the record of it.
//! - Recovery: `ids` and `snapshots` say where things are, `recovery` lists the recovery points,
//!   `qemu` reads a guest's configuration, `failover` writes the script that promotes a point.
//! - Access: `prepare` sets up SSH, step by step.
//! - User interface: `form`, `selectors`, `display` and `summary` say what is shown, `panel`,
//!   `update`, `messages` and `screen` keep the state of the panel.
pub mod command;
pub mod config;
pub mod display;
pub mod failover;
pub mod form;
pub mod history;
pub mod ids;
pub mod jobs;
pub mod messages;
pub mod names;
pub mod number;
pub mod order;
pub mod panel;
pub mod pieces;
pub mod prepare;
pub mod qemu;
pub mod recovery;
pub mod run;
pub mod screen;
pub mod selectors;
pub mod shell;
pub mod snapshots;
pub mod status;
pub mod summary;
pub mod sync;
pub mod text;
pub mod types;
pub mod update;
