//! A minimal container supervisor for Linux, as a planner: a request that
//! describes a container is turned into the ordered kernel operations that
//! build it, each with its stage and with what its failure means, and a
//! small rule tells a runner how to walk them. Every plan, flag word, path
//! and file content is computed here and proved to be what its contract
//! says; making the calls is left to the program around the library.

pub mod attach;
pub mod capability;
pub mod cgroup;
pub mod config;
pub mod create;
pub mod error;
pub mod execute;
pub mod jail;
pub mod mount;
pub mod namespace;
pub mod plan;
pub mod runner;
pub mod signal;
pub mod string_map;
pub mod text;
pub mod unshare;
pub mod wrap;
