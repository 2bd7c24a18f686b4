//! Verified core of a repository cleaner: it partitions the paths a
//! version-control ignore list reports into deletion candidates and
//! user-excluded paths, and accounts for every per-item deletion outcome.
pub mod cleaner;
pub mod cli;
pub mod paths;
pub mod patterns;
