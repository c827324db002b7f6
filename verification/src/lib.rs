//! A snapshot-lifecycle library for btrfs pools: datasets take scheduled
//! read-only snapshots, retention rules prune them under snapshot holds,
//! containers receive incremental transfers, and observers route lifecycle
//! events to health-check pings. Every function here carries a contract; the
//! filesystem commands, the network and the clock live with the caller and
//! hand in plain values.

pub mod ids;
pub mod text;
pub mod time;
pub mod retention;
pub mod schedule;
pub mod model;
pub mod holds;
pub mod volumes;
pub mod observer;
pub mod actor;
pub mod sync;
pub mod dataset;
pub mod container;
pub mod worker;
