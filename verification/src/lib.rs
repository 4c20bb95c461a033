//! A minimal host-metrics exporter library: typed metric series rendered as
//! Prometheus-style exposition text, with collectors for memory, disk, CPU
//! load and network byte counters.

pub mod collect;
pub mod cpu;
pub mod disk;
pub mod error;
pub mod memory;
pub mod metric;
pub mod network;
pub mod text;
