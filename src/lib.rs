//! Control-plane core of a P4Runtime server for a fixed-function pipeline:
//! mastership arbitration, per-table entry stores and request handling.

pub mod config;
pub mod connection;
pub mod entity;
pub mod logging;
pub mod mmio;
pub mod p4runtime;
pub mod service;
pub mod subscribers;
pub mod table;
