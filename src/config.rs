//! The server's configuration: where to listen and which devices to manage.

use crate::mmio::MmioConfig;
use vstd::prelude::*;

verus! {

/// The address and port the gRPC server listens on.
#[derive(Clone, Debug)]
pub struct ServerConfig {
    pub address: String,
    pub port: u16,
}

/// One managed device: its id, its register window, its CPU port and the path
/// of its table/action schema document.
#[derive(Clone, Debug)]
pub struct DeviceConfig {
    pub id: u64,
    pub mmio: MmioConfig,
    pub cpu_port: String,
    pub target_config: String,
}

#[derive(Clone, Debug)]
pub struct Config {
    pub server: ServerConfig,
    pub devices: Vec<DeviceConfig>,
}

} // verus!
