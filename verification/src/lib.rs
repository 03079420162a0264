//! Mesh-networking core of a low-power LoRa radio node.

pub mod airtime;
pub mod data;
pub mod duty_cycle;
pub mod header;
pub mod host;
pub mod key;
pub mod messages;
pub mod node_database;
pub mod packet;
pub mod pending;
pub mod policy;
pub mod priority;
pub mod relay;
pub mod relay_task;
pub mod stats;
pub mod store;
pub mod telemetry;
pub mod wire;
