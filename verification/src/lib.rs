//! Firmware delivery over a lossy, half-duplex radio link: addressed framing
//! with a CRC-32 trailer, and the block-transfer protocol between one
//! producer and one consumer.

pub mod bounded;
pub mod crc;
pub mod gateway;
pub mod gateway_host_schema;
pub mod host;
pub mod lora;
pub mod ota;
pub mod ota_memory;
pub mod soil_sensor;
