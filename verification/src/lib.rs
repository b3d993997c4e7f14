//! A bridge from publish/subscribe messages to a time-series database:
//! topics name the series, payloads carry one reading, and each reading
//! becomes one line-protocol write.

pub mod bridge;
pub mod deserializer;
pub mod environ;
pub mod influx_client;
pub mod text;
