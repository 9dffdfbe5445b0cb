//! # lulu-serial-port
//!
//! Serial ports with MQTT logging for automated testing.  This crate holds
//! the logic of it, with its contracts proved:
//!
//! - [`uri`]: serial URIs (`serial:///dev/ttyUSB0?baud=115200`,
//!   `serial://?vid=0x2341&pid=0x0043`), parsed into a [`SerialUri`],
//!   written back with [`SerialUri::to_uri`], and resolved to a port name;
//!   [`uri_laws`] proves that written URIs parse back, and [`parse_laws`]
//!   which URIs are refused, that the last query pair for a key wins, and
//!   that hexadecimal USB identifiers read back, and how line-setting
//!   values are read.
//! - [`manager`]: the configuration of a managed port, the MQTT messages
//!   logged for its traffic, and the end of a wait for a pattern.
//! - [`mqtt`]: broker configuration, lulu-logs topics
//!   (`lulu/{source}/{attribute}`), client IDs and reconnect back-off.
//! - [`listing`]: the listing of the available ports and their URIs;
//!   [`lookup_laws`] proves that the USB lookup takes the first port that
//!   answers to every identifier, and that the listing is a stable sort.
//! - [`ports`], [`text`]: serial ports as the logic reads them, and the
//!   character toolkit.

pub mod error;
mod line;
pub mod listing;
pub mod lookup_laws;
pub mod manager;
pub mod mqtt;
pub mod parse_laws;
pub mod ports;
pub mod text;
pub mod uri;
pub mod uri_laws;

pub use error::Error;
pub use line::{DataBits, FlowControl, Parity, StopBits};
pub use manager::{LogMessage, SerialPortConfig, WaitEvent};
pub use mqtt::{generate_short_id, MqttConfig, ReconnectBackoff};
pub use ports::{PortInfo, UsbPortInfo};
pub use uri::{parse_serial_uri, parse_u16_hex, ParseUriError, SerialUri};
