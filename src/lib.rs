//! Device session protocol engine for a serial-attached security testing device:
//! line framing, request/response correlation, session lifecycle and port discovery.

mod cli;
mod codec;
mod commands;
mod config;
mod correlator;
mod discovery;
mod laws;
mod models;
mod network;
mod session;
mod text;

pub use cli::{parse_command, parse_u32, split_words, CliCommand, ParseError};
pub use codec::{lemma_feed_in_pieces, lemma_frames_determined, FrameCodec};
pub use commands::{
    attack_command, get_command, render_reply, render_with, set_command, stop_command,
    DEVICE_IDENTITY, HANDSHAKE, JSON_FORMAT, SCAN_MQTT_COMMAND, SCAN_WIFI_COMMAND, STATUS_COMMAND,
};
pub use config::{Config, MqttConfig, OutputConfig, SerialConfig};
pub use correlator::{Correlator, Delivery, PendingRequest};
pub use discovery::{usb_candidates, Discovery, DiscoveryAction, DiscoveryPhase, PortCandidate};
pub use laws::{
    lemma_cancel_excludes_timeout, lemma_echo_answers_each_caller, lemma_fifo_delivery,
    lemma_timeout_promotes_next,
};
pub use models::{common_ports, get_service_name, known_brokers, PortStatus, WiFiNetwork};
pub use network::{
    host_addresses, hostname_from_lookup, parse_cidr, parse_ipv4, split_on, CidrError,
    HOST_POINTER_PATTERN, MAX_SCANNED_HOSTS, NSLOOKUP_NAME_PATTERN,
};
pub use session::{Session, SessionError, DEFAULT_BAUD_RATE, DEFAULT_TIMEOUT_MS};
pub use text::{contains, decimal_string, same_text, signed_decimal_string};
