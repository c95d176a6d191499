//! Protocol handlers for a unidirectional gateway.
//!
//! A gateway of this kind carries data one way only: nothing ever comes
//! back, and what is sent may be lost or arrive more than once. On each
//! side of it stands a handler that speaks a protocol to its own network.
//! This library holds what the handlers decide and compute:
//!
//! * the Modbus/TCP frame codec, the databank of a virtual device, the
//!   server that answers requests from it, the requests of a client, the
//!   poller that turns what it reads into packets, and the replayer that
//!   applies packets on the far side;
//! * the framing of messages on the byte ring between a handler and the
//!   carrier;
//! * the filesystem commit log: an in-memory filesystem that records every
//!   change as a commit, the wire format of a commit, and the replay of
//!   commits on the far side.

// Modbus
pub mod utils;
pub mod pdu;
pub mod mbap;
pub mod frame;
pub mod data_packet;
pub mod modbus_databank;
pub mod request_handler;
pub mod modbus_server;
pub mod modbus_client;
pub mod tcp_client;
pub mod poller;
pub mod replayer;
pub mod arguments;

// Transport
pub mod buffer;
pub mod ring;
pub mod random;

// Filesystem
pub mod byte_order;
pub mod text;
pub mod platform;
pub mod filesystem_commit;
pub mod filesystem_item;
pub mod diode_fs;
pub mod diode_fs_injector;
