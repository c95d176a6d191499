//! The options of the Modbus handlers, with the values they have when
//! nothing else is given.

use vstd::prelude::*;

verus! {

/// Whether a handler polls a device and sends what it reads, or takes
/// commands and sends them on.
#[derive(Clone, Copy, PartialEq, Eq, Debug, Structural)]
pub enum ModbusMode {
    Read,
    Write,
}

/// The mode that a text names: `read` or `write`.
pub fn parse_mode(text: &str) -> (mode: Option<ModbusMode>)
    ensures
        mode == if text@ == "read"@ {
            Some(ModbusMode::Read)
        } else if text@ == "write"@ {
            Some(ModbusMode::Write)
        } else {
            None
        },
{
    let given: String = text.to_owned();
    if given == "read".to_owned() {
        Some(ModbusMode::Read)
    } else if given == "write".to_owned() {
        Some(ModbusMode::Write)
    } else {
        None
    }
}

/// The options of the handler on the source side.
#[derive(Clone, Debug)]
pub struct OptIngress {
    /// Location of the socket of the carrier.
    pub socket_path: String,
    /// How many messages of the greatest size the ring holds.
    pub bip_buffer_element_count: usize,
    /// Port the stats handler is listening on.
    pub listening_port: u16,
    /// StatsD server host.
    pub host_stats_server: String,
    /// StatsD server port.
    pub port_stats_server: u16,
    /// Host that syslog messages come from.
    pub from_host_sys_log: String,
    /// Port that syslog messages come from.
    pub from_port_sys_log: u16,
    /// Host that syslog messages go to.
    pub to_host_sys_log: String,
    /// Port that syslog messages go to.
    pub to_port_sys_log: u16,
    /// Log level.
    pub log_level: String,
    /// Name under which the handler logs.
    pub handler_name: String,
    /// `read` or `write`.
    pub modbus_mode: String,
    /// Write mode: the address to listen on. Read mode: the device to poll.
    pub modbus_address: String,
    /// The port that goes with the address.
    pub modbus_port: u16,
    /// Write mode: pause before each answer. Read mode: pause between
    /// requests. In milliseconds.
    pub modbus_delay_ms: u64,
    /// Read mode: the coils to poll.
    pub modbus_coil_addresses_to_read: String,
    /// Read mode: the discrete inputs to poll.
    pub modbus_input_addresses_to_read: String,
    /// Read mode: the holding registers to poll.
    pub modbus_holding_register_addresses_to_read: String,
    /// Read mode: the input registers to poll.
    pub modbus_input_register_addresses_to_read: String,
    /// Timeout of the connection to the device, in milliseconds.
    pub modbus_tcp_timeout: u64,
    /// How many extra times each message is sent.
    pub fec_resend_count: u8,
}

/// The options of the handler on the destination side.
#[derive(Clone, Debug)]
pub struct OptEgress {
    /// Location of the socket of the carrier.
    pub socket_path: String,
    /// Port the stats handler is listening on.
    pub listening_port: u16,
    /// StatsD server host.
    pub host_stats_server: String,
    /// StatsD server port.
    pub port_stats_server: u16,
    /// Host that syslog messages come from.
    pub from_host_sys_log: String,
    /// Port that syslog messages come from.
    pub from_port_sys_log: u16,
    /// Host that syslog messages go to.
    pub to_host_sys_log: String,
    /// Port that syslog messages go to.
    pub to_port_sys_log: u16,
    /// How many messages of the greatest size the ring holds.
    pub bip_buffer_element_count: usize,
    /// Log level.
    pub log_level: String,
    /// Name under which the handler logs.
    pub handler_name: String,
    /// `read` or `write`.
    pub modbus_mode: String,
    /// Write mode: the device to send commands to. Read mode: the address
    /// to listen on.
    pub modbus_address: String,
    /// The port that goes with the address.
    pub modbus_port: u16,
    /// Timeout of the connection to the device, in milliseconds.
    pub modbus_tcp_timeout: u64,
}

impl Default for OptIngress {
    fn default() -> (options: Self)
        ensures
            options.socket_path@ == "/tmp/handler_to_transport"@,
            options.bip_buffer_element_count == 10,
            options.listening_port == 1235,
            options.host_stats_server@ == "127.0.0.1"@,
            options.port_stats_server == 8125,
            options.from_host_sys_log@ == "0.0.0.0"@,
            options.from_port_sys_log == 8127,
            options.to_host_sys_log@ == "127.0.0.1"@,
            options.to_port_sys_log == 8082,
            options.log_level@ == "Warn"@,
            options.handler_name@ == "ph_modbus_ingress"@,
            options.modbus_mode@ == "write"@,
            options.modbus_address@ == "0.0.0.0"@,
            options.modbus_port == 502,
            options.modbus_delay_ms == 0,
            options.modbus_coil_addresses_to_read@ == ""@,
            options.modbus_input_addresses_to_read@ == ""@,
            options.modbus_holding_register_addresses_to_read@ == ""@,
            options.modbus_input_register_addresses_to_read@ == ""@,
            options.modbus_tcp_timeout == 250,
            options.fec_resend_count == 1,
    {
        OptIngress {
            socket_path: "/tmp/handler_to_transport".to_owned(),
            bip_buffer_element_count: 10,
            listening_port: 1235,
            host_stats_server: "127.0.0.1".to_owned(),
            port_stats_server: 8125,
            from_host_sys_log: "0.0.0.0".to_owned(),
            from_port_sys_log: 8127,
            to_host_sys_log: "127.0.0.1".to_owned(),
            to_port_sys_log: 8082,
            log_level: "Warn".to_owned(),
            handler_name: "ph_modbus_ingress".to_owned(),
            modbus_mode: "write".to_owned(),
            modbus_address: "0.0.0.0".to_owned(),
            modbus_port: 502,
            modbus_delay_ms: 0,
            modbus_coil_addresses_to_read: "".to_owned(),
            modbus_input_addresses_to_read: "".to_owned(),
            modbus_holding_register_addresses_to_read: "".to_owned(),
            modbus_input_register_addresses_to_read: "".to_owned(),
            modbus_tcp_timeout: 250,
            fec_resend_count: 1,
        }
    }
}

impl Default for OptEgress {
    fn default() -> (options: Self)
        ensures
            options.socket_path@ == "/tmp/transport_to_handler"@,
            options.listening_port == 1235,
            options.host_stats_server@ == "127.0.0.1"@,
            options.port_stats_server == 8125,
            options.from_host_sys_log@ == "0.0.0.0"@,
            options.from_port_sys_log == 8127,
            options.to_host_sys_log@ == "127.0.0.1"@,
            options.to_port_sys_log == 8082,
            options.bip_buffer_element_count == 100,
            options.log_level@ == "Warn"@,
            options.handler_name@ == "ph_modbus_egress"@,
            options.modbus_mode@ == "write"@,
            options.modbus_address@ == "0.0.0.0"@,
            options.modbus_port == 502,
            options.modbus_tcp_timeout == 250,
    {
        OptEgress {
            socket_path: "/tmp/transport_to_handler".to_owned(),
            listening_port: 1235,
            host_stats_server: "127.0.0.1".to_owned(),
            port_stats_server: 8125,
            from_host_sys_log: "0.0.0.0".to_owned(),
            from_port_sys_log: 8127,
            to_host_sys_log: "127.0.0.1".to_owned(),
            to_port_sys_log: 8082,
            bip_buffer_element_count: 100,
            log_level: "Warn".to_owned(),
            handler_name: "ph_modbus_egress".to_owned(),
            modbus_mode: "write".to_owned(),
            modbus_address: "0.0.0.0".to_owned(),
            modbus_port: 502,
            modbus_tcp_timeout: 250,
        }
    }
}

} // verus!
