use vstd::prelude::*;
use vstd::string::StringExecFns;

verus! {

/// Settings of the tool: MQTT broker, serial link and output.
pub struct Config {
    pub mqtt: MqttConfig,
    pub serial: SerialConfig,
    pub output: OutputConfig,
}

pub struct MqttConfig {
    pub broker_host: String,
    pub broker_port: u16,
    pub client_id: String,
    pub username: Option<String>,
    pub password: Option<String>,
}

pub struct SerialConfig {
    pub baud_rate: u32,
    pub auto_connect: bool,
}

pub struct OutputConfig {
    pub default_format: String,
}

impl Default for Config {
    /// A local broker on the standard MQTT port, 115200 baud with automatic
    /// discovery, and table output.
    fn default() -> (r: Config)
        ensures
            r.mqtt.broker_host@ == "localhost"@,
            r.mqtt.broker_port == 1883,
            r.mqtt.client_id@ == "secot_cli_tool"@,
            r.mqtt.username is None,
            r.mqtt.password is None,
            r.serial.baud_rate == crate::session::DEFAULT_BAUD_RATE,
            r.serial.auto_connect,
            r.output.default_format@ == "table"@,
    {
        Config {
            mqtt: MqttConfig {
                broker_host: String::from_str("localhost"),
                broker_port: 1883,
                client_id: String::from_str("secot_cli_tool"),
                username: None,
                password: None,
            },
            serial: SerialConfig { baud_rate: crate::session::DEFAULT_BAUD_RATE, auto_connect: true },
            output: OutputConfig { default_format: String::from_str("table") },
        }
    }
}

} // verus!
