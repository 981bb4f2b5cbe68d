use vstd::prelude::*;
use vstd::string::StringExecFns;
use crate::text::{bool_text, decimal, decimal_string, signed_decimal, signed_decimal_string};

verus! {

/// The state of one TCP port of a scanned host.
pub struct PortStatus {
    pub port: u16,
    pub status: String,
    pub service: Option<String>,
}

/// A wireless network reported by the device.
pub struct WiFiNetwork {
    pub ssid: String,
    pub bssid: String,
    pub channel: u8,
    pub rssi: i32,
    pub encryption: String,
    pub hidden: bool,
}

/// The well-known service usually found on `port`.
pub open spec fn service_of(port: u16) -> &'static str {
    match port {
        21 => "FTP",
        22 => "SSH",
        23 => "Telnet",
        25 => "SMTP",
        53 => "DNS",
        80 => "HTTP",
        110 => "POP3",
        143 => "IMAP",
        443 => "HTTPS",
        465 => "SMTPS",
        587 => "SMTP",
        993 => "IMAPS",
        995 => "POP3S",
        1883 => "MQTT",
        3306 => "MySQL",
        5432 => "PostgreSQL",
        8080 => "HTTP-Alt",
        8883 => "MQTTS",
        _ => "unknown",
    }
}

/// The name of the service usually found on `port`, "unknown" for others.
pub fn get_service_name(port: u16) -> (r: &'static str)
    ensures
        r == service_of(port),
{
    match port {
        21 => "FTP",
        22 => "SSH",
        23 => "Telnet",
        25 => "SMTP",
        53 => "DNS",
        80 => "HTTP",
        110 => "POP3",
        143 => "IMAP",
        443 => "HTTPS",
        465 => "SMTPS",
        587 => "SMTP",
        993 => "IMAPS",
        995 => "POP3S",
        1883 => "MQTT",
        3306 => "MySQL",
        5432 => "PostgreSQL",
        8080 => "HTTP-Alt",
        8883 => "MQTTS",
        _ => "unknown",
    }
}

/// The ports a port scan probes, in order.
pub open spec fn common_port_list() -> Seq<u16> {
    seq![21, 22, 23, 25, 53, 80, 110, 143, 443, 465, 587, 993, 995, 1883, 3306, 5432, 8080, 8883]
}

/// The ports a port scan probes, in order: the well-known services of
/// `get_service_name`.
pub fn common_ports() -> (r: Vec<u16>)
    ensures
        r@ == common_port_list(),
{
    let r: Vec<u16> = vec![21, 22, 23, 25, 53, 80, 110, 143, 443, 465, 587, 993, 995, 1883, 3306, 5432, 8080, 8883];
    assert(r@ =~= common_port_list());
    r
}

/// The brokers a broker scan reports: the local host on the plain and the TLS
/// MQTT ports.
pub fn known_brokers() -> (r: Vec<(String, u16)>)
    ensures
        r@.len() == 2,
        r@[0].0@ == "localhost"@ && r@[0].1 == 1883,
        r@[1].0@ == "localhost"@ && r@[1].1 == 8883,
{
    let mut r: Vec<(String, u16)> = Vec::new();
    r.push((String::from_str("localhost"), 1883));
    r.push((String::from_str("localhost"), 8883));
    r
}

impl PortStatus {
    /// A port with its status and the service usually found on it.
    pub fn new(port: u16, status: &str) -> (r: PortStatus)
        ensures
            r.port == port,
            r.status@ == status@,
            r.service matches Some(s) && s@ == service_of(port)@,
    {
        PortStatus {
            port,
            status: String::from_str(status),
            service: Some(String::from_str(get_service_name(port))),
        }
    }

    /// One line: "Port: <port>, Status: <status>, Service: <service>", the
    /// service reading "unknown" when absent.
    pub fn describe(&self) -> (r: String)
        ensures
            r@ == "Port: "@ + decimal(self.port as nat) + ", Status: "@ + self.status@
                + ", Service: "@ + match self.service {
                Some(s) => s@,
                None => "unknown"@,
            },
    {
        let mut out = String::from_str("Port: ");
        let port = decimal_string(self.port as u64);
        out.append(port.as_str());
        out.append(", Status: ");
        out.append(self.status.as_str());
        out.append(", Service: ");
        match &self.service {
            Some(s) => out.append(s.as_str()),
            None => out.append("unknown"),
        }
        out
    }
}

impl WiFiNetwork {
    /// One line: "SSID: <ssid>, BSSID: <bssid>, Channel: <channel>, RSSI: <rssi>,
    /// Encryption: <encryption>, Hidden: <true|false>".
    pub fn describe(&self) -> (r: String)
        ensures
            r@ == "SSID: "@ + self.ssid@ + ", BSSID: "@ + self.bssid@ + ", Channel: "@ + decimal(
                self.channel as nat,
            ) + ", RSSI: "@ + signed_decimal(self.rssi as int) + ", Encryption: "@
                + self.encryption@ + ", Hidden: "@ + (if self.hidden {
                "true"@
            } else {
                "false"@
            }),
    {
        let mut out = String::from_str("SSID: ");
        out.append(self.ssid.as_str());
        out.append(", BSSID: ");
        out.append(self.bssid.as_str());
        out.append(", Channel: ");
        let channel = decimal_string(self.channel as u64);
        out.append(channel.as_str());
        out.append(", RSSI: ");
        let rssi = signed_decimal_string(self.rssi as i64);
        out.append(rssi.as_str());
        out.append(", Encryption: ");
        out.append(self.encryption.as_str());
        out.append(", Hidden: ");
        out.append(bool_text(self.hidden));
        out
    }
}

} // verus!
