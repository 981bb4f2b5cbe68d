use secot::{
    attack_command, contains, decimal_string, get_command, get_service_name, render_reply,
    render_with, same_text, set_command, signed_decimal_string, stop_command, usb_candidates,
    Config, PortCandidate, PortStatus, WiFiNetwork,
};

#[test]
fn service_names_of_common_ports() {
    assert_eq!(get_service_name(21), "FTP");
    assert_eq!(get_service_name(587), "SMTP");
    assert_eq!(get_service_name(1883), "MQTT");
    assert_eq!(get_service_name(8883), "MQTTS");
    assert_eq!(get_service_name(5432), "PostgreSQL");
    assert_eq!(get_service_name(8081), "unknown");
}

#[test]
fn default_config() {
    let c = Config::default();
    assert_eq!(c.mqtt.broker_host, "localhost");
    assert_eq!(c.mqtt.broker_port, 1883);
    assert_eq!(c.mqtt.client_id, "secot_cli_tool");
    assert!(c.mqtt.username.is_none() && c.mqtt.password.is_none());
    assert_eq!(c.serial.baud_rate, 115200);
    assert!(c.serial.auto_connect);
    assert_eq!(c.output.default_format, "table");
}

#[test]
fn port_status_text() {
    let p = PortStatus::new(22, "open");
    assert_eq!(p.describe(), "Port: 22, Status: open, Service: SSH");
    let q = PortStatus { port: 9, status: "closed".to_string(), service: None };
    assert_eq!(q.describe(), "Port: 9, Status: closed, Service: unknown");
}

#[test]
fn wifi_network_text() {
    let w = WiFiNetwork {
        ssid: "lab".to_string(),
        bssid: "aa:bb:cc:dd:ee:ff".to_string(),
        channel: 11,
        rssi: -67,
        encryption: "WPA2".to_string(),
        hidden: false,
    };
    assert_eq!(
        w.describe(),
        "SSID: lab, BSSID: aa:bb:cc:dd:ee:ff, Channel: 11, RSSI: -67, Encryption: WPA2, Hidden: false"
    );
}

#[test]
fn decimal_formatting() {
    assert_eq!(decimal_string(0), "0");
    assert_eq!(decimal_string(115200), "115200");
    assert_eq!(decimal_string(u64::MAX), "18446744073709551615");
    assert_eq!(signed_decimal_string(-5), "-5");
    assert_eq!(signed_decimal_string(i64::MIN), "-9223372036854775808");
    assert_eq!(signed_decimal_string(42), "42");
}

#[test]
fn text_search() {
    assert!(contains("SECoT ready", "SECoT"));
    assert!(contains("boot: SECoT", "SECoT"));
    assert!(!contains("SECo", "SECoT"));
    assert!(contains("anything", ""));
    assert!(same_text("json", "json"));
    assert!(!same_text("json", "table"));
}

#[test]
fn device_commands() {
    assert_eq!(attack_command("deauth", Some(30)), "attack deauth 30");
    assert_eq!(attack_command("deauth", None), "attack deauth");
    assert_eq!(stop_command(Some("deauth")), "stop deauth");
    assert_eq!(stop_command(None), "stop");
    assert_eq!(set_command("deauth", "channel", "6"), "set deauth channel 6");
    assert_eq!(get_command("deauth", "channel"), "get deauth channel");
}

#[test]
fn reply_rendering() {
    assert_eq!(render_reply("{\"a\":1}", "json"), "{\n  \"a\": 1\n}");
    assert_eq!(render_reply("{\"a\":1}", "table"), "{\"a\":1}");
    assert_eq!(render_reply("not json", "json"), "not json");
    assert_eq!(render_with("x", "json", Some("pretty".to_string())), "pretty");
    assert_eq!(render_with("x", "json", None), "x");
    assert_eq!(render_with("x", "table", Some("pretty".to_string())), "x");
}

#[test]
fn usb_filter_keeps_order() {
    let ports = vec![
        PortCandidate { name: "a".to_string(), usb: true },
        PortCandidate { name: "b".to_string(), usb: false },
        PortCandidate { name: "c".to_string(), usb: true },
    ];
    assert_eq!(usb_candidates(&ports), vec!["a".to_string(), "c".to_string()]);
}
