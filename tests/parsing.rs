use secot::{
    common_ports, host_addresses, hostname_from_lookup, known_brokers, parse_cidr, parse_command,
    parse_ipv4, parse_u32, split_on, split_words, CidrError, CliCommand, ParseError,
    HOST_POINTER_PATTERN, NSLOOKUP_NAME_PATTERN,
};

#[test]
fn words_split_on_any_whitespace() {
    assert_eq!(split_words("  serial \t connect   COM3\n"), vec!["serial", "connect", "COM3"]);
    assert!(split_words("   ").is_empty());
    assert_eq!(split_words("a\u{3000}b"), vec!["a", "b"]);
}

#[test]
fn pieces_keep_empty_parts() {
    assert_eq!(split_on("a..b", '.'), vec!["a", "", "b"]);
    assert_eq!(split_on("", '/'), vec![""]);
}

#[test]
fn numbers_as_std_reads_them() {
    assert_eq!(parse_u32("115200"), Some(115200));
    assert_eq!(parse_u32("+7"), Some(7));
    assert_eq!(parse_u32("4294967295"), Some(u32::MAX));
    assert_eq!(parse_u32("4294967296"), None);
    assert_eq!(parse_u32(""), None);
    assert_eq!(parse_u32("+"), None);
    assert_eq!(parse_u32("12a"), None);
    assert_eq!(parse_u32("-1"), None);
}

#[test]
fn console_commands() {
    assert_eq!(parse_command("help"), Ok(CliCommand::Help));
    assert_eq!(parse_command("  exit  "), Ok(CliCommand::Exit));
    assert_eq!(parse_command("set output json"), Ok(CliCommand::SetOutput("json".to_string())));
    assert_eq!(parse_command("set output xml"), Err(ParseError::InvalidOutputFormat));
    assert_eq!(parse_command("scan ports 10.0.0.1"), Ok(CliCommand::ScanPorts("10.0.0.1".to_string())));
    assert_eq!(
        parse_command("serial connect /dev/ttyUSB0"),
        Ok(CliCommand::SerialConnect { port: "/dev/ttyUSB0".to_string(), baud_rate: 115200 })
    );
    assert_eq!(
        parse_command("serial connect COM3 9600"),
        Ok(CliCommand::SerialConnect { port: "COM3".to_string(), baud_rate: 9600 })
    );
    assert_eq!(parse_command("serial connect COM3 fast"), Err(ParseError::InvalidBaudRate));
    assert_eq!(
        parse_command("secot attack deauth 30"),
        Ok(CliCommand::SecotAttack { attack_type: "deauth".to_string(), duration: Some(30) })
    );
    assert_eq!(parse_command("secot attack deauth soon"), Err(ParseError::InvalidDuration));
    assert_eq!(parse_command("secot stop"), Ok(CliCommand::SecotStop(None)));
    assert_eq!(parse_command("secot stop deauth"), Ok(CliCommand::SecotStop(Some("deauth".to_string()))));
    assert_eq!(parse_command("secot scan wifi"), Ok(CliCommand::SecotScanWifi));
    assert_eq!(
        parse_command("secot set deauth channel 6"),
        Ok(CliCommand::SecotSet {
            attack: "deauth".to_string(),
            param: "channel".to_string(),
            value: "6".to_string()
        })
    );
    assert_eq!(
        parse_command("secot get deauth channel"),
        Ok(CliCommand::SecotGet { attack: "deauth".to_string(), param: "channel".to_string() })
    );
    assert_eq!(parse_command("serial status"), Ok(CliCommand::SerialStatus));
    assert_eq!(parse_command("frobnicate"), Err(ParseError::Unknown));
    assert_eq!(parse_command(""), Err(ParseError::Unknown));
}

#[test]
fn ipv4_addresses() {
    assert_eq!(parse_ipv4("192.168.1.10"), Some(0xc0a8_010a));
    assert_eq!(parse_ipv4("0.0.0.0"), Some(0));
    assert_eq!(parse_ipv4("255.255.255.255"), Some(u32::MAX));
    assert_eq!(parse_ipv4("256.1.1.1"), None);
    assert_eq!(parse_ipv4("01.1.1.1"), None);
    assert_eq!(parse_ipv4("1.1.1"), None);
    assert_eq!(parse_ipv4("1.1.1.+1"), None);
}

#[test]
fn cidr_parsing() {
    assert_eq!(parse_cidr("192.168.1.0/24"), Ok((0xc0a8_0100, 24)));
    assert_eq!(parse_cidr("192.168.1.0"), Err(CidrError::InvalidFormat));
    assert_eq!(parse_cidr("1.2.3.4/5/6"), Err(CidrError::InvalidFormat));
    assert_eq!(parse_cidr("1.2.3.4/x"), Err(CidrError::InvalidNumber));
    assert_eq!(parse_cidr("1.2.3.4/300"), Err(CidrError::InvalidNumber));
    assert_eq!(parse_cidr("1.2.3.4/33"), Err(CidrError::InvalidPrefix));
    assert_eq!(parse_cidr("1.2.3/8"), Err(CidrError::InvalidAddress));
}

#[test]
fn scan_hosts_of_networks() {
    let hosts = host_addresses(0xc0a8_0137, 24);
    assert_eq!(hosts.len(), 19);
    assert_eq!(hosts[0], 0xc0a8_0101);
    assert_eq!(hosts[18], 0xc0a8_0113);
    assert_eq!(host_addresses(0x0a00_0005, 30), vec![0x0a00_0005, 0x0a00_0006, 0x0a00_0007]);
    assert_eq!(host_addresses(0x0a00_0005, 31), vec![0x0a00_0005]);
    assert!(host_addresses(0x0a00_0005, 32).is_empty());
    assert_eq!(host_addresses(0xffff_ffff, 0)[0], 1);
    assert_eq!(host_addresses(0xffff_ffff, 28), (0xffff_fff1..=0xffff_ffff).collect::<Vec<u32>>());
}

#[test]
fn hostname_from_lookup_output() {
    let host = "10.1.168.192.in-addr.arpa domain name pointer printer.lan.\n";
    assert_eq!(hostname_from_lookup(host, HOST_POINTER_PATTERN), "printer.lan.");
    assert_eq!(hostname_from_lookup("Host not found: 3(NXDOMAIN)", HOST_POINTER_PATTERN), "unknown");
    let ns = "Server:  router\nName:    nas.local\nAddress: 10.0.0.2\n";
    assert_eq!(hostname_from_lookup(ns, NSLOOKUP_NAME_PATTERN), "nas.local");
}

#[test]
fn scan_targets() {
    let ports = common_ports();
    assert_eq!(ports.len(), 18);
    assert_eq!(ports[0], 21);
    assert_eq!(ports[17], 8883);
    assert_eq!(known_brokers(), vec![("localhost".to_string(), 1883), ("localhost".to_string(), 8883)]);
}
