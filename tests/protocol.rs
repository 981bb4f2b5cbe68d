use secot::{
    Delivery, Discovery, DiscoveryAction, DiscoveryPhase, FrameCodec, PortCandidate, Session,
    SessionError, DEFAULT_BAUD_RATE, DEFAULT_TIMEOUT_MS, DEVICE_IDENTITY, HANDSHAKE,
};

fn resolved(d: &Delivery) -> (u64, String) {
    match d {
        Delivery::Resolved { id, response } => (*id, response.clone()),
        Delivery::Unsolicited(t) => panic!("unsolicited frame {}", t),
    }
}

#[test]
fn frame_codec_round_trip() {
    let mut codec = FrameCodec::new();
    let first = codec.feed(b"OK\nSECoT ready\nparti");
    assert_eq!(first, vec!["OK".to_string(), "SECoT ready".to_string()]);
    assert_eq!(codec.buffered(), b"parti".to_vec());
    let second = codec.feed(b"al\n");
    assert_eq!(second, vec!["partial".to_string()]);
    assert!(codec.buffered().is_empty());
}

#[test]
fn frame_codec_keeps_empty_lines_and_strips_carriage_return() {
    let mut codec = FrameCodec::new();
    let frames = codec.feed(b"\nready\r\n\r\n");
    assert_eq!(frames, vec!["".to_string(), "ready".to_string(), "".to_string()]);
}

#[test]
fn frame_codec_replaces_invalid_bytes() {
    let mut codec = FrameCodec::new();
    let frames = codec.feed(&[b'a', 0xff, b'b', b'\n']);
    assert_eq!(frames, vec!["a\u{fffd}b".to_string()]);
}

#[test]
fn frame_codec_raw_lines_across_reads() {
    let mut codec = FrameCodec::new();
    assert!(codec.feed_raw(b"ab").is_empty());
    let lines = codec.feed_raw(b"c\nd");
    assert_eq!(lines, vec![b"abc".to_vec()]);
    assert_eq!(codec.buffered(), b"d".to_vec());
}

#[test]
fn new_session_defaults() {
    let s = Session::new();
    assert!(!s.is_connected());
    assert_eq!(s.baud_rate(), DEFAULT_BAUD_RATE);
    assert_eq!(s.baud_rate(), 115200);
    assert_eq!(s.timeout_ms(), DEFAULT_TIMEOUT_MS);
    assert_eq!(s.timeout_ms(), 5000);
}

#[test]
fn send_while_disconnected_fails_without_write() {
    let mut s = Session::new();
    assert_eq!(s.send("ping", 0), Err(SessionError::NotConnected));
    assert!(s.take_outgoing().is_empty());
    s.on_opened("/dev/ttyUSB0", 115200);
    s.disconnect();
    assert_eq!(s.send("status", 10), Err(SessionError::NotConnected));
    assert!(s.take_outgoing().is_empty());
}

#[test]
fn send_queues_newline_terminated_line() {
    let mut s = Session::new();
    s.on_opened("/dev/ttyUSB0", 9600);
    assert!(s.is_connected());
    assert_eq!(s.port_name(), "/dev/ttyUSB0");
    assert_eq!(s.baud_rate(), 9600);
    assert_eq!(s.send("scan wifi", 0), Ok(0));
    assert_eq!(s.send("status", 0), Ok(1));
    assert_eq!(s.take_outgoing(), vec!["scan wifi\n".to_string(), "status\n".to_string()]);
    assert!(s.take_outgoing().is_empty());
}

#[test]
fn concurrent_sends_resolve_in_submission_order() {
    let mut s = Session::new();
    s.on_opened("/dev/ttyACM0", 115200);
    let commands = ["one", "two", "three", "four"];
    let mut ids = Vec::new();
    for c in commands.iter() {
        ids.push(s.send(c, 100).unwrap());
    }
    // an echoing device writes every line back
    let mut echoed = Vec::new();
    for line in s.take_outgoing() {
        echoed.extend_from_slice(line.as_bytes());
    }
    let deliveries = s.receive(&echoed);
    assert_eq!(deliveries.len(), 4);
    for (k, d) in deliveries.iter().enumerate() {
        assert_eq!(resolved(d), (ids[k], commands[k].to_string()));
    }
    assert_eq!(s.receive(b"late\n"), vec![Delivery::Unsolicited("late".to_string())]);
}

#[test]
fn frame_split_over_reads_resolves_once() {
    let mut s = Session::new();
    s.on_opened("COM3", 115200);
    let id = s.send("status", 0).unwrap();
    assert!(s.receive(b"idl").is_empty());
    let d = s.receive(b"e\r\n");
    assert_eq!(d, vec![Delivery::Resolved { id, response: "idle".to_string() }]);
}

#[test]
fn unanswered_request_times_out_at_deadline_and_next_becomes_active() {
    let mut s = Session::new();
    s.on_opened("/dev/ttyUSB0", 115200);
    let first = s.send("scan mqtt", 1000).unwrap();
    let second = s.send("status", 3000).unwrap();
    assert!(s.tick(5999).is_empty());
    assert_eq!(s.tick(6000), vec![first]);
    assert!(s.tick(7999).is_empty());
    let d = s.deliver("ok".to_string());
    assert_eq!(d, Delivery::Resolved { id: second, response: "ok".to_string() });
}

#[test]
fn timeout_is_configurable_and_saturates() {
    let mut s = Session::new();
    s.set_timeout_ms(250);
    s.on_opened("/dev/ttyUSB0", 115200);
    let a = s.send("a", 100).unwrap();
    let b = s.send("b", u64::MAX - 10).unwrap();
    assert_eq!(s.tick(350), vec![a]);
    assert!(s.tick(u64::MAX - 1).is_empty());
    assert_eq!(s.tick(u64::MAX), vec![b]);
}

#[test]
fn disconnect_cancels_every_pending_request() {
    let mut s = Session::new();
    s.on_opened("/dev/ttyUSB0", 115200);
    let ids: Vec<u64> = ["a", "b", "c"].iter().map(|c| s.send(c, 0).unwrap()).collect();
    let cancelled = s.disconnect();
    assert_eq!(cancelled, ids);
    assert!(!s.is_connected());
    assert!(s.tick(u64::MAX).is_empty());
    assert!(s.take_outgoing().is_empty());
}

#[test]
fn reconnect_cancels_requests_of_previous_port() {
    let mut s = Session::new();
    s.on_opened("/dev/ttyUSB0", 115200);
    let id = s.send("ping", 0).unwrap();
    let cancelled = s.on_opened("/dev/ttyUSB1", 57600);
    assert_eq!(cancelled, vec![id]);
    assert_eq!(s.port_name(), "/dev/ttyUSB1");
    assert_eq!(s.send("ping", 0), Ok(id + 1));
}

fn port(name: &str, usb: bool) -> PortCandidate {
    PortCandidate { name: name.to_string(), usb }
}

#[test]
fn auto_discover_finds_second_candidate() {
    let ports = vec![port("/dev/ttyUSB0", true), port("/dev/ttyUSB1", true), port("/dev/ttyUSB2", true)];
    let replies = ["hello", "SECoT ready", "other"];
    let mut session = Session::new();
    let (mut d, mut action) = Discovery::start(&ports, "ping", "SECoT");
    let mut disconnected = Vec::new();
    let mut now: u64 = 0;
    let found = loop {
        action = match action {
            DiscoveryAction::Connect(p) => {
                session.on_opened(&p, DEFAULT_BAUD_RATE);
                d.opened(true)
            }
            DiscoveryAction::Handshake(cmd) => {
                now += 1;
                let id = session.send(&cmd, now).unwrap();
                assert_eq!(session.take_outgoing(), vec!["ping\n".to_string()]);
                let idx = ports.iter().position(|c| c.name == session.port_name()).unwrap();
                let reply = format!("{}\n", replies[idx]);
                let got = session.receive(reply.as_bytes());
                let (rid, text) = resolved(&got[0]);
                assert_eq!(rid, id);
                d.replied(Some(&text))
            }
            DiscoveryAction::Disconnect => {
                disconnected.push(session.port_name());
                session.disconnect();
                d.closed()
            }
            DiscoveryAction::Found(p) => break Some(p),
            DiscoveryAction::NotFound => break None,
        };
    };
    assert_eq!(found, Some("/dev/ttyUSB1".to_string()));
    assert_eq!(disconnected, vec!["/dev/ttyUSB0".to_string()]);
    assert!(session.is_connected());
    assert_eq!(session.port_name(), "/dev/ttyUSB1");
    assert_eq!(d.phase_now(), DiscoveryPhase::Finished);
    assert_eq!(HANDSHAKE, "ping");
    assert_eq!(DEVICE_IDENTITY, "SECoT");
}

#[test]
fn discovery_skips_non_usb_and_failed_ports() {
    let ports = vec![port("/dev/ttyS0", false), port("/dev/ttyUSB0", true), port("/dev/ttyACM0", true)];
    let (mut d, a) = Discovery::start(&ports, "ping", "SECoT");
    assert_eq!(a, DiscoveryAction::Connect("/dev/ttyUSB0".to_string()));
    assert_eq!(d.opened(false), DiscoveryAction::Connect("/dev/ttyACM0".to_string()));
    assert_eq!(d.opened(true), DiscoveryAction::Handshake("ping".to_string()));
    assert_eq!(d.replied(None), DiscoveryAction::Disconnect);
    assert_eq!(d.closed(), DiscoveryAction::NotFound);
}

#[test]
fn discovery_without_candidates_is_not_found() {
    let ports = vec![port("/dev/ttyS0", false)];
    let (d, a) = Discovery::start(&ports, "ping", "SECoT");
    assert_eq!(a, DiscoveryAction::NotFound);
    assert_eq!(d.phase_now(), DiscoveryPhase::Finished);
}

#[test]
fn feeding_in_pieces_matches_feeding_at_once() {
    let stream: &[u8] = b"OK\r\n\nSECoT ready\nstatus: idle\npart";
    let mut whole = FrameCodec::new();
    let all = whole.feed(stream);
    for cut in 0..=stream.len() {
        let mut split = FrameCodec::new();
        let mut got = split.feed(&stream[..cut]);
        got.extend(split.feed(&stream[cut..]));
        assert_eq!(got, all);
        assert_eq!(split.buffered(), whole.buffered());
    }
    assert_eq!(all, vec!["OK".to_string(), "".to_string(), "SECoT ready".to_string(), "status: idle".to_string()]);
}
