use cyberorto::api::{KillRunningActionArgs, KillRunningActionResponse};
use cyberorto::protocol::{frame_message, read_packet, DecayType, FrameError, InnerMaster};
use cyberorto::serial::{str_eq, DeviceIdentifier, MastersOpt, SerialPorts};
use cyberorto::text::{parse_u32, split_owned};

#[test]
fn serial_ports_keywords() {
    assert!(matches!(SerialPorts::parse("simulated"), Ok(SerialPorts::Simulated)));
    assert!(matches!(SerialPorts::parse("auto"), Ok(SerialPorts::Autodiscover)));
    assert!(matches!(SerialPorts::parse("autosimulated"), Ok(SerialPorts::AutodiscoverOrSimulate)));
}

#[test]
fn serial_ports_list() {
    match SerialPorts::parse("/dev/ttyACM0,/dev/ttyUSB1") {
        Ok(SerialPorts::Ports(p)) => assert_eq!(p, vec!["/dev/ttyACM0", "/dev/ttyUSB1"]),
        _ => panic!("expected a list of ports"),
    }
    match SerialPorts::parse("") {
        Ok(SerialPorts::Ports(p)) => assert_eq!(p, vec![""]),
        _ => panic!("expected a list of ports"),
    }
    match SerialPorts::parse("a,,b,") {
        Ok(SerialPorts::Ports(p)) => assert_eq!(p, vec!["a", "", "b", ""]),
        _ => panic!("expected a list of ports"),
    }
}

#[test]
fn split_then_join() {
    for s in ["", ",", "x", "a,b", "ü,ß,,"] {
        let pieces = split_owned(s, ',');
        assert_eq!(pieces.join(","), s);
        let expected: Vec<String> = s.split(',').map(str::to_string).collect();
        assert_eq!(pieces, expected);
    }
}

#[test]
fn parse_u32_like_std() {
    for s in ["0", "+0", "42", "+", "", "-1", "4294967295", "4294967296", "00012", "1_0", " 1", "+-1", "٣"] {
        assert_eq!(parse_u32(s), s.parse::<u32>().ok(), "{s:?}");
    }
}

#[test]
fn text_equality() {
    assert!(str_eq("auto", "auto"));
    assert!(!str_eq("auto", "autos"));
    assert!(!str_eq("auto", "Auto"));
}

fn ident(name: &[u8; 10]) -> DeviceIdentifier {
    DeviceIdentifier { name: *name, version: 0 }
}

#[test]
fn device_capabilities() {
    let id = ident(b"xy        ");
    assert!(id.handles(b'x'));
    assert!(id.handles(b'y'));
    assert!(!id.handles(b'z'));
}

#[test]
fn role_assignment() {
    let mut m = MastersOpt::new();
    assert!(m.all_missing());
    assert_eq!(m.missing_role(), Some(b'x'));
    assert_eq!(m.assign(0, &ident(b"xy        ")), Ok(()));
    assert_eq!(m.x, Some(0));
    assert_eq!(m.y, Some(0));
    assert_eq!(m.missing_role(), Some(b'z'));
    assert_eq!(m.assign(1, &ident(b"motor z   ")), Ok(()));
    assert_eq!(m.z, Some(1));
    assert_eq!(m.assign(2, &ident(b"y         ")), Err(b'y'));
    assert_eq!(m.assign(3, &ident(b"p         ")), Ok(()));
    assert_eq!(m.peripherals, Some(3));
    assert_eq!(m.missing_role(), None);
    assert!(!m.all_missing());
}

#[test]
fn framing() {
    let payload = [1u8, 2, 126, 4];
    let bytes = frame_message(&payload, 9).unwrap();
    assert_eq!(bytes.len(), payload.len() + 6);
    assert_eq!(bytes[0], 126);
    assert_eq!(bytes[1], 9);
    assert_eq!(bytes[3], 4);
    assert_eq!(*bytes.last().unwrap(), 129);
    assert_ne!(&bytes[..], &payload[..]);

    let mut parser = serialmessage::SerMsg::new();
    let (state, _) = parser.parse_read_bytes(&bytes);
    assert!(matches!(state, serialmessage::ParseState::DataReady));
    assert_eq!(parser.return_read_data(), &payload[..]);
    assert_eq!(parser.return_msg_id(), 9);

    let long = vec![0u8; 255];
    assert_eq!(frame_message(&long, 1), Err(FrameError::PayloadTooLong));
    assert_eq!(frame_message(&[], 1).unwrap().len(), 6);
}

#[test]
fn request_ids() {
    let mut m = InnerMaster::new();
    assert_eq!(m.next_id(), 1);
    assert!(m.is_reply(1));
    assert!(!m.is_reply(0));
    m.id = 255;
    assert_eq!(m.next_id(), 0);
}

#[test]
fn decay_pins() {
    assert!(DecayType::Fast.pin_high());
    assert!(!DecayType::Slow.pin_high());
}

#[test]
fn api_bodies() {
    let a = KillRunningActionArgs { action_id: 96, keep_in_queue: false };
    assert_eq!(a.action_id, 96);
    assert!(!a.keep_in_queue);
    let r = KillRunningActionResponse { success: true };
    assert!(r.success);
}

#[test]
fn resend_gives_up_after_all_attempts() {
    use_resend(3, 3);
    use_resend(1, 1);
    let r = cyberorto::protocol::Resend::new(0);
    assert!(!r.may_attempt());
}

fn use_resend(times: u8, expected_attempts: u8) {
    let mut r = cyberorto::protocol::Resend::new(times);
    let mut sent = 0;
    while r.may_attempt() {
        sent += 1;
        if r.attempt_failed() == cyberorto::protocol::AttemptDecision::GiveUp {
            break;
        }
    }
    assert_eq!(sent, expected_attempts);
    assert!(!r.may_attempt());
}

#[test]
fn packets_are_read_back() {
    for payload in [vec![1u8, 2, 126, 4, 126], vec![], vec![7u8; 254]] {
        let bytes = frame_message(&payload, 33).unwrap();
        let mut pending = Vec::new();
        for (k, b) in bytes.iter().enumerate() {
            let r = read_packet(&mut pending, *b);
            if k + 1 < bytes.len() {
                assert_eq!(r, None);
                assert_eq!(pending.len(), k + 1);
            } else {
                assert_eq!(r, Some((33, payload.clone())));
                assert!(pending.is_empty());
            }
        }
    }
}

#[test]
fn corrupt_packet_is_rejected_and_parsing_restarts() {
    let mut bytes = frame_message(&[5u8, 6, 7], 2).unwrap();
    let crc = bytes.len() - 2;
    bytes[crc] = bytes[crc].wrapping_add(1);
    let mut pending = Vec::new();
    for b in &bytes[..crc] {
        assert_eq!(read_packet(&mut pending, *b), None);
    }
    assert_eq!(read_packet(&mut pending, bytes[crc]), None);
    assert!(pending.is_empty());
    // noise, then a good packet
    assert_eq!(read_packet(&mut pending, 0), None);
    let good = frame_message(&[9u8], 3).unwrap();
    let mut got = None;
    for b in &good {
        got = read_packet(&mut pending, *b);
    }
    assert_eq!(got, Some((3, vec![9u8])));
}
