use dmx_osc_bridge::{
    channel_address_string, encode_channel, normalize_frame, push_decimal, translate_frame,
    Connection, ConnectionState, Incoming, Step, CHANNEL_COUNT,
};
use rosc::{OscPacket, OscType};

const UNIVERSE: &str = "dmx/universe/0";

fn decode(bytes: &[u8]) -> (String, Vec<OscType>) {
    let (rest, packet) = rosc::decoder::decode_udp(bytes).expect("valid OSC");
    assert!(rest.is_empty());
    match packet {
        OscPacket::Message(m) => (m.addr, m.args),
        OscPacket::Bundle(_) => panic!("expected a message"),
    }
}

fn forwarded(step: Step) -> Vec<Vec<u8>> {
    match step {
        Step::Forward(d) => d,
        Step::Dropped => panic!("frame was dropped"),
        Step::Closed => panic!("connection closed"),
    }
}

#[test]
fn normalize_empty_payload_is_all_zero() {
    let r = normalize_frame(&[]);
    assert_eq!(r.len(), 512);
    assert!(r.iter().all(|&b| b == 0));
}

#[test]
fn normalize_full_payload_is_unchanged() {
    let p: Vec<u8> = (0..512).map(|i| (i % 251) as u8).collect();
    assert_eq!(normalize_frame(&p), p);
}

#[test]
fn normalize_long_payload_is_truncated() {
    let p: Vec<u8> = (0..700).map(|i| (i % 256) as u8).collect();
    let r = normalize_frame(&p);
    assert_eq!(r.len(), 512);
    assert_eq!(&r[..], &p[..512]);
}

#[test]
fn normalize_short_payload_is_zero_padded() {
    let p: Vec<u8> = vec![9, 8, 7, 6, 5, 4, 3, 2, 1, 255];
    let r = normalize_frame(&p);
    assert_eq!(r.len(), 512);
    assert_eq!(&r[..10], &p[..]);
    assert!(r[10..].iter().all(|&b| b == 0));
}

#[test]
fn decimal_notation() {
    let mut s = String::from("x");
    push_decimal(&mut s, 0);
    assert_eq!(s, "x0");
    let mut t = String::new();
    push_decimal(&mut t, 1234567890);
    assert_eq!(t, "1234567890");
    let mut u = String::new();
    push_decimal(&mut u, u64::MAX);
    assert_eq!(u, u64::MAX.to_string());
}

#[test]
fn channel_addresses_are_one_based() {
    assert_eq!(channel_address_string(UNIVERSE, 0), "/dmx/universe/0/1");
    assert_eq!(channel_address_string(UNIVERSE, 5), "/dmx/universe/0/6");
    assert_eq!(channel_address_string(UNIVERSE, 511), "/dmx/universe/0/512");
    assert_eq!(channel_address_string("", 9), "//10");
}

#[test]
fn encoded_channel_round_trips() {
    let bytes = encode_channel(UNIVERSE, 5, 200).expect("encodes");
    let (addr, args) = decode(&bytes);
    assert_eq!(addr, "/dmx/universe/0/6");
    assert_eq!(args.len(), 1);
    assert!(matches!(args[0], OscType::Int(200)));
}

#[test]
fn encoded_channel_exact_bytes() {
    let bytes = encode_channel("u", 0, 7).expect("encodes");
    let expected: Vec<u8> = vec![
        b'/', b'u', b'/', b'1', 0, 0, 0, 0, b',', b'i', 0, 0, 0, 0, 0, 7,
    ];
    assert_eq!(bytes, expected);
    let bytes = encode_channel("ab", 41, 255).expect("encodes");
    let expected: Vec<u8> = vec![
        b'/', b'a', b'b', b'/', b'4', b'2', 0, 0, b',', b'i', 0, 0, 0, 0, 0, 255,
    ];
    assert_eq!(bytes, expected);
}

#[test]
fn frame_sends_every_channel_in_order() {
    let payload: Vec<u8> = (0..300).map(|i| (i % 256) as u8).collect();
    let datagrams = translate_frame(UNIVERSE, &payload);
    assert_eq!(datagrams.len(), CHANNEL_COUNT);
    for (i, d) in datagrams.iter().enumerate() {
        let (addr, args) = decode(d);
        assert_eq!(addr, format!("/dmx/universe/0/{}", i + 1));
        let expected = if i < 300 { (i % 256) as i32 } else { 0 };
        assert_eq!(args.len(), 1);
        match args[0] {
            OscType::Int(v) => assert_eq!(v, expected),
            _ => panic!("expected an int argument"),
        }
    }
}

#[test]
fn frames_are_independent() {
    let mut c = Connection::new();
    let mut a = vec![0u8; 512];
    a[0] = 255;
    let first = forwarded(c.on_incoming(UNIVERSE, &Incoming::Binary(a)));
    let (_, args) = decode(&first[0]);
    assert!(matches!(args[0], OscType::Int(255)));
    let second = forwarded(c.on_incoming(UNIVERSE, &Incoming::Binary(vec![0u8; 512])));
    let (addr, args) = decode(&second[0]);
    assert_eq!(addr, "/dmx/universe/0/1");
    assert!(matches!(args[0], OscType::Int(0)));
}

#[test]
fn non_binary_frame_is_dropped() {
    let mut c = Connection::new();
    let payload = vec![1u8, 2, 3];
    let before = forwarded(c.on_incoming(UNIVERSE, &Incoming::Binary(payload.clone())));
    assert!(matches!(c.on_incoming(UNIVERSE, &Incoming::NonBinary), Step::Dropped));
    assert_eq!(c.state, ConnectionState::Reading);
    let after = forwarded(c.on_incoming(UNIVERSE, &Incoming::Binary(payload)));
    assert_eq!(before, after);
    assert_eq!(after.len(), 512);
}

#[test]
fn end_of_stream_closes_connection() {
    let mut c = Connection::new();
    assert_eq!(c.state, ConnectionState::Reading);
    assert!(matches!(c.on_incoming(UNIVERSE, &Incoming::Ended), Step::Closed));
    assert_eq!(c.state, ConnectionState::Closed);
    assert!(matches!(
        c.on_incoming(UNIVERSE, &Incoming::Binary(vec![1u8])),
        Step::Closed
    ));
    assert!(matches!(c.on_incoming(UNIVERSE, &Incoming::NonBinary), Step::Closed));
    assert_eq!(c.state, ConnectionState::Closed);
}

#[test]
fn empty_frame_sends_zero_on_every_channel() {
    let datagrams = translate_frame("x", &[]);
    assert_eq!(datagrams.len(), 512);
    for d in &datagrams {
        let (_, args) = decode(d);
        assert!(matches!(args[0], OscType::Int(0)));
    }
}
