use deliriuum::config::parse;
use deliriuum::engine::{decrypt, encrypt, health_of, on_decapsulated, sent_bytes, tick, tunnel_for, Engine, TunnOutput};
use deliriuum::tun::{frame_packet, tun_address_args, tun_link_args, unframe_packet, utun_ifconfig_args};

#[test]
fn ipv4_packets_are_framed_with_their_family() {
    let packet = [0x45u8, 0, 0, 20];
    assert_eq!(frame_packet(&packet, 2, 30).unwrap(), vec![0, 0, 0, 2, 0x45, 0, 0, 20]);
}

#[test]
fn ipv6_packets_are_framed_with_their_family() {
    let packet = [0x60u8, 1, 2];
    assert_eq!(frame_packet(&packet, 2, 30).unwrap(), vec![0, 0, 0, 30, 0x60, 1, 2]);
    assert_eq!(frame_packet(&packet, 2, 0x0102_0304).unwrap()[..4], [1, 2, 3, 4]);
    assert!(frame_packet(&[], 2, 30).is_none());
}

#[test]
fn framed_packets_read_back() {
    let packet = vec![0x45u8, 9, 8, 7, 6];
    let framed = frame_packet(&packet, 2, 30).unwrap();
    assert_eq!(unframe_packet(&framed, framed.len()).unwrap(), packet);
    assert!(unframe_packet(&framed, 4).is_none());
    assert_eq!(unframe_packet(&framed, 6).unwrap(), vec![0x45, 9]);
}

#[test]
fn interface_commands() {
    assert_eq!(utun_ifconfig_args("utun4", "10.8.0.2/32", 1420), vec!["utun4", "inet", "10.8.0.2", "10.8.0.2", "mtu", "1420", "up"]);
    assert_eq!(utun_ifconfig_args("utun4", "10.8.0.2", 1280)[2], "10.8.0.2");
    assert_eq!(tun_link_args("deliriuum0", 1420), vec!["link", "set", "dev", "deliriuum0", "mtu", "1420", "up"]);
    assert_eq!(tun_address_args("deliriuum0", "10.8.0.2/32"), vec!["address", "add", "10.8.0.2/32", "dev", "deliriuum0"]);
}

#[test]
fn tunnel_health() {
    assert!(health_of(false, 100, 90));
    assert!(!health_of(false, 100, 80));
    assert!(health_of(true, 100, 41));
    assert!(!health_of(true, 100, 40));
    assert!(health_of(true, 5, 10));
}

#[test]
fn new_engine_is_quiet_and_alive() {
    let e = Engine::new("utun3".into());
    assert_eq!(e.iface, "utun3");
    assert_eq!(e.stats(), (false, 0, 0));
    assert!(e.healthy());
    e.stop();
    let shared = e.shared();
    assert!(shared.stop.load(std::sync::atomic::Ordering::Relaxed));
}

#[test]
fn receiving_thread_reactions() {
    let r = on_decapsulated(&TunnOutput::ToNetwork(vec![0; 92]));
    assert!(r.send && r.again && r.handshake && !r.deliver && r.received == 0);
    let r = on_decapsulated(&TunnOutput::ToTunnel(vec![0; 84]));
    assert!(r.deliver && r.handshake && !r.again && r.received == 84);
    let r = on_decapsulated(&TunnOutput::Done);
    assert!(!r.send && !r.deliver && !r.again);
    let r = on_decapsulated(&TunnOutput::Failed("x".into()));
    assert!(!r.handshake);
    assert_eq!(sent_bytes(1400, true), 1400);
    assert_eq!(sent_bytes(1400, false), 0);
}

#[test]
fn new_session_starts_with_a_handshake() {
    let conf = "PrivateKey = AQEBAQEBAQEBAQEBAQEBAQEBAQEBAQEBAQEBAQEBAQE=\nPublicKey = AgICAgICAgICAgICAgICAgICAgICAgICAgICAgICAgI=\nAddress = 10.0.0.2/32\nEndpoint = 1.2.3.4:51820\n";
    let cfg = parse(conf).unwrap();
    let mut tunn = tunnel_for(&cfg);
    let mut dst = vec![0u8; 2048];
    // Without a session, the first packet is held and a handshake initiation goes out.
    let out = encrypt(&mut tunn, &[0x45, 0, 0, 20], &mut dst);
    assert!(out.datagram.is_some());
    assert_eq!(out.sent, 4);
    assert!(out.datagram.unwrap().len() >= 148);
    let t = tick(&mut tunn, &mut dst);
    assert!(t.is_ok());
}

#[test]
fn boringtun_outputs_have_wireguard_sizes() {
    let conf = "PrivateKey = AQEBAQEBAQEBAQEBAQEBAQEBAQEBAQEBAQEBAQEBAQE=\nPublicKey = AgICAgICAgICAgICAgICAgICAgICAgICAgICAgICAgI=\nAddress = 10.0.0.2/32\nEndpoint = 1.2.3.4:51820\n";
    let cfg = parse(conf).unwrap();
    let mut tunn = tunnel_for(&cfg);
    let mut dst = vec![0u8; 65536];
    let out = encrypt(&mut tunn, &[0x45, 0, 0, 20, 0, 0], &mut dst);
    assert_eq!(out.datagram.map(|d| d.len()), Some(148));
    assert_eq!(out.sent, 6);
    assert!(out.error.is_none());
    // A handshake is now under way: the next packet is queued, nothing goes out.
    let out = encrypt(&mut tunn, &[0x45, 0, 0, 20], &mut dst);
    assert!(out.datagram.is_none() && out.error.is_none());
    assert_eq!(out.sent, 0);
    // Draining without a session gives nothing for the tunnel.
    match decrypt(&mut tunn, &[], &mut dst) {
        TunnOutput::ToTunnel(_) | TunnOutput::Failed(_) => panic!("unexpected outcome"),
        _ => {},
    }
    // A datagram that is not WireGuard is refused.
    assert!(matches!(decrypt(&mut tunn, &[9, 9, 9, 9, 9], &mut dst), TunnOutput::Failed(_)));
    match tick(&mut tunn, &mut dst) {
        Ok(Some(d)) => assert!(d.len() == 32 || d.len() == 148),
        _ => {},
    }
}

#[test]
fn session_keeps_the_configuration() {
    let conf = "PrivateKey = AQEBAQEBAQEBAQEBAQEBAQEBAQEBAQEBAQEBAQEBAQE=\nPublicKey = AgICAgICAgICAgICAgICAgICAgICAgICAgICAgICAgI=\nAddress = 10.0.0.2/32\nEndpoint = 1.2.3.4:51820\nPersistentKeepalive = 15\n";
    let cfg = parse(conf).unwrap();
    let mut tunn = tunnel_for(&cfg);
    let mut dst = vec![0u8; 65536];
    // A packet of the largest accepted size still fits the buffer.
    let big = vec![0x45u8; deliriuum::engine::MAX_PACKET];
    let out = encrypt(&mut tunn, &big, &mut dst);
    assert_eq!(out.datagram.map(|d| d.len()), Some(148));
    assert_eq!(out.sent, 65504);
}
