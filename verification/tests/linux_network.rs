use deliriuum::linux_flow::{self, Action, Event};
use deliriuum::net_linux::{
    command_failure, current_gateway, endpoint_parts, endpoint_route_add_args,
    endpoint_route_del_args, killswitch_off_args, killswitch_rules, load_state, physical_route,
    state_text, tunnel_route_args, literal_endpoint, resolved_endpoint, Address, Applied, Half,
    PhysicalRoute,
};

#[test]
fn physical_route_with_gateway() {
    let r = physical_route("default via 192.168.1.1 dev wlan0 proto dhcp metric 600\n").unwrap();
    assert_eq!(r.gateway.as_deref(), Some("192.168.1.1"));
    assert_eq!(r.iface, "wlan0");
    assert_eq!(current_gateway("default via 192.168.1.1 dev wlan0\n").as_deref(), Some("192.168.1.1@wlan0"));
}

#[test]
fn physical_route_without_gateway() {
    let r = physical_route("default dev ppp0 scope link").unwrap();
    assert!(r.gateway.is_none());
    assert_eq!(current_gateway("default dev ppp0 scope link").as_deref(), Some("direct@ppp0"));
    assert!(physical_route("").is_none());
    assert!(physical_route("default via 10.0.0.1").is_none());
}

#[test]
fn endpoints_are_split() {
    assert_eq!(endpoint_parts("1.2.3.4:51820").unwrap(), ("1.2.3.4".to_string(), 51820));
    assert_eq!(endpoint_parts("[2001:db8::1]:443").unwrap(), ("2001:db8::1".to_string(), 443));
    assert_eq!(endpoint_parts("node1").err().unwrap(), "Endpoint WireGuard invalide : node1");
    assert_eq!(endpoint_parts("[::1]443").err().unwrap(), "Endpoint WireGuard invalide : [::1]443");
    assert_eq!(endpoint_parts("host:99999").err().unwrap(), "Port WireGuard invalide : host:99999");
}

fn state() -> Applied {
    Applied {
        tunnel_iface: "deliriuum0".into(),
        physical_iface: "eth0".into(),
        gateway: Some("10.0.0.1".into()),
        endpoint_ip: "1.2.3.4".into(),
        endpoint_port: 51820,
    }
}

#[test]
fn state_file_roundtrip() {
    let text = state_text(&state());
    assert_eq!(text, "deliriuum0\neth0\n10.0.0.1\n1.2.3.4\n51820\n");
    let back = load_state(&text).unwrap();
    assert_eq!(back.gateway.as_deref(), Some("10.0.0.1"));
    assert_eq!(back.endpoint_port, 51820);
    let none = Applied { gateway: None, ..state() };
    assert!(load_state(&state_text(&none)).unwrap().gateway.is_none());
    assert!(load_state("a\nb\nc\n").is_none());
    assert!(load_state("a\nb\nc\nd\nport\n").is_none());
}

#[test]
fn killswitch_script() {
    let rules = killswitch_rules("deliriuum0", "eth0", "1.2.3.4", 51820);
    // The table in place is replaced in the same transaction.
    assert!(rules.starts_with("table inet deliriuum_direct {}\ndelete table inet deliriuum_direct\n\ntable inet deliriuum_direct {\n"));
    assert!(rules.contains("oifname \"deliriuum0\" accept"));
    assert!(rules.contains("oifname \"eth0\" ip daddr 1.2.3.4 udp dport 51820 accept"));
    assert!(rules.contains("policy drop;"));
    assert_eq!(killswitch_off_args(), vec!["delete", "table", "inet", "deliriuum_direct"]);
}

#[test]
fn route_arguments() {
    let route = PhysicalRoute { gateway: Some("10.0.0.1".into()), iface: "eth0".into() };
    assert_eq!(
        endpoint_route_add_args("1.2.3.4", &route),
        vec!["-4", "route", "replace", "1.2.3.4/32", "via", "10.0.0.1", "dev", "eth0"]
    );
    let direct = PhysicalRoute { gateway: None, iface: "ppp0".into() };
    assert_eq!(endpoint_route_add_args("1.2.3.4", &direct), vec!["-4", "route", "replace", "1.2.3.4/32", "dev", "ppp0"]);
    assert_eq!(endpoint_route_del_args("1.2.3.4"), vec!["-4", "route", "del", "1.2.3.4/32"]);
    assert_eq!(tunnel_route_args(true, Half::Low, "tun0"), vec!["-4", "route", "replace", "0.0.0.0/1", "dev", "tun0"]);
    assert_eq!(tunnel_route_args(false, Half::High, "tun0"), vec!["-4", "route", "del", "128.0.0.0/1", "dev", "tun0"]);
}

#[test]
fn command_failures_name_the_command() {
    let args = vec!["-4".to_string(), "route".to_string(), "replace".to_string()];
    assert_eq!(command_failure("ip", &args, " RTNETLINK answers: File exists\n"), "ip -4 route replace a échoué : RTNETLINK answers: File exists");
}

fn route() -> PhysicalRoute {
    PhysicalRoute { gateway: Some("10.0.0.1".into()), iface: "eth0".into() }
}

#[test]
fn linux_apply_succeeds_with_everything_in_place() {
    let f = linux_flow::apply("deliriuum0", "node1:51820", &[]);
    let (f, a) = f.step(Event::Begin);
    assert!(matches!(a, Action::LoadState));
    let (f, a) = f.step(Event::Loaded(None));
    assert!(matches!(a, Action::KillswitchOff));
    let (f, a) = f.step(Event::Done);
    assert!(matches!(a, Action::RemoveState));
    let (f, a) = f.step(Event::Done);
    assert!(matches!(a, Action::Resolve { ref endpoint } if endpoint == "node1:51820"));
    let (f, a) = f.step(Event::Resolved(Ok(("1.2.3.4".into(), 51820))));
    assert!(matches!(a, Action::ReadRoute));
    let (f, a) = f.step(Event::Route(Some(route())));
    assert!(matches!(a, Action::AddEndpointRoute { .. }));
    let (f, a) = f.step(Event::Outcome(Ok(())));
    assert!(matches!(a, Action::AddTunnelRoute { half: Half::Low, .. }));
    let (f, a) = f.step(Event::Outcome(Ok(())));
    assert!(matches!(a, Action::AddTunnelRoute { half: Half::High, .. }));
    let (f, a) = f.step(Event::Outcome(Ok(())));
    assert!(matches!(a, Action::SaveState { ref state } if state.endpoint_port == 51820 && state.physical_iface == "eth0"));
    let (f, a) = f.step(Event::Outcome(Ok(())));
    assert!(matches!(a, Action::KillswitchOn { ref ip, port: 51820, .. } if ip == "1.2.3.4"));
    let (_f, a) = f.step(Event::Outcome(Ok(())));
    assert!(matches!(a, Action::Finish { result: Ok(()) }));
}

#[test]
fn linux_apply_takes_back_what_it_added() {
    let f = linux_flow::apply("deliriuum0", "node1:51820", &[]);
    let (f, _) = f.step(Event::Begin);
    let (f, _) = f.step(Event::Loaded(None));
    let (f, _) = f.step(Event::Done);
    let (f, _) = f.step(Event::Done);
    let (f, _) = f.step(Event::Resolved(Ok(("1.2.3.4".into(), 51820))));
    let (f, _) = f.step(Event::Route(Some(route())));
    let (f, _) = f.step(Event::Outcome(Ok(())));
    let (f, _) = f.step(Event::Outcome(Ok(())));
    let (f, a) = f.step(Event::Outcome(Err("refus".into())));
    assert!(matches!(a, Action::DeleteTunnelRoute { half: Half::Low, .. }));
    let (f, a) = f.step(Event::Done);
    assert!(matches!(a, Action::DeleteEndpointRoute { ref ip } if ip == "1.2.3.4"));
    let (_f, a) = f.step(Event::Done);
    match a {
        Action::Finish { result: Err(e) } => assert_eq!(e.message(), "refus"),
        _ => panic!("expected the failure"),
    }
}

#[test]
fn linux_apply_without_route_fails() {
    let f = linux_flow::apply("deliriuum0", "node1:51820", &[]);
    let (f, _) = f.step(Event::Begin);
    let (f, _) = f.step(Event::Loaded(None));
    let (f, _) = f.step(Event::Done);
    let (f, _) = f.step(Event::Done);
    let (f, _) = f.step(Event::Resolved(Ok(("1.2.3.4".into(), 51820))));
    let (_f, a) = f.step(Event::Route(None));
    match a {
        Action::Finish { result: Err(e) } => assert_eq!(e.message(), "Impossible de déterminer la route réseau physique."),
        _ => panic!("expected the failure"),
    }
}

#[test]
fn linux_revert_undoes_the_saved_state() {
    let f = linux_flow::revert();
    let (f, _) = f.step(Event::Begin);
    let (f, a) = f.step(Event::Loaded(Some(state())));
    assert!(matches!(a, Action::DeleteTunnelRoute { half: Half::Low, ref iface } if iface == "deliriuum0"));
    let (f, a) = f.step(Event::Done);
    assert!(matches!(a, Action::DeleteTunnelRoute { half: Half::High, .. }));
    let (f, a) = f.step(Event::Done);
    assert!(matches!(a, Action::DeleteEndpointRoute { .. }));
    let (f, a) = f.step(Event::Done);
    assert!(matches!(a, Action::KillswitchOff));
    let (f, a) = f.step(Event::Done);
    assert!(matches!(a, Action::RemoveState));
    let (_f, a) = f.step(Event::Done);
    assert!(matches!(a, Action::Finish { result: Ok(()) }));
}

#[test]
fn linux_rebind_keeps_the_killswitch_until_replaced() {
    let f = linux_flow::rebind("deliriuum1", "node1:51820");
    let (f, _) = f.step(Event::Begin);
    let (f, a) = f.step(Event::Loaded(None));
    assert!(matches!(a, Action::Resolve { .. }));
    let (_f, a) = f.step(Event::Resolved(Err("introuvable".into())));
    match a {
        Action::Finish { result: Err(e) } => assert_eq!(e.message(), "introuvable"),
        _ => panic!("expected the failure"),
    }
}

#[test]
fn endpoint_resolution_decisions() {
    assert_eq!(literal_endpoint(Address::V4("1.2.3.4".into()), 51820).unwrap(), ("1.2.3.4".to_string(), 51820));
    assert_eq!(
        literal_endpoint(Address::V6("::1".into()), 51820).err().unwrap(),
        "Les endpoints WireGuard IPv6 ne sont pas encore pris en charge sous Linux."
    );
    let answers = vec![Address::V6("2001:db8::1".into()), Address::V4("5.6.7.8".into()), Address::V4("9.9.9.9".into())];
    assert_eq!(resolved_endpoint("vpn.example", 443, Ok(answers)).unwrap(), ("5.6.7.8".to_string(), 443));
    assert_eq!(
        resolved_endpoint("vpn.example", 443, Ok(vec![Address::V6("2001:db8::1".into())])).err().unwrap(),
        "Aucune adresse IPv4 trouvée pour le serveur WireGuard vpn.example"
    );
    assert_eq!(
        resolved_endpoint("vpn.example", 443, Err("no such host".into())).err().unwrap(),
        "Impossible de résoudre vpn.example : no such host"
    );
}

#[test]
fn endpoints_split_back_into_host_and_port() {
    assert_eq!(endpoint_parts("a.b:c:51820").unwrap(), ("a.b:c".to_string(), 51820));
    assert_eq!(endpoint_parts("[2001:db8::1]:443").unwrap(), ("2001:db8::1".to_string(), 443));
    assert_eq!(endpoint_parts(":7").unwrap(), ("".to_string(), 7));
}
