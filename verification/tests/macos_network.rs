use deliriuum::json::Json;
use deliriuum::linux_flow::Operation;
use deliriuum::mac_flow::{self, Action, Event, Phase};
use deliriuum::net_macos::{
    anchor_rules, current_gateway, endpoint_ip, endpoint_port, loads_anchor, network_services,
    ipv6_manual, patched_pf_conf, pf_was_enabled, physical_route, previous_ipv6, revert_steps,
    rules_loaded,
    Applied, Step,
};

const ROUTE_OUT: &str = "   route to: default\ndestination: default\n       mask: default\n    gateway: 192.168.1.254\n  interface: en0\n      flags: <UP,GATEWAY,DONE,STATIC,PRCLONING>\n";

#[test]
fn macos_physical_route() {
    assert_eq!(physical_route(ROUTE_OUT).unwrap(), ("192.168.1.254".to_string(), "en0".to_string()));
    assert_eq!(physical_route("interface: en0\n").err().unwrap(), "Aucune connexion réseau active.");
    assert_eq!(current_gateway(ROUTE_OUT).as_deref(), Some("192.168.1.254"));
    assert!(current_gateway("").is_none());
}

#[test]
fn macos_network_services() {
    let out = "An asterisk (*) denotes that a network service is disabled.\nWi-Fi\n*Thunderbolt Bridge\n  \nUSB 10/100/1000 LAN\n";
    assert_eq!(network_services(out), vec!["Wi-Fi", "USB 10/100/1000 LAN"]);
    assert!(network_services("").is_empty());
}

#[test]
fn macos_manual_ipv6() {
    let out = "IPv6: Manual\nIPv6 IP address: fd00::10\nIPv6 Prefix Length: 48\nIPv6 Router: fd00::1\n";
    assert_eq!(ipv6_manual(out), vec!["fd00::10", "48", "fd00::1"]);
    assert!(ipv6_manual("IPv6: Automatic\n").is_empty());
}

#[test]
fn macos_previous_ipv6() {
    assert_eq!(previous_ipv6("DHCP Configuration\nIPv6: Off\nIPv6 IP address: none\n"), "Off");
    assert_eq!(previous_ipv6("IP address: 10.0.0.2\n"), "Automatic");
}

#[test]
fn macos_endpoint() {
    assert_eq!(endpoint_ip("1.2.3.4:51820"), "1.2.3.4");
    assert_eq!(endpoint_port("1.2.3.4:51821"), 51821);
    assert_eq!(endpoint_ip("node1"), "node1");
    assert_eq!(endpoint_port("node1"), 51820);
    assert_eq!(endpoint_port("node1:port"), 51820);
}

#[test]
fn macos_firewall_texts() {
    let rules = anchor_rules("utun5", "1.2.3.4", 51820);
    assert!(rules.starts_with("# Généré par Deliriuum Direct — ne pas modifier à la main.\nblock drop all\n"));
    assert!(rules.contains("pass quick on utun5 all\n"));
    assert!(rules.contains("pass out quick proto udp from any to 1.2.3.4 port 51820\n"));
    assert!(rules.ends_with("pass in quick proto udp from any port 67 to any port 68\n"));
    assert!(loads_anchor("anchor \"com.deliriuum.direct\"\n"));
    assert!(!loads_anchor("scrub-anchor \"com.apple/*\"\n"));
    let patched = patched_pf_conf("pass all\n");
    assert_eq!(patched, "pass all\n\nanchor \"com.deliriuum.direct\"\nload anchor \"com.deliriuum.direct\" from \"/etc/pf.anchors/com.deliriuum.direct\"\n");
    assert!(loads_anchor(&patched));
    assert!(pf_was_enabled(&Ok("Status: Enabled for 0 days".into())));
    assert!(!pf_was_enabled(&Err("x".into())));
    assert!(rules_loaded(&Ok("block drop all\npass quick on lo0 all\n".into())));
    assert!(!rules_loaded(&Ok(String::new())));
}

fn applied() -> Applied {
    Applied {
        iface: "utun5".into(),
        endpoint_ip: "1.2.3.4".into(),
        gateway: "192.168.1.254".into(),
        services: vec![
            ("Wi-Fi".into(), vec!["192.168.1.1".into()], "Automatic".into(), vec![]),
            ("Ethernet".into(), vec![], "Off".into(), vec![]),
            (
                "Thunderbolt Bridge".into(),
                vec![],
                "Manual".into(),
                vec!["2001:db8::5".into(), "64".into(), "2001:db8::1".into()],
            ),
        ],
        pf_enabled_by_us: true,
    }
}

#[test]
fn macos_state_roundtrip() {
    let a = applied();
    let back = Applied::load(&a.to_json()).unwrap();
    assert_eq!(back.iface, "utun5");
    assert_eq!(back.gateway, "192.168.1.254");
    assert_eq!(back.services.len(), 3);
    assert_eq!(back.services[0].1, vec!["192.168.1.1".to_string()]);
    assert_eq!(back.services[1].2, "Off");
    assert_eq!(back.services[2].3, vec!["2001:db8::5", "64", "2001:db8::1"]);
    assert!(back.pf_enabled_by_us);
}

#[test]
fn macos_state_defaults_and_refusals() {
    let v = Json::Object(vec![
        ("iface".into(), Json::Str("utun1".into())),
        ("endpoint_ip".into(), Json::Str("1.2.3.4".into())),
        ("gateway".into(), Json::Str("10.0.0.1".into())),
        ("services".into(), Json::Array(vec![Json::Object(vec![])])),
    ]);
    let a = Applied::load(&v).unwrap();
    assert!(!a.pf_enabled_by_us);
    assert_eq!(a.services[0].0, "");
    assert!(a.services[0].1.is_empty());
    assert_eq!(a.services[0].2, "Automatic");
    assert!(a.services[0].3.is_empty());
    assert!(Applied::load(&Json::Null).is_none());
}

fn args_of(step: &Step) -> (String, Vec<String>) {
    match step {
        Step::Run { program, args } => (program.clone(), args.clone()),
        Step::RestorePfConf => ("restore".into(), vec![]),
        Step::RemoveFile { path } => ("rm".into(), vec![path.clone()]),
    }
}

#[test]
fn macos_revert_steps_lower_the_firewall_first() {
    let steps: Vec<(String, Vec<String>)> = revert_steps(&applied()).iter().map(args_of).collect();
    assert_eq!(steps[0], ("pfctl".to_string(), vec!["-a".to_string(), "com.deliriuum.direct".into(), "-F".into(), "all".into()]));
    assert_eq!(steps[1].0, "restore");
    assert_eq!(steps[2], ("rm".to_string(), vec!["/etc/pf.anchors/com.deliriuum.direct".to_string()]));
    assert_eq!(steps[4], ("pfctl".to_string(), vec!["-d".to_string()]));
    assert_eq!(steps[5].1, vec!["-n", "delete", "-net", "0.0.0.0/1", "-interface", "utun5"]);
    assert_eq!(steps[7].1, vec!["-n", "delete", "-host", "1.2.3.4"]);
    assert_eq!(steps[8].1, vec!["-setdnsservers", "Wi-Fi", "192.168.1.1"]);
    assert_eq!(steps[9].1, vec!["-setv6automatic", "Wi-Fi"]);
    assert_eq!(steps[10].1, vec!["-setdnsservers", "Ethernet", "Empty"]);
    assert_eq!(steps[11].1, vec!["-setdnsservers", "Thunderbolt Bridge", "Empty"]);
    assert_eq!(steps[12].1, vec!["-setv6manual", "Thunderbolt Bridge", "2001:db8::5", "64", "2001:db8::1"]);
    assert_eq!(steps[13].0, "dscacheutil");
    assert_eq!(steps[14].1, vec!["-HUP", "mDNSResponder"]);
    assert_eq!(steps[15], ("rm".to_string(), vec!["/var/lib/deliriuum-direct/network.json".to_string()]));
    assert_eq!(steps.len(), 16);
}

fn run_args(a: &Action) -> Vec<String> {
    match a {
        Action::Run { args, .. } => args.clone(),
        _ => panic!("expected a command"),
    }
}

fn saved(a: &Action) -> &Applied {
    match a {
        Action::SaveState { state } => state,
        _ => panic!("expected the state to save"),
    }
}

#[test]
fn macos_apply_saves_before_changing_and_arms_the_firewall_last() {
    let f = mac_flow::apply("utun5", "1.2.3.4:51820", &["10.8.0.1".to_string()]);
    assert!(f.operation == Operation::Apply);
    let (f, a) = f.step(Event::Begin);
    assert!(matches!(a, Action::LoadState));
    let (f, a) = f.step(Event::Loaded(None));
    assert_eq!(run_args(&a), vec!["-n", "get", "default"]);
    // The state is on disk before the first route goes in.
    let (f, a) = f.step(Event::Output(Ok(ROUTE_OUT.into())));
    let s = saved(&a);
    assert_eq!(s.gateway, "192.168.1.254");
    assert_eq!(s.endpoint_ip, "1.2.3.4");
    assert!(s.services.is_empty());
    assert!(!s.pf_enabled_by_us);
    let (f, a) = f.step(Event::Done);
    assert_eq!(run_args(&a), vec!["-n", "add", "-host", "1.2.3.4", "192.168.1.254"]);
    let (f, a) = f.step(Event::Output(Ok(String::new())));
    assert_eq!(run_args(&a), vec!["-n", "add", "-net", "0.0.0.0/1", "-interface", "utun5"]);
    let (f, a) = f.step(Event::Output(Ok(String::new())));
    assert_eq!(run_args(&a), vec!["-n", "add", "-net", "128.0.0.0/1", "-interface", "utun5"]);
    let (f, a) = f.step(Event::Output(Ok(String::new())));
    assert_eq!(run_args(&a), vec!["-listallnetworkservices"]);
    let (f, a) = f.step(Event::Output(Ok("notice\nWi-Fi\n*Bluetooth PAN\n".into())));
    assert!(matches!(a, Action::ReadDns { ref service } if service == "Wi-Fi"));
    let (f, a) = f.step(Event::Dns(vec!["192.168.1.1".into()]));
    assert_eq!(run_args(&a), vec!["-getinfo", "Wi-Fi"]);
    // The service's settings are on disk before they change.
    let (f, a) = f.step(Event::Output(Ok("IPv6: Automatic\n".into())));
    let s = saved(&a);
    assert_eq!(s.services.len(), 1);
    assert_eq!(s.services[0].0, "Wi-Fi");
    assert_eq!(s.services[0].1, vec!["192.168.1.1".to_string()]);
    assert_eq!(s.services[0].2, "Automatic");
    let (f, a) = f.step(Event::Done);
    match &a {
        Action::Perform { steps } => {
            assert_eq!(steps.len(), 2);
            assert_eq!(args_of(&steps[0]).1, vec!["-setdnsservers", "Wi-Fi", "10.8.0.1"]);
            assert_eq!(args_of(&steps[1]).1, vec!["-setv6off", "Wi-Fi"]);
        },
        _ => panic!("expected the DNS changes"),
    }
    let (f, a) = f.step(Event::Done);
    assert!(matches!(a, Action::WriteAnchor { make_dir: true, .. }));
    let (f, a) = f.step(Event::Outcome(Ok(())));
    assert!(matches!(a, Action::ReadPfConf));
    let (f, a) = f.step(Event::Output(Ok("pass all\n".into())));
    assert!(matches!(a, Action::BackUpPfConf { ref content } if content == "pass all\n"));
    let (f, a) = f.step(Event::Done);
    assert!(matches!(a, Action::WritePfConf { .. }));
    let (f, a) = f.step(Event::Outcome(Ok(())));
    assert_eq!(run_args(&a), vec!["-s", "info"]);
    // Whether pf was on is on disk before pf is switched on.
    let (f, a) = f.step(Event::Output(Ok("Status: Disabled".into())));
    let s = saved(&a);
    assert!(s.pf_enabled_by_us);
    assert_eq!(s.services.len(), 1);
    let (f, a) = f.step(Event::Done);
    assert_eq!(run_args(&a), vec!["-E"]);
    let (f, a) = f.step(Event::Output(Ok(String::new())));
    assert_eq!(run_args(&a), vec!["-f", "/etc/pf.conf"]);
    let (f, a) = f.step(Event::Output(Ok(String::new())));
    assert_eq!(run_args(&a), vec!["-a", "com.deliriuum.direct", "-s", "rules"]);
    let (f, a) = f.step(Event::Output(Ok("block drop all\n".into())));
    assert!(matches!(a, Action::Finish { result: Ok(()) }));
    assert!(f.phase == Phase::Done);
}

#[test]
fn macos_apply_refused_rules_put_everything_back() {
    let f = mac_flow::apply("utun5", "1.2.3.4:51820", &[]);
    let (f, _) = f.step(Event::Begin);
    let (f, _) = f.step(Event::Loaded(None));
    let (f, _) = f.step(Event::Output(Ok(ROUTE_OUT.into())));
    let (f, _) = f.step(Event::Done);
    let (f, _) = f.step(Event::Output(Ok(String::new())));
    let (f, _) = f.step(Event::Output(Ok(String::new())));
    let (f, _) = f.step(Event::Output(Ok(String::new())));
    let (f, a) = f.step(Event::Output(Ok("notice\nWi-Fi\n".into())));
    assert!(matches!(a, Action::ReadDns { .. }));
    let (f, _) = f.step(Event::Dns(vec![]));
    let (f, a) = f.step(Event::Output(Ok("IPv6: Manual\nIPv6 IP address: 2001:db8::5\nIPv6 Router: 2001:db8::1\n".into())));
    assert_eq!(saved(&a).services[0].3, vec!["2001:db8::5", "64", "2001:db8::1"]);
    let (f, _) = f.step(Event::Done);
    let (f, a) = f.step(Event::Done);
    assert!(matches!(a, Action::WriteAnchor { .. }));
    let (f, a) = f.step(Event::Outcome(Err("denied".into())));
    match &a {
        Action::Perform { steps } => {
            let steps: Vec<(String, Vec<String>)> = steps.iter().map(args_of).collect();
            assert_eq!(steps[0].1, vec!["-a", "com.deliriuum.direct", "-F", "all"]);
            assert_eq!(steps[4].1, vec!["-n", "delete", "-net", "0.0.0.0/1", "-interface", "utun5"]);
            assert_eq!(steps[5].1, vec!["-n", "delete", "-net", "128.0.0.0/1", "-interface", "utun5"]);
            assert_eq!(steps[6].1, vec!["-n", "delete", "-host", "1.2.3.4"]);
            assert_eq!(steps[7].1, vec!["-setdnsservers", "Wi-Fi", "Empty"]);
            assert_eq!(steps[8].1, vec!["-setv6manual", "Wi-Fi", "2001:db8::5", "64", "2001:db8::1"]);
            assert_eq!(steps.last().unwrap(), &("rm".to_string(), vec!["/var/lib/deliriuum-direct/network.json".to_string()]));
        },
        _ => panic!("expected everything to be put back"),
    }
    let (_f, a) = f.step(Event::Done);
    assert!(matches!(a, Action::Finish { result: Err(ref e) } if e == "Règles de pare-feu non écrites."));
}

#[test]
fn macos_apply_refused_half_route() {
    let f = mac_flow::apply("utun5", "1.2.3.4:51820", &[]);
    let (f, _) = f.step(Event::Begin);
    let (f, _) = f.step(Event::Loaded(None));
    let (f, _) = f.step(Event::Output(Ok(ROUTE_OUT.into())));
    let (f, _) = f.step(Event::Done);
    let (f, _) = f.step(Event::Output(Ok(String::new())));
    let (f, _) = f.step(Event::Output(Ok(String::new())));
    let (f, a) = f.step(Event::Output(Err("File exists".into())));
    match &a {
        Action::Perform { steps } => {
            let steps: Vec<(String, Vec<String>)> = steps.iter().map(args_of).collect();
            assert!(steps.contains(&("route".to_string(), vec!["-n".into(), "delete".into(), "-net".into(), "0.0.0.0/1".into(), "-interface".into(), "utun5".into()])));
            assert!(steps.contains(&("route".to_string(), vec!["-n".into(), "delete".into(), "-host".into(), "1.2.3.4".into()])));
            assert_eq!(steps.last().unwrap().0, "rm");
        },
        _ => panic!("expected everything to be put back"),
    }
    let (_f, a) = f.step(Event::Done);
    assert!(matches!(a, Action::Finish { result: Err(ref e) } if e == "Routage refusé : File exists"));
}

#[test]
fn macos_rebind_without_state_is_refused() {
    let f = mac_flow::rebind("utun6", "1.2.3.4:51820");
    let (f, _) = f.step(Event::Begin);
    let (_f, a) = f.step(Event::Loaded(None));
    assert!(matches!(a, Action::Finish { result: Err(ref e) } if e == "Aucune protection à rebrancher."));
}

#[test]
fn macos_rebind_moves_routes_and_rules() {
    let f = mac_flow::rebind("utun6", "1.2.3.4:51820");
    let (f, _) = f.step(Event::Begin);
    let (f, a) = f.step(Event::Loaded(Some(applied())));
    match &a {
        Action::Perform { steps } => {
            assert_eq!(steps.len(), 3);
            assert_eq!(args_of(&steps[0]).1, vec!["-n", "delete", "-net", "0.0.0.0/1", "-interface", "utun5"]);
        },
        _ => panic!("expected the old routes to go"),
    }
    let (f, _) = f.step(Event::Done);
    let (f, a) = f.step(Event::Output(Ok("gateway: 172.20.10.1\ninterface: en1\n".into())));
    assert_eq!(run_args(&a), vec!["-n", "add", "-host", "1.2.3.4", "172.20.10.1"]);
    let (f, _) = f.step(Event::Output(Ok(String::new())));
    let (f, _) = f.step(Event::Output(Ok(String::new())));
    let (f, a) = f.step(Event::Output(Ok(String::new())));
    assert!(matches!(a, Action::WriteAnchor { make_dir: false, ref rules } if rules.contains("pass quick on utun6 all")));
    let (f, a) = f.step(Event::Outcome(Ok(())));
    assert_eq!(run_args(&a), vec!["-f", "/etc/pf.conf"]);
    let (f, a) = f.step(Event::Output(Err("busy".into())));
    match &a {
        Action::SaveState { state } => {
            assert_eq!(state.iface, "utun6");
            assert_eq!(state.gateway, "172.20.10.1");
            assert_eq!(state.services.len(), 3);
            assert!(state.pf_enabled_by_us);
        },
        _ => panic!("expected the state to save"),
    }
    let (_f, a) = f.step(Event::Done);
    assert!(matches!(a, Action::Finish { result: Ok(()) }));
}

#[test]
fn macos_revert_without_state_does_nothing() {
    let f = mac_flow::revert();
    let (f, _) = f.step(Event::Begin);
    let (_f, a) = f.step(Event::Loaded(None));
    assert!(matches!(a, Action::Finish { result: Ok(()) }));
}

#[test]
fn macos_revert_with_state() {
    let f = mac_flow::revert();
    let (f, _) = f.step(Event::Begin);
    let (f, a) = f.step(Event::Loaded(Some(applied())));
    assert!(matches!(a, Action::Perform { ref steps } if steps.len() == 16));
    let (_f, a) = f.step(Event::Done);
    assert!(matches!(a, Action::Finish { result: Ok(()) }));
}
