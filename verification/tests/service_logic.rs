use deliriuum::json::Json;
use deliriuum::service::{
    command_of, iface_from_name_file, peer_allowed, pipe_action, refusal, reply_to_down,
    reply_to_status, reply_to_up, transfer_counts, tunnel_state, up_plan, use_boringtun,
    Command, PipeAction, Reply, UpPlan,
};

fn s(x: &str) -> Json {
    Json::Str(x.to_string())
}

fn obj(fields: Vec<(&str, Json)>) -> Json {
    Json::Object(fields.into_iter().map(|(k, v)| (k.to_string(), v)).collect())
}

const CONF: &str = "PrivateKey = AQEBAQEBAQEBAQEBAQEBAQEBAQEBAQEBAQEBAQEBAQE=\nPublicKey = AgICAgICAgICAgICAgICAgICAgICAgICAgICAgICAgI=\nAddress = 10.0.0.2/32\nEndpoint = 1.2.3.4:51820\n";

#[test]
fn only_administrators_drive_the_tunnel() {
    assert!(peer_allowed(true, 501, true));
    assert!(!peer_allowed(true, 501, false));
    assert!(!peer_allowed(false, 0, false));
    assert!(!peer_allowed(false, 501, true));
    assert!(peer_allowed(true, 0, false));
}

#[test]
fn engine_choice() {
    assert!(use_boringtun(None));
    assert!(use_boringtun(Some("boringtun".into())));
    assert!(!use_boringtun(Some("wg-quick".into())));
}

#[test]
fn name_file_is_trimmed() {
    assert_eq!(iface_from_name_file("utun4\n").as_deref(), Some("utun4"));
    assert!(iface_from_name_file("  ").is_none());
}

#[test]
fn transfer_counters() {
    assert_eq!(transfer_counts("PEERKEY=\t1024\t2048\nother 1 2\n"), (1024, 2048));
    assert_eq!(transfer_counts("peer x 7"), (0, 7));
    assert_eq!(transfer_counts("peer"), (0, 0));
    assert_eq!(transfer_counts(""), (0, 0));
}

#[test]
fn tunnel_state_prefers_the_engine() {
    assert_eq!(tunnel_state(Some((false, 1, 2)), Some((3, 4))), (false, 1, 2));
    assert_eq!(tunnel_state(None, Some((3, 4))), (true, 3, 4));
    assert_eq!(tunnel_state(None, None), (false, 0, 0));
}

#[test]
fn commands_are_read() {
    assert!(matches!(command_of(&obj(vec![("cmd", s("up")), ("config", s("x"))])), Command::Up(c) if c == "x"));
    assert!(matches!(command_of(&obj(vec![("cmd", s("up"))])), Command::UpWithoutConfig));
    assert!(matches!(command_of(&obj(vec![("cmd", s("down"))])), Command::Down));
    assert!(matches!(command_of(&obj(vec![("cmd", s("status"))])), Command::Status));
    assert!(matches!(command_of(&obj(vec![("cmd", s("reboot"))])), Command::Unknown));
    assert!(matches!(command_of(&Json::Null), Command::Unknown));
}

#[test]
fn refusals() {
    assert!(matches!(refusal(&Command::UpWithoutConfig), Some(Reply::Failed(m)) if m == "Configuration manquante."));
    assert!(matches!(refusal(&Command::Unknown), Some(Reply::Failed(m)) if m == "Commande inconnue."));
    assert!(refusal(&Command::Down).is_none());
}

#[test]
fn replies() {
    assert!(matches!(reply_to_up(Ok(())), Reply::Started));
    assert!(matches!(reply_to_up(Err("e".into())), Reply::Failed(m) if m == "e"));
    assert!(matches!(reply_to_down((true, 5, 6), Ok(())), Reply::Stopped { rx: 5, tx: 6 }));
    assert!(matches!(reply_to_status((true, 1, 2)), Reply::State { up: true, rx: 1, tx: 2 }));
}

#[test]
fn up_plans() {
    assert!(matches!(up_plan(true, CONF), Ok(UpPlan::Engine(c)) if c.address == "10.0.0.2/32"));
    assert_eq!(up_plan(true, "Address = x").err().unwrap(), "ClÃ© privÃ©e absente de la configuration.");
    assert!(matches!(up_plan(false, "anything"), Ok(UpPlan::WgQuick)));
}

#[test]
fn windows_pipe_actions() {
    assert!(matches!(pipe_action(&obj(vec![("cmd", s("status"))])), PipeAction::Report));
    assert!(matches!(pipe_action(&obj(vec![("cmd", s("down"))])), PipeAction::Stop));
    assert!(matches!(pipe_action(&obj(vec![("cmd", s("up")), ("config", s(CONF))])), PipeAction::Start(_)));
    assert!(matches!(
        pipe_action(&obj(vec![("cmd", s("up")), ("config", s("nothing"))])),
        PipeAction::Answer(Reply::Failed(m)) if m == "ClÃ© privÃ©e absente de la configuration."
    ));
    assert!(matches!(
        pipe_action(&obj(vec![("cmd", s("up"))])),
        PipeAction::Answer(Reply::Failed(m)) if m == "Configuration manquante."
    ));
    assert!(matches!(
        pipe_action(&Json::Null),
        PipeAction::Answer(Reply::Failed(m)) if m == "Commande inconnue."
    ));
}
