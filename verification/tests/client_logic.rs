use base64::Engine;
use deliriuum::client::{
    call_result, choose_device, created_id, detail_of, device_name, device_request, keypair,
    me_from, pipe_reply, protection, registered, renewal, renews_on, reset_message, retry_error,
    session_from, session_to_close, setting_value, socket_reply, stored_secret, tokens_from,
    App, Backend, DeviceChoice, Me, ProtectionState, Renewal, Status, Tokens,
};
use deliriuum::client::{after_connect, after_registration, AfterConnect, AfterRegistration, AuthCall, CallEvent, CallPhase, CallStep};
use deliriuum::config::parse;
use deliriuum::json::Json;
use deliriuum::service::{command_of, Command};

fn s(x: &str) -> Json {
    Json::Str(x.to_string())
}

fn obj(fields: Vec<(&str, Json)>) -> Json {
    Json::Object(fields.into_iter().map(|(k, v)| (k.to_string(), v)).collect())
}

fn public_of(secret: [u8; 32]) -> String {
    let s = x25519_dalek::StaticSecret::from(secret);
    base64::engine::general_purpose::STANDARD.encode(x25519_dalek::PublicKey::from(&s).as_bytes())
}

#[test]
fn detail_is_taken_from_the_body() {
    let body = obj(vec![("detail", s("Mot de passe trop court."))]);
    assert_eq!(detail_of(400, Some(&body)), "Mot de passe trop court.");
}

#[test]
fn detail_falls_back_on_the_status() {
    assert_eq!(detail_of(401, None), "E-mail ou mot de passe incorrect.");
    assert_eq!(detail_of(409, None), "Ce compte existe dÃ©jÃ .");
    assert_eq!(detail_of(429, None), "Trop de tentatives. RÃ©essaie dans quelques minutes.");
    assert_eq!(detail_of(500, None), "Erreur du serveur (500).");
    assert_eq!(detail_of(503, Some(&obj(vec![("detail", Json::Number(Some(3), "3".into()))]))), "Erreur du serveur (503).");
}

#[test]
fn tokens_are_read_with_empty_defaults() {
    let t = tokens_from(&obj(vec![("access_token", s("a1")), ("refresh_token", s("r1"))]));
    assert_eq!(t.access, "a1");
    assert_eq!(t.refresh, "r1");
    let t = tokens_from(&obj(vec![("access_token", s("a2"))]));
    assert_eq!(t.refresh, "");
}

#[test]
fn app_session_lifecycle() {
    let mut app = App::new();
    assert_eq!(app.access().err().unwrap(), "Ta session a expirÃ©. Reconnecte-toi.");
    app.store(Tokens { access: "a".into(), refresh: "r".into() });
    app.session_id = Some("s1".into());
    assert_eq!(app.access().unwrap(), "a");
    assert_eq!(app.refresh_token().unwrap(), "r");
    app.clear();
    assert!(app.tokens.is_none());
    assert!(app.session_id.is_none());
    assert!(app.refresh_token().is_err());
}

#[test]
fn renewal_outcomes() {
    assert!(matches!(renewal(401, None), Renewal::Expired));
    assert!(matches!(renewal(403, None), Renewal::Expired));
    match renewal(500, None) {
        Renewal::Failed(m) => assert_eq!(m, "Erreur du serveur (500)."),
        _ => panic!("expected a failure"),
    }
    match renewal(200, None) {
        Renewal::Failed(m) => assert_eq!(m, "RÃ©ponse illisible."),
        _ => panic!("expected a failure"),
    }
    let body = obj(vec![("access_token", s("a")), ("refresh_token", s("b"))]);
    match renewal(200, Some(&body)) {
        Renewal::Renewed(t) => {
            assert_eq!(t.access, "a");
            assert_eq!(t.refresh, "b");
        },
        _ => panic!("expected new tokens"),
    }
}

#[test]
fn call_result_maps_status() {
    assert!(matches!(call_result(204, None), Ok(Json::Null)));
    assert!(matches!(call_result(200, Some(Json::Bool(true))), Ok(Json::Bool(true))));
    assert_eq!(call_result(404, None).err().unwrap(), "Erreur du serveur (404).");
    assert!(renews_on(401));
    assert!(!renews_on(403));
}

#[test]
fn me_uses_fallbacks() {
    let me = me_from(&obj(vec![("email", s("a@b.c")), ("is_verified", Json::Bool(false))]), "x@y.z");
    assert_eq!(me.email, "a@b.c");
    assert!(!me.verified);
    let me = me_from(&Json::Null, "x@y.z");
    assert_eq!(me.email, "x@y.z");
    assert!(me.verified);
}

#[test]
fn reset_message_is_neutral() {
    assert_eq!(reset_message(None), "Si ce compte existe, un e-mail vient de partir.");
    assert_eq!(reset_message(Some(&obj(vec![("detail", s("Envoyé."))]))), "Envoyé.");
}

#[test]
fn registration_without_login_is_unverified() {
    let me = registered("a@b.c".into(), Err("refus".into()));
    assert_eq!(me.email, "a@b.c");
    assert!(!me.verified);
    let me = registered("a@b.c".into(), Ok(Me { email: "z@z.z".into(), verified: true }));
    assert_eq!(me.email, "z@z.z");
}

fn devices() -> Json {
    Json::Array(vec![
        obj(vec![("id", s("d1")), ("public_key", s("K1"))]),
        obj(vec![("id", s("d2")), ("public_key", s("K2"))]),
        obj(vec![("id", s("d3")), ("public_key", s("K2"))]),
    ])
}

#[test]
fn device_kept_identifier_wins() {
    match choose_device(&devices(), Some("d2"), "K1") {
        DeviceChoice::Known(id) => assert_eq!(id, "d2"),
        _ => panic!("expected the known device"),
    }
}

#[test]
fn device_found_by_key_after_lost_identifier() {
    match choose_device(&devices(), Some("gone"), "K2") {
        DeviceChoice::Found { id, forget_stored } => {
            assert_eq!(id, "d2");
            assert!(forget_stored);
        },
        _ => panic!("expected the device holding the key"),
    }
    match choose_device(&devices(), None, "K1") {
        DeviceChoice::Found { id, forget_stored } => {
            assert_eq!(id, "d1");
            assert!(!forget_stored);
        },
        _ => panic!("expected the device holding the key"),
    }
}

#[test]
fn device_registered_when_unknown() {
    assert!(matches!(choose_device(&devices(), Some("gone"), "K9"), DeviceChoice::Register { forget_stored: true }));
    assert!(matches!(choose_device(&Json::Null, None, "K1"), DeviceChoice::Register { forget_stored: false }));
}

#[test]
fn created_device_needs_an_identifier() {
    assert_eq!(created_id(&obj(vec![("id", s("d7"))])).unwrap(), "d7");
    assert_eq!(created_id(&Json::Null).err().unwrap(), "Le serveur n'a pas renvoyÃ© d'identifiant d'appareil.");
}

#[test]
fn device_request_holds_name_and_public_key_only() {
    match device_request("Mac · Direct macOS".into(), "PUB".into()) {
        Json::Object(fields) => {
            assert_eq!(fields.len(), 2);
            assert_eq!(fields[0].0, "name");
            assert_eq!(fields[1].0, "public_key");
        },
        _ => panic!("expected an object"),
    }
}

#[test]
fn stored_key_is_read_back() {
    let text = base64::engine::general_purpose::STANDARD.encode([7u8; 32]);
    assert_eq!(stored_secret(&text).unwrap(), [7u8; 32]);
    assert_eq!(stored_secret("AQID").err().unwrap(), "La clÃ© enregistrÃ©e est illisible.");
    assert_eq!(stored_secret("***").err().unwrap(), "La clÃ© enregistrÃ©e est illisible.");
}

#[test]
fn keypair_from_keyring_gives_the_public_key() {
    let text = base64::engine::general_purpose::STANDARD.encode([7u8; 32]);
    let p = keypair(Some(&text)).ok().unwrap();
    assert_eq!(p.secret, [7u8; 32]);
    assert_eq!(p.public, public_of([7u8; 32]));
    assert!(p.to_store.is_none());
    assert!(keypair(Some("bad")).is_err());
}

#[test]
fn new_keypair_is_kept_and_read_back() {
    let p = keypair(None).ok().unwrap();
    let kept = p.to_store.clone().unwrap();
    assert_eq!(kept.len(), 44);
    let q = keypair(Some(&kept)).ok().unwrap();
    assert_eq!(q.secret, p.secret);
    assert_eq!(q.public, p.public);
    assert_eq!(p.public, public_of(p.secret));
}

fn session_cfg() -> Json {
    obj(vec![
        ("server_endpoint", s("node1.deliriuum.com:51820")),
        ("client_dns", Json::Array(vec![s("10.8.0.1"), Json::Number(Some(1), "1".into()), s("9.9.9.9")])),
        ("allowed_ips", Json::Array(vec![])),
        ("client_address", s("10.8.0.7/32")),
        ("server_public_key", s("AgICAgICAgICAgICAgICAgICAgICAgICAgICAgICAgI=")),
        ("persistent_keepalive", Json::Number(Some(21), "21".into())),
        ("session_id", s("sess-9")),
    ])
}

#[test]
fn session_configuration_text() {
    let sess = session_from(&[1u8; 32], &session_cfg());
    assert_eq!(
        sess.conf,
        "[Interface]\nPrivateKey = AQEBAQEBAQEBAQEBAQEBAQEBAQEBAQEBAQEBAQEBAQE=\nAddress = 10.8.0.7/32\nDNS = 10.8.0.1, 9.9.9.9\n\n[Peer]\nPublicKey = AgICAgICAgICAgICAgICAgICAgICAgICAgICAgICAgI=\nAllowedIPs = 0.0.0.0/0, ::/0\nEndpoint = node1.deliriuum.com:51820\nPersistentKeepalive = 21\n"
    );
    assert_eq!(sess.node, "node1.deliriuum.com");
    assert_eq!(sess.session_id.as_deref(), Some("sess-9"));
}

#[test]
fn session_configuration_is_read_by_the_service() {
    let sess = session_from(&[1u8; 32], &session_cfg());
    let c = parse(&sess.conf).unwrap();
    assert_eq!(c.private_key, [1u8; 32]);
    assert_eq!(c.peer_public_key, [2u8; 32]);
    assert_eq!(c.address, "10.8.0.7/32");
    assert_eq!(c.endpoint, "node1.deliriuum.com:51820");
    assert_eq!(c.keepalive, 21);
    assert_eq!(c.allowed_ips, vec!["0.0.0.0/0".to_string(), "::/0".to_string()]);
}

#[test]
fn session_without_dns_is_read_by_the_service() {
    let cfg = obj(vec![
        ("server_endpoint", s("node1.deliriuum.com:51820")),
        ("client_address", s("10.8.0.7/32")),
        ("server_public_key", s("AgICAgICAgICAgICAgICAgICAgICAgICAgICAgICAgI=")),
        ("allowed_ips", Json::Array(vec![s("10.8.0.0/24")])),
    ]);
    let sess = session_from(&[1u8; 32], &cfg);
    assert!(sess.conf.contains("\nDNS = \n"));
    let c = parse(&sess.conf).unwrap();
    assert_eq!(c.private_key, [1u8; 32]);
    assert_eq!(c.address, "10.8.0.7/32");
    assert_eq!(c.dns, vec![String::new()]);
    assert_eq!(c.allowed_ips, vec!["10.8.0.0/24".to_string()]);
    assert_eq!(c.keepalive, 25);
}

#[test]
fn session_defaults() {
    let sess = session_from(&[0u8; 32], &Json::Null);
    assert!(sess.conf.ends_with("AllowedIPs = 0.0.0.0/0, ::/0\nEndpoint = \nPersistentKeepalive = 25\n"));
    assert_eq!(sess.node, "");
    assert!(sess.session_id.is_none());
    assert_eq!(retry_error("a".into(), "b".into()), "b");
}

#[test]
fn device_names() {
    assert_eq!(device_name(Some("  studio.local\n"), "macos"), "studio · Direct macOS");
    assert_eq!(device_name(Some("box.local.local"), "linux"), "box · Direct Linux");
    assert_eq!(device_name(Some(".local"), "windows"), "Deliriuum Direct · Windows");
    assert_eq!(device_name(None, "freebsd"), "Deliriuum Direct · freebsd");
}

#[test]
fn settings_are_trimmed() {
    assert_eq!(setting_value("  abc \n").as_deref(), Some("abc"));
    assert!(setting_value(" \n").is_none());
    assert_eq!(session_to_close(None, Some("k".into())).as_deref(), Some("k"));
    assert_eq!(session_to_close(Some("m".into()), Some("k".into())).as_deref(), Some("m"));
}

#[test]
fn socket_and_pipe_replies() {
    assert!(socket_reply(obj(vec![("ok", Json::Bool(true))])).is_ok());
    assert_eq!(socket_reply(obj(vec![("ok", Json::Bool(false)), ("error", s("boom"))])).err().unwrap(), "boom");
    assert_eq!(socket_reply(Json::Null).err().unwrap(), "Le tunnel n'a pas pu être établi.");
    assert!(pipe_reply(Json::Null).is_ok());
    assert_eq!(pipe_reply(obj(vec![("ok", Json::Bool(false))])).err().unwrap(), "Erreur du service Deliriuum.");
}

#[test]
fn backend_reads_answers() {
    let mut b = Backend;
    assert!(b.up(Ok(Json::Null)).is_ok());
    assert_eq!(b.up(Err("x".into())).err().unwrap(), "x");
    assert_eq!(b.down(Ok(obj(vec![("rx", Json::Number(Some(5), "5".into())), ("tx", Json::Number(Some(6), "6".into()))]))).unwrap(), (5, 6));
    assert_eq!(b.down(Ok(Json::Null)).unwrap(), (0, 0));
    let st = b.status(Ok(obj(vec![("up", Json::Bool(true)), ("rx", Json::Number(Some(9), "9".into()))]))).ok().unwrap();
    assert!(st.up);
    assert!(!st.blocked);
    assert_eq!(st.rx, 9);
    assert_eq!(st.tx, 0);
}

#[test]
fn requests_are_read_by_the_service() {
    assert!(matches!(command_of(&Backend::up_request("conf".into())), Command::Up(c) if c == "conf"));
    assert!(matches!(command_of(&Backend::down_request()), Command::Down));
    assert!(matches!(command_of(&Backend::status_request()), Command::Status));
}

#[test]
fn protection_states() {
    let p = protection(None, Err("x".into()));
    assert!(p.state == ProtectionState::Off);
    assert_eq!(p.node, "node1");
    let up = Status { up: true, blocked: true, rx: 0, tx: 0 };
    assert!(protection(Some("n".into()), Ok(up)).state == ProtectionState::On);
    let blocked = Status { up: false, blocked: true, rx: 0, tx: 0 };
    let p = protection(Some("n".into()), Ok(blocked));
    assert!(p.state == ProtectionState::Blocked);
    assert_eq!(p.state.label(), "blocked");
    let off = Status { up: false, blocked: false, rx: 0, tx: 0 };
    assert_eq!(protection(None, Ok(off)).state.label(), "off");
}

#[test]
fn session_resumes_with_the_refresh_token() {
    let mut app = App::new();
    app.resume("r9".into());
    assert_eq!(app.access().unwrap(), "");
    assert_eq!(app.refresh_token().unwrap(), "r9");
}

#[test]
fn authenticated_call_renews_once() {
    let mut app = App::new();
    app.store(Tokens { access: "a1".into(), refresh: "r1".into() });
    let (call, step) = AuthCall::start(&app);
    assert!(matches!(step, CallStep::Send { ref bearer } if bearer == "a1"));
    let (call, step) = call.step(CallEvent::Answered { status: 401, body: None }, &app);
    assert!(matches!(step, CallStep::Renew));
    app.store(Tokens { access: "a2".into(), refresh: "r2".into() });
    let (call, step) = call.step(CallEvent::Renewed(Ok(())), &app);
    assert!(matches!(step, CallStep::Send { ref bearer } if bearer == "a2"));
    let (call, step) = call.step(CallEvent::Answered { status: 401, body: None }, &app);
    assert!(call.phase == CallPhase::Done);
    assert!(matches!(step, CallStep::Done { result: Err(ref m) } if m == "E-mail ou mot de passe incorrect."));
}

#[test]
fn authenticated_call_without_session() {
    let app = App::new();
    let (_call, step) = AuthCall::start(&app);
    assert!(matches!(step, CallStep::Done { result: Err(ref m) } if m == "Ta session a expirÃ©. Reconnecte-toi."));
    let mut app = App::new();
    app.store(Tokens { access: "a".into(), refresh: "r".into() });
    let (call, _) = AuthCall::start(&app);
    let (call, step) = call.step(CallEvent::Answered { status: 204, body: None }, &app);
    assert!(matches!(step, CallStep::Done { result: Ok(Json::Null) }));
    let _ = call;
    let (call, _) = AuthCall::start(&app);
    let (call, _) = call.step(CallEvent::Answered { status: 401, body: None }, &app);
    let (_call, step) = call.step(CallEvent::Renewed(Err("Ta session a expirÃ©. Reconnecte-toi.".into())), &app);
    assert!(matches!(step, CallStep::Done { result: Err(_) }));
}

#[test]
fn registration_rotates_the_key_once() {
    assert!(matches!(after_registration(true, Err("Clé déjà utilisée.".into())), AfterRegistration::Rotate));
    assert!(matches!(after_registration(false, Err("Clé déjà utilisée.".into())), AfterRegistration::Finish(Err(ref m)) if m == "Clé déjà utilisée."));
    assert!(matches!(after_registration(true, Ok(obj(vec![("id", s("d5"))]))), AfterRegistration::Finish(Ok(ref id)) if id == "d5"));
    assert!(matches!(after_registration(true, Ok(Json::Null)), AfterRegistration::Finish(Err(ref m)) if m == "Le serveur n'a pas renvoyÃ© d'identifiant d'appareil."));
}

#[test]
fn connection_retries_once_after_closing() {
    assert!(matches!(after_connect(None, Ok(Json::Null)), AfterConnect::Finish(Ok(Json::Null))));
    assert!(matches!(after_connect(None, Err("Session déjà ouverte.".into())), AfterConnect::CloseAndRetry { ref first } if first == "Session déjà ouverte."));
    assert!(matches!(after_connect(Some("a".into()), Err("b".into())), AfterConnect::Finish(Err(ref m)) if m == "b"));
}
