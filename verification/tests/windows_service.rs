use deliriuum::windows::{after_read, command_line, dependencies, request_line, start_outcome, stop_outcome, wide, PipeRead};

#[test]
fn wide_strings_end_with_zero() {
    assert_eq!(wide("Nsi"), vec![78, 115, 105, 0]);
    assert_eq!(wide("é"), vec![0xE9, 0]);
    assert_eq!(wide("😀"), vec![0xD83D, 0xDE00, 0]);
    let expected: Vec<u16> = "Déliriuum 😀".encode_utf16().chain(std::iter::once(0)).collect();
    assert_eq!(wide("Déliriuum 😀"), expected);
}

#[test]
fn tunnel_service_dependencies() {
    assert_eq!(dependencies(), vec![78, 115, 105, 0, 84, 99, 112, 73, 112, 0, 0]);
}

#[test]
fn tunnel_service_command_line() {
    assert_eq!(
        command_line("C:\\Program Files\\Deliriuum\\service.exe", "C:\\ProgramData\\Deliriuum\\Deliriuum.conf"),
        "\"C:\\Program Files\\Deliriuum\\service.exe\" /service \"C:\\ProgramData\\Deliriuum\\Deliriuum.conf\""
    );
}

#[test]
fn service_manager_errors() {
    assert!(start_outcome(None).is_ok());
    assert!(start_outcome(Some((Some(1056), "already".into()))).is_ok());
    assert_eq!(start_outcome(Some((Some(5), "Accès refusé.".into()))).err().unwrap(), "Impossible de dÃƒÂ©marrer le tunnel WireGuard : Accès refusé.");
    assert!(stop_outcome(Some((Some(1062), "not started".into()))).is_ok());
    assert_eq!(stop_outcome(Some((None, "x".into()))).err().unwrap(), "Impossible d'arrÃƒÂªter le tunnel WireGuard : x");
}

#[test]
fn pipe_reads() {
    assert!(matches!(after_read(false, 0, 0, false), PipeRead::Failed));
    assert!(matches!(after_read(false, 0, 10, false), PipeRead::Complete));
    assert!(matches!(after_read(true, 0, 10, false), PipeRead::Complete));
    assert!(matches!(after_read(true, 5, 10, true), PipeRead::Complete));
    assert!(matches!(after_read(true, 5, 10, false), PipeRead::More));
    assert!(matches!(after_read(true, 1024, 2 * 1024 * 1024, false), PipeRead::Refuse(m) if m == "Requête IPC trop volumineuse."));
    assert_eq!(request_line("{\"cmd\":\"status\"}\r\nrest"), "{\"cmd\":\"status\"}");
    assert_eq!(request_line(""), "");
}
