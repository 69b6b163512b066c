use rdpm::dialog::{parse_port, port_text, FormError, ServerFormDraft};
use rdpm::server::{DisplayMode, ServerEntry};

#[test]
fn test_server_form_validation() {
    let mut draft = ServerFormDraft::default();
    assert!(draft.clone().validate_and_convert().is_err());

    draft.name = "北京生产01".to_string();
    assert!(draft.clone().validate_and_convert().is_err());

    draft.host = "192.168.10.1".to_string();
    draft.port = "3389".to_string();
    draft.username = "admin".to_string();
    draft.password = "Secr3t!".to_string();

    let (server, pass) = draft.validate_and_convert().expect("应当通过表单校验");
    assert_eq!(server.name, "北京生产01");
    assert_eq!(server.host, "192.168.10.1");
    assert_eq!(server.port, 3389);
    assert_eq!(pass, Some("Secr3t!".to_string()));
}

fn valid_draft() -> ServerFormDraft {
    let mut d = ServerFormDraft::default();
    d.name = "  web  ".to_string();
    d.host = " 10.0.0.5 ".to_string();
    d
}

#[test]
fn each_form_error() {
    let d = ServerFormDraft::default();
    assert_eq!(d.validate_and_convert().unwrap_err(), FormError::EmptyName);

    let mut d = valid_draft();
    d.host = "   ".to_string();
    assert_eq!(d.validate_and_convert().unwrap_err(), FormError::EmptyHost);

    for bad in ["", "abc", "65536", "-1", "+", "3389x"] {
        let mut d = valid_draft();
        d.port = bad.to_string();
        assert_eq!(d.validate_and_convert().unwrap_err(), FormError::InvalidPort, "{bad}");
    }

    let mut d = valid_draft();
    d.port = "0".to_string();
    assert_eq!(d.validate_and_convert().unwrap_err(), FormError::ZeroPort);

    let mut d = valid_draft();
    d.username = " ".to_string();
    assert_eq!(d.validate_and_convert().unwrap_err(), FormError::EmptyUsername);
    assert_eq!(FormError::ZeroPort.message(), "端口号不能为 0");
}

#[test]
fn accepted_form_is_trimmed() {
    let mut d = valid_draft();
    d.port = " +65535 ".to_string();
    d.domain = "  CORP ".to_string();
    d.notes = "   ".to_string();
    d.smart_sizing = false;
    d.id = Some("fixed-id".to_string());
    let (e, pw) = d.validate_and_convert().unwrap();
    assert_eq!(e.id, "fixed-id");
    assert_eq!(e.name, "web");
    assert_eq!(e.host, "10.0.0.5");
    assert_eq!(e.port, 65535);
    assert_eq!(e.username, "administrator");
    assert_eq!(e.domain, Some("CORP".to_string()));
    assert_eq!(e.notes, None);
    assert_eq!(e.options.display_mode, DisplayMode::DynamicResolution);
    assert_eq!(e.options.timeout_seconds, 15);
    assert_eq!(pw, None);
}

#[test]
fn new_entry_gets_fresh_id() {
    let (e, _) = valid_draft().validate_and_convert().unwrap();
    assert_eq!(e.id.chars().count(), 36);
}

#[test]
fn ports_parse_like_std() {
    for s in ["0", "1", "+22", "00080", "65535", "65536", "", "+", "-0", " 1", "1 ", "12a", "99999999999"] {
        assert_eq!(parse_port(s), s.parse::<u16>().ok(), "{s}");
    }
}

#[test]
fn port_text_round_trips() {
    for p in [0u16, 7, 10, 3389, 65535] {
        assert_eq!(port_text(p), p.to_string());
        assert_eq!(parse_port(&port_text(p)), Some(p));
    }
}

#[test]
fn edit_form_round_trips_a_server() {
    let mut s = ServerEntry::new("db", "10.0.0.7", "sa");
    s.port = 1433;
    s.notes = Some("primary".to_string());
    let d = ServerFormDraft::from_server(&s);
    assert_eq!(d.port, "1433");
    assert_eq!(d.domain, "");
    assert!(d.smart_sizing);
    let (e, pw) = d.validate_and_convert().unwrap();
    assert_eq!(e, s);
    assert_eq!(pw, None);
}
