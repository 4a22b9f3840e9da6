use sqlthink::{parse_connection_string, parse_port, BridgeError, ErrorClass};

#[test]
fn full_descriptor() {
    let s = parse_connection_string(
        "Server=db.local; Port=1444; User ID=sa; Password=pw; Database=shop; Trust Server Certificate=TRUE",
    )
    .ok()
    .unwrap();
    assert_eq!(s.host, "db.local");
    assert_eq!(s.port, Some(1444));
    assert_eq!(s.user, "sa");
    assert_eq!(s.password, "pw");
    assert_eq!(s.database, Some("shop".to_string()));
    assert!(s.trust_cert);
    assert_eq!(s.credential(), Some(("sa".to_string(), "pw".to_string())));
}

#[test]
fn password_before_user_combines() {
    let s = parse_connection_string("pwd=secret;host=h;uid=me").ok().unwrap();
    assert_eq!(s.credential(), Some(("me".to_string(), "secret".to_string())));
}

#[test]
fn aliases_and_unknown_keys() {
    let s = parse_connection_string("host=h;initial catalog=c;user=u;app=x;novalue;;").ok().unwrap();
    assert_eq!(s.host, "h");
    assert_eq!(s.database, Some("c".to_string()));
    assert_eq!(s.user, "u");
    assert_eq!(s.password, "");
    assert_eq!(s.port, None);
    assert!(!s.trust_cert);
}

#[test]
fn bad_port_is_ignored() {
    let s = parse_connection_string("server=h;port=70000").ok().unwrap();
    assert_eq!(s.port, None);
    let s = parse_connection_string("server=h;port=+15").ok().unwrap();
    assert_eq!(s.port, Some(15));
    let s = parse_connection_string("server=h;port=abc").ok().unwrap();
    assert_eq!(s.port, None);
}

#[test]
fn trust_flag_values() {
    assert!(parse_connection_string("server=h;trust server certificate=1").ok().unwrap().trust_cert);
    assert!(parse_connection_string("server=h;trust server certificate=tRuE").ok().unwrap().trust_cert);
    assert!(!parse_connection_string("server=h;trust server certificate=yes").ok().unwrap().trust_cert);
}

#[test]
fn no_user_means_no_credential() {
    let s = parse_connection_string("server=h;password=p").ok().unwrap();
    assert_eq!(s.credential(), None);
}

#[test]
fn later_values_override() {
    let s = parse_connection_string("server=a;server=b").ok().unwrap();
    assert_eq!(s.host, "b");
}

#[test]
fn value_may_hold_equals_sign() {
    let s = parse_connection_string("server=h;password=a=b").ok().unwrap();
    assert_eq!(s.password, "a=b");
}

#[test]
fn missing_host_is_connectivity_error() {
    let e = parse_connection_string("user id=sa;password=x").err().unwrap();
    assert_eq!(e.class, ErrorClass::Connectivity);
    assert!(e.message().starts_with("ERROR: "));
}

#[test]
fn error_message_has_marker() {
    let e = BridgeError::new(ErrorClass::State, "Database not connected.");
    assert_eq!(e.message(), "ERROR: Database not connected.");
}

#[test]
fn port_texts() {
    assert_eq!(parse_port("1433"), Some(1433));
    assert_eq!(parse_port("+8"), Some(8));
    assert_eq!(parse_port("0065535"), Some(65535));
    assert_eq!(parse_port("65536"), None);
    assert_eq!(parse_port("99999999999"), None);
    assert_eq!(parse_port(""), None);
    assert_eq!(parse_port("+"), None);
    assert_eq!(parse_port("-1"), None);
    assert_eq!(parse_port("-0"), None);
    assert_eq!(parse_port(" 1"), None);
    assert_eq!(parse_port("1a"), None);
}
