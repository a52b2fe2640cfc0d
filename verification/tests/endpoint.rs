use swb::endpoint::{
    infer_stream_url, parse_source_endpoint, parse_u32_text, EndpointError, SourceKind,
    StreamUrlError, DEFAULT_PORT,
};

#[test]
fn bare_address_defaults_to_console() {
    let ep = parse_source_endpoint("192.168.2.2").unwrap();
    assert_eq!(ep.kind, SourceKind::Console);
    assert_eq!(ep.host, "192.168.2.2");
    assert_eq!(ep.port, DEFAULT_PORT);
    assert_eq!(DEFAULT_PORT, 51441);
}

#[test]
fn dolphin_scheme_selects_the_emulator_adapter() {
    let ep = parse_source_endpoint("dolphin://127.0.0.1:51441").unwrap();
    assert_eq!(ep.kind, SourceKind::Emulator);
    assert_eq!(ep.host, "127.0.0.1");
    assert_eq!(ep.port, 51441);
}

#[test]
fn emulator_scheme_is_accepted_too() {
    let ep = parse_source_endpoint("emulator://10.0.0.5:2000").unwrap();
    assert_eq!(ep.kind, SourceKind::Emulator);
    assert_eq!(ep.host, "10.0.0.5");
    assert_eq!(ep.port, 2000);
}

#[test]
fn console_scheme_with_explicit_port() {
    let ep = parse_source_endpoint("console://192.168.0.7:700").unwrap();
    assert_eq!(ep.kind, SourceKind::Console);
    assert_eq!(ep.host, "192.168.0.7");
    assert_eq!(ep.port, 700);
}

#[test]
fn unknown_scheme_is_rejected() {
    match parse_source_endpoint("ftp://host:1") {
        Err(EndpointError::UnknownScheme(s)) => assert_eq!(s, "ftp"),
        _ => panic!("expected an unknown-scheme error"),
    }
}

#[test]
fn unparseable_source_is_rejected() {
    assert!(matches!(
        parse_source_endpoint("console://:::"),
        Err(EndpointError::UrlParse)
    ));
}

#[test]
fn full_url_is_taken_as_given() {
    let url = infer_stream_url("ws://localhost:4000/socket").unwrap();
    assert_eq!(url, "ws://localhost:4000/socket");
}

#[test]
fn bare_stream_id_expands_to_the_viewer_url() {
    let url = infer_stream_url("5").unwrap();
    assert_eq!(
        url,
        "wss://spectatormode.tv/viewer_socket/websocket?stream_id=5&full_replay=true"
    );
    let url = infer_stream_url("12345").unwrap();
    assert_eq!(
        url,
        "wss://spectatormode.tv/viewer_socket/websocket?stream_id=12345&full_replay=true"
    );
}

#[test]
fn neither_url_nor_id_is_rejected() {
    assert_eq!(infer_stream_url("not a stream"), Err(StreamUrlError::NotAnId));
}

#[test]
fn decimal_parsing_matches_the_grammar() {
    assert_eq!(parse_u32_text("0"), Some(0));
    assert_eq!(parse_u32_text("+41"), Some(41));
    assert_eq!(parse_u32_text("4294967295"), Some(u32::MAX));
    assert_eq!(parse_u32_text("4294967296"), None);
    assert_eq!(parse_u32_text(""), None);
    assert_eq!(parse_u32_text("+"), None);
    assert_eq!(parse_u32_text("12a"), None);
    assert_eq!(parse_u32_text("-3"), None);
}
