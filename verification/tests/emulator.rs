use swb::codec::create_packet;
use swb::emulator::{
    collect_game_data, connect_request_text, ends_with_disconnect, process_packet, tick_output,
    ConnectionEvent, EmulatorError, CHANNEL_LIMIT, DISCONNECT_CODE, PING_INTERVAL_MS, TICK_MICROS,
};
use swb::mux::Multiplexer;

#[test]
fn emulator_constants() {
    assert_eq!(DISCONNECT_CODE, 1337);
    assert_eq!(CHANNEL_LIMIT, 3);
    assert_eq!(PING_INTERVAL_MS, 100);
    assert_eq!(TICK_MICROS, 8333);
}

#[test]
fn connect_request_is_the_fixed_literal() {
    assert_eq!(connect_request_text(), "{\"type\":\"connect_request\",\"cursor\":0}");
}

#[test]
fn connect_reply_marks_the_handshake() {
    let ev = process_packet(b"{\"type\":\"connect_reply\"}").unwrap();
    assert!(matches!(ev, ConnectionEvent::Connect));
}

#[test]
fn game_event_payload_is_base64_decoded() {
    let ev = process_packet(b"{\"type\":\"game_event\",\"payload\":\"SEVMTE8=\"}").unwrap();
    match ev {
        ConnectionEvent::Message { payload } => assert_eq!(payload, b"HELLO".to_vec()),
        _ => panic!("expected a gameplay message"),
    }
}

#[test]
fn start_and_end_game_events() {
    assert!(matches!(
        process_packet(b"{\"type\":\"start_game\"}").unwrap(),
        ConnectionEvent::StartGame
    ));
    assert!(matches!(
        process_packet(b"{\"type\":\"end_game\"}").unwrap(),
        ConnectionEvent::EndGame
    ));
}

#[test]
fn unknown_packet_type_is_an_error() {
    assert_eq!(
        process_packet(b"{\"type\":\"mystery\"}"),
        Err(EmulatorError::UnexpectedPacketType)
    );
}

#[test]
fn malformed_packets_are_errors() {
    assert_eq!(process_packet(&[0xFF, 0xFE]), Err(EmulatorError::InvalidUtf8));
    assert_eq!(process_packet(b"not json"), Err(EmulatorError::InvalidJson));
    assert_eq!(process_packet(b"{\"kind\":\"x\"}"), Err(EmulatorError::InvalidJson));
    assert_eq!(
        process_packet(b"{\"type\":\"game_event\"}"),
        Err(EmulatorError::MissingPayload)
    );
    assert_eq!(
        process_packet(b"{\"type\":\"game_event\",\"payload\":\"!!!\"}"),
        Err(EmulatorError::BadBase64)
    );
}

#[test]
fn tick_concatenates_payloads_in_arrival_order() {
    let events = vec![
        ConnectionEvent::StartGame,
        ConnectionEvent::Message { payload: vec![1, 2] },
        ConnectionEvent::Message { payload: vec![3] },
        ConnectionEvent::EndGame,
    ];
    assert_eq!(collect_game_data(&events), vec![1, 2, 3]);
}

#[test]
fn tick_without_payload_emits_nothing() {
    let events = vec![ConnectionEvent::StartGame, ConnectionEvent::EndGame];
    assert!(tick_output(&events).is_none());
    assert!(tick_output(&Vec::new()).is_none());
}

#[test]
fn disconnect_ends_the_stream() {
    let events = vec![
        ConnectionEvent::Message { payload: vec![1] },
        ConnectionEvent::Disconnect,
    ];
    assert!(ends_with_disconnect(&events));
    assert!(!ends_with_disconnect(&vec![ConnectionEvent::Connect]));
}

#[test]
fn scripted_session_produces_one_wire_frame() {
    // a scripted emulator peer: connect reply, one game event carrying
    // base64("HELLO"), then end of game; bridge assigns stream id 7
    let mut ticks: Vec<Vec<ConnectionEvent>> = Vec::new();
    ticks.push(vec![process_packet(b"{\"type\":\"connect_reply\"}").unwrap()]);
    ticks.push(vec![
        process_packet(b"{\"type\":\"game_event\",\"payload\":\"SEVMTE8=\"}").unwrap(),
    ]);
    ticks.push(vec![process_packet(b"{\"type\":\"end_game\"}").unwrap()]);

    let mut m = Multiplexer::new(vec![7], 1).unwrap();
    let mut wire: Vec<Vec<u8>> = Vec::new();
    for tick in &ticks {
        if let Some(data) = tick_output(tick) {
            if let Some(packet) = m.on_source_item(0, data) {
                wire.push(create_packet(packet.stream_id, packet.payload));
            }
        }
    }
    m.on_source_end(0);
    assert!(m.is_done());
    assert_eq!(wire.len(), 1);
    assert_eq!(
        wire[0],
        vec![7, 0, 0, 0, 5, 0, 0, 0, b'H', b'E', b'L', b'L', b'O']
    );
}

#[test]
fn two_sources_each_keep_their_id_and_payload() {
    let mut m = Multiplexer::new(vec![10, 20], 2).unwrap();
    let a = process_packet(b"{\"type\":\"game_event\",\"payload\":\"SEVMTE8=\"}").unwrap();
    let b = process_packet(b"{\"type\":\"game_event\",\"payload\":\"V09STEQ=\"}").unwrap();
    let pa = match a {
        ConnectionEvent::Message { payload } => payload,
        _ => unreachable!(),
    };
    let pb = match b {
        ConnectionEvent::Message { payload } => payload,
        _ => unreachable!(),
    };
    let fa = m.on_source_item(0, pa).unwrap();
    let fb = m.on_source_item(1, pb).unwrap();
    assert_eq!((fa.stream_id, fa.payload.as_slice()), (10, b"HELLO".as_slice()));
    assert_eq!((fb.stream_id, fb.payload.as_slice()), (20, b"WORLD".as_slice()));
}
