//! Emulator source adapter logic. The adapter speaks JSON over a reliable-UDP
//! peer: after a connect request it receives control messages whose `type`
//! field selects the action, with gameplay bytes carried base64-encoded in
//! `game_event` messages. The I/O runner services the peer on a fixed cadence
//! and hands every received packet here for classification; the concatenated
//! payloads of one service tick form one element of the source stream.

use vstd::prelude::*;
use vstd::utf8::{decode_utf8, valid_utf8};

verus! {

/// Disconnect code sent to the peer when the source is interrupted.
pub const DISCONNECT_CODE: u32 = 1337;

/// Channel limit of the peer connection.
pub const CHANNEL_LIMIT: usize = 3;

/// Ping interval of the peer connection, in milliseconds.
pub const PING_INTERVAL_MS: u32 = 100;

/// Service cadence: one tick every 8333 microseconds (120 Hz).
pub const TICK_MICROS: u64 = 8333;

/// One event decoded from the emulator connection.
#[derive(Debug, PartialEq, Eq)]
pub enum ConnectionEvent {
    /// The handshake completed: the connect reply arrived.
    Connect,
    /// The peer disconnected; the source ends.
    Disconnect,
    /// One gameplay payload.
    Message { payload: Vec<u8> },
    /// A game started; no payload.
    StartGame,
    /// A game ended; no payload.
    EndGame,
}

/// Spec-level picture of a connection event, with the payload as a sequence.
pub enum SpecConnectionEvent {
    Connect,
    Disconnect,
    Message(Seq<u8>),
    StartGame,
    EndGame,
}

/// The spec-level picture of an event.
pub open spec fn event_view(ev: ConnectionEvent) -> SpecConnectionEvent {
    match ev {
        ConnectionEvent::Connect => SpecConnectionEvent::Connect,
        ConnectionEvent::Disconnect => SpecConnectionEvent::Disconnect,
        ConnectionEvent::Message { payload } => SpecConnectionEvent::Message(payload@),
        ConnectionEvent::StartGame => SpecConnectionEvent::StartGame,
        ConnectionEvent::EndGame => SpecConnectionEvent::EndGame,
    }
}

/// Why a packet ended the stream.
#[derive(Debug, Clone, Copy, PartialEq, Eq, Structural)]
pub enum EmulatorError {
    /// The packet was not UTF-8 text.
    InvalidUtf8,
    /// The packet was not a JSON control message.
    InvalidJson,
    /// A `game_event` without a string `payload` field.
    MissingPayload,
    /// A `game_event` whose payload was not valid base64.
    BadBase64,
    /// A control message of a type this protocol does not know.
    UnexpectedPacketType,
}

/// A control message's two relevant fields: its type, and the payload string
/// if one is present.
pub struct ControlMessage {
    pub kind: String,
    pub payload: Option<String>,
}

/// The spec-level picture of a control message.
pub open spec fn control_view(cm: ControlMessage) -> (Seq<char>, Option<Seq<char>>) {
    (
        cm.kind@,
        match cm.payload {
            Some(p) => Some(p@),
            None => None,
        },
    )
}

/// The `type` field and string `payload` field (if any) of a JSON control
/// message, or `None` when the text is not a JSON object with a string
/// `type` field. A function of the text alone.
pub uninterp spec fn control_fields_of(s: Seq<char>) -> Option<(Seq<char>, Option<Seq<char>>)>;

/// Relies on serde_json::from_str and serde_json::Value's get/as_str: parses
/// the text as JSON and reads the `type` field and, when it is a string, the
/// `payload` field. The result depends on the text alone.
#[verifier::external_body]
fn parse_control_text(s: &str) -> (r: Option<ControlMessage>)
    ensures
        match r {
            Some(cm) => control_fields_of(s@) == Some(control_view(cm)),
            None => control_fields_of(s@) is None,
        },
{
    let v: serde_json::Value = match serde_json::from_str(s) {
        Ok(v) => v,
        Err(_) => return None,
    };
    let kind = match v.get("type").and_then(|t| t.as_str()) {
        Some(k) => k.to_string(),
        None => return None,
    };
    let payload = v.get("payload").and_then(|p| p.as_str()).map(|p| p.to_string());
    Some(ControlMessage { kind, payload })
}

/// What decoding the text as standard base64 yields, or `None` when it is
/// not valid base64. A function of the text alone.
pub uninterp spec fn base64_decoded(s: Seq<char>) -> Option<Seq<u8>>;

/// Relies on base64's `BASE64_STANDARD` engine `decode`: the standard
/// alphabet with padding. The result depends on the text alone.
#[verifier::external_body]
fn decode_base64(s: &str) -> (r: Option<Vec<u8>>)
    ensures
        match r {
            Some(v) => base64_decoded(s@) == Some(v@),
            None => base64_decoded(s@) is None,
        },
{
    base64::Engine::decode(&base64::prelude::BASE64_STANDARD, s).ok()
}

/// Relies on std's `str::from_utf8`: succeeds exactly on valid UTF-8 and
/// returns the decoded text.
#[verifier::external_body]
fn utf8_to_str(b: &[u8]) -> (r: Option<&str>)
    ensures
        match r {
            Some(s) => valid_utf8(b@) && s@ == decode_utf8(b@),
            None => !valid_utf8(b@),
        },
{
    core::str::from_utf8(b).ok()
}

/// What a control message's fields mean: which event the message carries, or
/// why it is rejected.
pub open spec fn spec_classify(s: Seq<char>) -> Result<SpecConnectionEvent, EmulatorError> {
    match control_fields_of(s) {
        None => Err(EmulatorError::InvalidJson),
        Some((kind, payload)) => if kind == "connect_reply"@ {
            Ok(SpecConnectionEvent::Connect)
        } else if kind == "game_event"@ {
            match payload {
                None => Err(EmulatorError::MissingPayload),
                Some(p) => match base64_decoded(p) {
                    Some(bytes) => Ok(SpecConnectionEvent::Message(bytes)),
                    None => Err(EmulatorError::BadBase64),
                },
            }
        } else if kind == "start_game"@ {
            Ok(SpecConnectionEvent::StartGame)
        } else if kind == "end_game"@ {
            Ok(SpecConnectionEvent::EndGame)
        } else {
            Err(EmulatorError::UnexpectedPacketType)
        },
    }
}

/// Classify one received packet: decode it as UTF-8 JSON and map its `type`
/// to an event, base64-decoding the payload of a `game_event`.
pub fn process_packet(data: &[u8]) -> (res: Result<ConnectionEvent, EmulatorError>)
    ensures
        match res {
            Ok(ev) => valid_utf8(data@) && spec_classify(decode_utf8(data@)) == Ok::<
                _,
                EmulatorError,
            >(event_view(ev)),
            Err(e) => if e == EmulatorError::InvalidUtf8 {
                !valid_utf8(data@)
            } else {
                valid_utf8(data@) && spec_classify(decode_utf8(data@)) == Err::<
                    SpecConnectionEvent,
                    _,
                >(e)
            },
        },
{
    let text = match utf8_to_str(data) {
        Some(t) => t,
        None => {
            return Err(EmulatorError::InvalidUtf8);
        },
    };
    let cm = match parse_control_text(text) {
        Some(cm) => cm,
        None => {
            return Err(EmulatorError::InvalidJson);
        },
    };
    if cm.kind == String::from_str("connect_reply") {
        Ok(ConnectionEvent::Connect)
    } else if cm.kind == String::from_str("game_event") {
        match cm.payload {
            None => Err(EmulatorError::MissingPayload),
            Some(p) => match decode_base64(p.as_str()) {
                Some(bytes) => Ok(ConnectionEvent::Message { payload: bytes }),
                None => Err(EmulatorError::BadBase64),
            },
        }
    } else if cm.kind == String::from_str("start_game") {
        Ok(ConnectionEvent::StartGame)
    } else if cm.kind == String::from_str("end_game") {
        Ok(ConnectionEvent::EndGame)
    } else {
        Err(EmulatorError::UnexpectedPacketType)
    }
}

/// The JSON connect request sent on the wire once the peer connects.
pub fn connect_request_text() -> (r: &'static str)
    ensures
        r@ == "{\"type\":\"connect_request\",\"cursor\":0}"@,
{
    "{\"type\":\"connect_request\",\"cursor\":0}"
}

/// The gameplay bytes of one service tick: the payloads of its `Message`
/// events, concatenated in arrival order.
pub open spec fn spec_game_data(events: Seq<SpecConnectionEvent>) -> Seq<u8>
    decreases events.len(),
{
    if events.len() == 0 {
        Seq::empty()
    } else {
        spec_game_data(events.drop_last()) + (match events.last() {
            SpecConnectionEvent::Message(p) => p,
            _ => Seq::empty(),
        })
    }
}

/// Concatenate the payloads of one tick's events, in order.
pub fn collect_game_data(events: &Vec<ConnectionEvent>) -> (res: Vec<u8>)
    ensures
        res@ == spec_game_data(events@.map_values(|ev: ConnectionEvent| event_view(ev))),
{
    let ghost model = events@.map_values(|ev: ConnectionEvent| event_view(ev));
    let mut res: Vec<u8> = Vec::new();
    let mut i: usize = 0;
    while i < events.len()
        invariant
            i <= events@.len(),
            model == events@.map_values(|ev: ConnectionEvent| event_view(ev)),
            res@ == spec_game_data(model.take(i as int)),
        decreases events@.len() - i,
    {
        proof {
            assert(model.take(i + 1).drop_last() =~= model.take(i as int));
            assert(model.take(i + 1).last() == model[i as int]);
        }
        match &events[i] {
            ConnectionEvent::Message { payload } => {
                let mut j: usize = 0;
                while j < payload.len()
                    invariant
                        j <= payload@.len(),
                        i < events@.len(),
                        model == events@.map_values(|ev: ConnectionEvent| event_view(ev)),
                        model[i as int] matches SpecConnectionEvent::Message(p) && p == payload@,
                        res@ == spec_game_data(model.take(i as int)) + payload@.take(j as int),
                    decreases payload@.len() - j,
                {
                    res.push(payload[j]);
                    proof {
                        assert(res@ =~= spec_game_data(model.take(i as int)) + payload@.take(
                            j + 1,
                        ));
                    }
                    j = j + 1;
                }
                proof {
                    assert(payload@.take(payload@.len() as int) =~= payload@);
                    assert(res@ =~= spec_game_data(model.take(i + 1)));
                }
            },
            _ => {
                proof {
                    assert(res@ =~= spec_game_data(model.take(i + 1)));
                }
            },
        }
        i = i + 1;
    }
    proof {
        assert(model.take(model.len() as int) =~= model);
    }
    res
}

/// Whether the tick's events end with a disconnect, after which the source
/// yields nothing more.
pub fn ends_with_disconnect(events: &Vec<ConnectionEvent>) -> (res: bool)
    ensures
        res == (events@.len() > 0 && events@.last() matches ConnectionEvent::Disconnect),
{
    if events.len() == 0 {
        return false;
    }
    match &events[events.len() - 1] {
        ConnectionEvent::Disconnect => true,
        _ => false,
    }
}

/// The element one service tick contributes to the source stream: the
/// concatenated gameplay bytes, or nothing when the tick carried none.
pub fn tick_output(events: &Vec<ConnectionEvent>) -> (res: Option<Vec<u8>>)
    ensures
        ({
            let d = spec_game_data(events@.map_values(|ev: ConnectionEvent| event_view(ev)));
            match res {
                Some(v) => v@ == d && d.len() > 0,
                None => d.len() == 0,
            }
        }),
{
    let data = collect_game_data(events);
    if data.len() == 0 {
        None
    } else {
        Some(data)
    }
}

} // verus!
