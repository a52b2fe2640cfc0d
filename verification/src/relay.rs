//! Relay-client session: a state machine over one WebSocket connection to
//! the relay. It dials with bounded retries, waits for the single bridge-info
//! text message, streams binary frames, reconnects transparently on
//! transient disconnects, and closes gracefully. The I/O runner feeds events
//! in and applies the returned actions; every decision is made here.

use vstd::prelude::*;

verus! {

/// Idle timeout of the relay socket, in seconds.
pub const SOCKET_TIMEOUT_SECS: u64 = 15;

/// How many times the initial connect is attempted before giving up.
pub const MAX_INITIAL_CONNECT_ATTEMPTS: u8 = 3;

/// How many times a reconnect is attempted after a transient disconnect.
pub const MAX_RECONNECT_ATTEMPTS: u8 = 3;

/// What the relay delivers in its first text message: the bridge id and the
/// stream id assigned to each source, positionally.
pub struct BridgeInfo {
    pub bridge_id: String,
    pub stream_ids: Vec<u32>,
}

/// A relay-session failure.
#[derive(Debug, Clone, Copy, PartialEq, Eq, Structural)]
pub enum WSError {
    /// The initial connect attempts were exhausted, or the bridge info never
    /// arrived.
    ConnectError,
    /// A send was attempted after the session closed.
    SendError,
    /// The close handshake could not be sent.
    CloseError,
    /// Every reconnect attempt after a transient disconnect failed.
    ConnectionClosed,
    /// The connection task ended without reporting a result.
    ConnectionTaskPanicked,
    /// The monitor's result was already consumed by an earlier wait.
    AlreadyConsumed,
}

/// The connection's phase.
#[derive(Debug, Clone, Copy, PartialEq, Eq, Structural)]
pub enum RelayState {
    /// Initial connect in progress; this many attempts remain.
    Dialing { attempts_left: u8 },
    /// Connected; the bridge-info text message has not arrived yet.
    FirstMessageWait,
    /// Bridge info delivered; binary frames flow.
    Streaming,
    /// Transient disconnect; this many reconnect attempts remain.
    Reconnecting { attempts_left: u8 },
    /// The session ended after streaming (local close or reconnects
    /// exhausted).
    Closed,
    /// The session never reached streaming.
    Failed,
}

/// What the I/O runner reports to the session.
pub enum RelayEvent {
    /// A connect or reconnect attempt succeeded.
    ConnectSucceeded,
    /// A connect or reconnect attempt failed.
    ConnectFailed,
    /// A text frame arrived; `None` when it was not a bridge-info document.
    TextMessage(Option<BridgeInfo>),
    /// The socket dropped without a local close.
    Disconnected,
    /// The caller asked for a graceful close.
    LocalClose,
}

/// What the I/O runner must do next.
pub enum RelayAction {
    /// Nothing.
    Ignore,
    /// Hand the first (and only) bridge info to the caller's one-shot.
    DeliverBridgeInfo(BridgeInfo),
    /// Try to connect (again).
    Dial,
    /// Send a normal close frame; an already-closed socket is tolerated.
    SendCloseFrame,
    /// Resolve the monitor: the session failed before streaming.
    ReportConnectError,
    /// Resolve the monitor: the session is over.
    ReportClosed,
}

/// One relay session: its phase, and whether bridge info went out already.
pub struct RelaySession {
    state: RelayState,
    delivered: bool,
}

/// The transition function: next (state, delivered) and the action to take.
pub open spec fn spec_session_step(
    state: RelayState,
    delivered: bool,
    ev: RelayEvent,
) -> (RelayState, bool, RelayAction) {
    match ev {
        RelayEvent::LocalClose => (RelayState::Closed, delivered, RelayAction::SendCloseFrame),
        RelayEvent::ConnectSucceeded => match state {
            RelayState::Dialing { .. } => (RelayState::FirstMessageWait, delivered, RelayAction::Ignore),
            RelayState::Reconnecting { .. } => (RelayState::Streaming, delivered, RelayAction::Ignore),
            _ => (state, delivered, RelayAction::Ignore),
        },
        RelayEvent::ConnectFailed => match state {
            RelayState::Dialing { attempts_left } => {
                if attempts_left <= 1 {
                    (RelayState::Failed, delivered, RelayAction::ReportConnectError)
                } else {
                    (
                        RelayState::Dialing { attempts_left: (attempts_left - 1) as u8 },
                        delivered,
                        RelayAction::Dial,
                    )
                }
            },
            RelayState::Reconnecting { attempts_left } => {
                if attempts_left <= 1 {
                    (RelayState::Closed, delivered, RelayAction::ReportClosed)
                } else {
                    (
                        RelayState::Reconnecting { attempts_left: (attempts_left - 1) as u8 },
                        delivered,
                        RelayAction::Dial,
                    )
                }
            },
            _ => (state, delivered, RelayAction::Ignore),
        },
        RelayEvent::TextMessage(info) => match state {
            RelayState::FirstMessageWait => match info {
                Some(bi) => {
                    if delivered {
                        (RelayState::Streaming, delivered, RelayAction::Ignore)
                    } else {
                        (RelayState::Streaming, true, RelayAction::DeliverBridgeInfo(bi))
                    }
                },
                None => (RelayState::Failed, delivered, RelayAction::ReportConnectError),
            },
            _ => (state, delivered, RelayAction::Ignore),
        },
        RelayEvent::Disconnected => match state {
            RelayState::Streaming => (
                RelayState::Reconnecting { attempts_left: MAX_RECONNECT_ATTEMPTS },
                delivered,
                RelayAction::Dial,
            ),
            RelayState::FirstMessageWait => (
                RelayState::Failed,
                delivered,
                RelayAction::ReportConnectError,
            ),
            _ => (state, delivered, RelayAction::Ignore),
        },
    }
}

/// Whether binary frames may be handed to the socket in this phase.
pub open spec fn spec_can_send(state: RelayState) -> bool {
    state == RelayState::Streaming || (state matches RelayState::Reconnecting { .. })
}

impl RelaySession {
    /// The session's phase.
    pub closed spec fn state(self) -> RelayState {
        self.state
    }

    /// Whether the bridge info has been handed to the caller.
    pub closed spec fn delivered(self) -> bool {
        self.delivered
    }

    /// A fresh session: dialing, with the full budget of initial attempts,
    /// nothing delivered yet.
    pub fn new() -> (res: RelaySession)
        ensures
            res.state() == (RelayState::Dialing { attempts_left: MAX_INITIAL_CONNECT_ATTEMPTS }),
            !res.delivered(),
    {
        RelaySession {
            state: RelayState::Dialing { attempts_left: MAX_INITIAL_CONNECT_ATTEMPTS },
            delivered: false,
        }
    }

    /// Feed one event; returns the action the runner must take. Behaves
    /// exactly as `spec_session_step` says.
    pub fn step(&mut self, ev: RelayEvent) -> (action: RelayAction)
        ensures
            (final(self).state(), final(self).delivered(), action) == spec_session_step(
                old(self).state(),
                old(self).delivered(),
                ev,
            ),
    {
        match ev {
            RelayEvent::LocalClose => {
                self.state = RelayState::Closed;
                RelayAction::SendCloseFrame
            },
            RelayEvent::ConnectSucceeded => match self.state {
                RelayState::Dialing { .. } => {
                    self.state = RelayState::FirstMessageWait;
                    RelayAction::Ignore
                },
                RelayState::Reconnecting { .. } => {
                    self.state = RelayState::Streaming;
                    RelayAction::Ignore
                },
                _ => RelayAction::Ignore,
            },
            RelayEvent::ConnectFailed => match self.state {
                RelayState::Dialing { attempts_left } => {
                    if attempts_left <= 1 {
                        self.state = RelayState::Failed;
                        RelayAction::ReportConnectError
                    } else {
                        self.state = RelayState::Dialing { attempts_left: attempts_left - 1 };
                        RelayAction::Dial
                    }
                },
                RelayState::Reconnecting { attempts_left } => {
                    if attempts_left <= 1 {
                        self.state = RelayState::Closed;
                        RelayAction::ReportClosed
                    } else {
                        self.state = RelayState::Reconnecting {
                            attempts_left: attempts_left - 1,
                        };
                        RelayAction::Dial
                    }
                },
                _ => RelayAction::Ignore,
            },
            RelayEvent::TextMessage(info) => match self.state {
                RelayState::FirstMessageWait => match info {
                    Some(bi) => {
                        self.state = RelayState::Streaming;
                        if self.delivered {
                            RelayAction::Ignore
                        } else {
                            self.delivered = true;
                            RelayAction::DeliverBridgeInfo(bi)
                        }
                    },
                    None => {
                        self.state = RelayState::Failed;
                        RelayAction::ReportConnectError
                    },
                },
                _ => RelayAction::Ignore,
            },
            RelayEvent::Disconnected => match self.state {
                RelayState::Streaming => {
                    self.state = RelayState::Reconnecting {
                        attempts_left: MAX_RECONNECT_ATTEMPTS,
                    };
                    RelayAction::Dial
                },
                RelayState::FirstMessageWait => {
                    self.state = RelayState::Failed;
                    RelayAction::ReportConnectError
                },
                _ => RelayAction::Ignore,
            },
        }
    }

    /// The session's current phase.
    pub fn state_snapshot(&self) -> (res: RelayState)
        ensures
            res == self.state(),
    {
        self.state
    }

    /// Whether a binary frame may go out right now.
    pub fn can_send(&self) -> (res: bool)
        ensures
            res == spec_can_send(self.state()),
    {
        match self.state {
            RelayState::Streaming => true,
            RelayState::Reconnecting { .. } => true,
            _ => false,
        }
    }
}

/// A session run: fold the step function over an event sequence, collecting
/// the actions.
pub open spec fn spec_session_run(
    state: RelayState,
    delivered: bool,
    events: Seq<RelayEvent>,
) -> (RelayState, bool, Seq<RelayAction>)
    decreases events.len(),
{
    if events.len() == 0 {
        (state, delivered, Seq::empty())
    } else {
        let (s1, d1, a) = spec_session_step(state, delivered, events.first());
        let rest = spec_session_run(s1, d1, events.drop_first());
        (rest.0, rest.1, seq![a] + rest.2)
    }
}

/// How many of the actions deliver the bridge info.
pub open spec fn spec_delivery_count(actions: Seq<RelayAction>) -> int
    decreases actions.len(),
{
    if actions.len() == 0 {
        0
    } else {
        (if actions.first() matches RelayAction::DeliverBridgeInfo(_) {
            1int
        } else {
            0int
        }) + spec_delivery_count(actions.drop_first())
    }
}

/// Law: once delivered, always delivered — a run never clears the flag — and
/// a run delivers the bridge info exactly once if it ends delivered having
/// started undelivered, and never otherwise. In particular a reconnect
/// (`Disconnected` then `ConnectSucceeded` while already delivered) cannot
/// re-deliver it.
pub proof fn lemma_bridge_info_delivered_at_most_once(
    state: RelayState,
    delivered: bool,
    events: Seq<RelayEvent>,
)
    ensures
        ({
            let r = spec_session_run(state, delivered, events);
            &&& delivered ==> r.1
            &&& spec_delivery_count(r.2) == (if r.1 && !delivered {
                1int
            } else {
                0int
            })
        }),
    decreases events.len(),
{
    if events.len() == 0 {
    } else {
        let (s1, d1, a) = spec_session_step(state, delivered, events.first());
        lemma_bridge_info_delivered_at_most_once(s1, d1, events.drop_first());
        let rest = spec_session_run(s1, d1, events.drop_first());
        assert((seq![a] + rest.2).drop_first() =~= rest.2);
    }
}

/// Law: the handshake comes first. In any run from the initial session
/// state, whenever the session is in a phase that allows sending binary
/// frames, the bridge info has already been delivered.
pub proof fn lemma_no_send_before_bridge_info(state: RelayState, delivered: bool, events: Seq<RelayEvent>)
    requires
        spec_can_send(state) ==> delivered,
    ensures
        ({
            let r = spec_session_run(state, delivered, events);
            spec_can_send(r.0) ==> r.1
        }),
    decreases events.len(),
{
    if events.len() == 0 {
    } else {
        let (s1, d1, a) = spec_session_step(state, delivered, events.first());
        lemma_no_send_before_bridge_info(s1, d1, events.drop_first());
    }
}

/// How a finished connection task resolved.
#[derive(Debug, Clone, Copy, PartialEq, Eq, Structural)]
pub enum TaskOutcome {
    /// The task ended cleanly.
    Finished,
    /// The task ended with a connection error.
    FinishedWithError,
    /// The task ended without reporting a result.
    Panicked,
}

/// Single-consumer monitor for the connection task's result.
pub struct ConnectionMonitor {
    consumed: bool,
}

impl ConnectionMonitor {
    /// Whether the result was already taken.
    pub closed spec fn consumed(self) -> bool {
        self.consumed
    }

    /// A fresh monitor whose result is still available.
    pub fn new() -> (res: ConnectionMonitor)
        ensures
            !res.consumed(),
    {
        ConnectionMonitor { consumed: false }
    }

    /// Take the task's result. The first call maps the outcome; every later
    /// call fails with `AlreadyConsumed`.
    pub fn take_result(&mut self, outcome: TaskOutcome) -> (res: Result<(), WSError>)
        ensures
            final(self).consumed(),
            old(self).consumed() ==> res == Err::<(), WSError>(WSError::AlreadyConsumed),
            !old(self).consumed() ==> res == match outcome {
                TaskOutcome::Finished => Ok::<(), WSError>(()),
                TaskOutcome::FinishedWithError => Err::<(), WSError>(WSError::ConnectionClosed),
                TaskOutcome::Panicked => Err::<(), WSError>(WSError::ConnectionTaskPanicked),
            },
    {
        if self.consumed {
            return Err(WSError::AlreadyConsumed);
        }
        self.consumed = true;
        match outcome {
            TaskOutcome::Finished => Ok(()),
            TaskOutcome::FinishedWithError => Err(WSError::ConnectionClosed),
            TaskOutcome::Panicked => Err(WSError::ConnectionTaskPanicked),
        }
    }
}

/// The log line for the forwarding half's result.
pub fn log_forward_result(result: Result<(), WSError>) -> (msg: &'static str)
    ensures
        result is Ok ==> msg@ == "Slippi stream finished successfully"@,
        result is Err ==> msg@ == "Slippi stream finished with error"@,
{
    match result {
        Ok(_) => "Slippi stream finished successfully",
        Err(_) => "Slippi stream finished with error",
    }
}

/// The log line for the relay connection's result.
pub fn log_sm_client_result(result: Result<(), WSError>) -> (msg: &'static str)
    ensures
        result is Ok ==> msg@ == "SpectatorMode connection finished successfully"@,
        result is Err ==> msg@ == "SpectatorMode connection finished with error"@,
{
    match result {
        Ok(_) => "SpectatorMode connection finished successfully",
        Err(_) => "SpectatorMode connection finished with error",
    }
}

} // verus!
