//! Connection lifecycle policy: connect, heartbeat cadence, bounded
//! reconnection.
//!
//! The manager is a pure state machine.  The surrounding runtime owns the
//! transport and the two per-connection tasks (one inbound reader, one
//! heartbeat sender); it reports what happened as a [`ConnectionEvent`]
//! and performs the returned [`ConnectionAction`].  Exactly one transport
//! attempt is requested at a time, and once the attempt bound is reached
//! the machine goes fatal and asks for nothing further until a manual
//! retry.

use vstd::prelude::*;

verus! {

/// Seconds between keepalive frames.
pub const HEARTBEAT_INTERVAL_SECS: u32 = 30;

/// Seconds to wait before a reconnection attempt.
pub const RECONNECT_DELAY_SECS: u32 = 5;

/// How many transport attempts may fail before the failure is fatal.
pub const DEFAULT_MAX_RECONNECTION_ATTEMPTS: u32 = 10;

/// Where the session stands: the connection ladder from no transport to
/// an authenticated exchange.
#[derive(Debug, Clone, Copy, PartialEq, Eq, Structural)]
pub enum SessionState {
    Disconnected,
    Connecting,
    ConnectedUnauthenticated,
    ConnectedAuthenticated,
}

#[derive(Debug, Clone, Copy, PartialEq, Eq, Structural)]
pub enum ConnectionStatus {
    /// No transport and none wanted.
    Disconnected,
    /// A transport attempt is running or scheduled.
    Connecting,
    /// A live transport with its heartbeat and read tasks.
    Connected,
    /// The attempt bound was exhausted; only a manual retry leaves this.
    Failed,
}

/// What the runtime observed.
#[derive(Debug, Clone, Copy, PartialEq, Eq, Structural)]
pub enum ConnectionEvent {
    /// A connection was asked for (client start or user intent).
    OpenRequested,
    /// The transport attempt succeeded.
    Opened,
    /// The transport attempt failed.
    OpenFailed,
    /// The live link broke: a read error or a failed heartbeat send.
    LinkLost,
    /// The user asked to retry after a fatal failure.
    ManualRetry,
    /// The user left or logged out.
    CloseRequested,
}

/// What the runtime must do next.
#[derive(Debug, Clone, Copy, PartialEq, Eq, Structural)]
pub enum ConnectionAction {
    /// Nothing.
    Stay,
    /// Begin one transport attempt now.
    OpenTransport,
    /// The attempt succeeded: start the heartbeat task and the read task,
    /// both bound to this connection.
    StartTasks,
    /// Wait this many seconds, then begin one transport attempt.
    ScheduleRetry { delay_secs: u32 },
    /// Announce the fatal connectivity error; retrying has stopped.
    RaiseFatal,
    /// Cancel both tasks and close the transport.
    CloseTransport,
}

/// The connection lifecycle state machine.
#[derive(Debug, Clone, Copy, PartialEq, Eq, Structural)]
pub struct ConnectionManager {
    pub status: ConnectionStatus,
    /// Failed transport attempts since the last success or manual retry.
    pub reconnection_attempts: u32,
    pub max_reconnection_attempts: u32,
}

/// One transition of the lifecycle machine.
pub open spec fn spec_step(s: ConnectionManager, e: ConnectionEvent) -> (ConnectionManager,
    ConnectionAction) {
    match e {
        ConnectionEvent::CloseRequested => (
            ConnectionManager {
                status: ConnectionStatus::Disconnected,
                reconnection_attempts: 0,
                ..s
            },
            ConnectionAction::CloseTransport,
        ),
        ConnectionEvent::OpenRequested => {
            if s.status is Disconnected {
                (
                    ConnectionManager { status: ConnectionStatus::Connecting, ..s },
                    ConnectionAction::OpenTransport,
                )
            } else {
                (s, ConnectionAction::Stay)
            }
        },
        ConnectionEvent::Opened => {
            if s.status is Connecting {
                (
                    ConnectionManager {
                        status: ConnectionStatus::Connected,
                        reconnection_attempts: 0,
                        ..s
                    },
                    ConnectionAction::StartTasks,
                )
            } else {
                (s, ConnectionAction::Stay)
            }
        },
        ConnectionEvent::OpenFailed => {
            if s.status is Connecting {
                if s.reconnection_attempts + 1 < s.max_reconnection_attempts {
                    (
                        ConnectionManager {
                            reconnection_attempts: (s.reconnection_attempts + 1) as u32,
                            ..s
                        },
                        ConnectionAction::ScheduleRetry { delay_secs: RECONNECT_DELAY_SECS },
                    )
                } else {
                    (
                        ConnectionManager {
                            status: ConnectionStatus::Failed,
                            reconnection_attempts: s.max_reconnection_attempts,
                            ..s
                        },
                        ConnectionAction::RaiseFatal,
                    )
                }
            } else {
                (s, ConnectionAction::Stay)
            }
        },
        ConnectionEvent::LinkLost => {
            if s.status is Connected {
                (
                    ConnectionManager { status: ConnectionStatus::Connecting, ..s },
                    ConnectionAction::ScheduleRetry { delay_secs: RECONNECT_DELAY_SECS },
                )
            } else {
                (s, ConnectionAction::Stay)
            }
        },
        ConnectionEvent::ManualRetry => {
            if s.status is Failed {
                (
                    ConnectionManager {
                        status: ConnectionStatus::Connecting,
                        reconnection_attempts: 0,
                        ..s
                    },
                    ConnectionAction::OpenTransport,
                )
            } else {
                (s, ConnectionAction::Stay)
            }
        },
    }
}

impl ConnectionManager {
    /// The attempt counter never passes its bound, and the bound is set.
    pub open spec fn wf(self) -> bool {
        &&& self.reconnection_attempts <= self.max_reconnection_attempts
        &&& self.max_reconnection_attempts >= 1
    }

    pub fn new() -> (r: Self)
        ensures
            r.wf(),
            r.status == ConnectionStatus::Disconnected,
            r.reconnection_attempts == 0,
            r.max_reconnection_attempts == DEFAULT_MAX_RECONNECTION_ATTEMPTS,
    {
        ConnectionManager {
            status: ConnectionStatus::Disconnected,
            reconnection_attempts: 0,
            max_reconnection_attempts: DEFAULT_MAX_RECONNECTION_ATTEMPTS,
        }
    }

    pub fn is_connected(&self) -> (r: bool)
        ensures
            r == (self.status is Connected),
    {
        match self.status {
            ConnectionStatus::Connected => true,
            _ => false,
        }
    }

    /// Feed one observed event through the machine and learn what to do.
    pub fn on_event(&mut self, e: ConnectionEvent) -> (action: ConnectionAction)
        requires
            old(self).wf(),
        ensures
            final(self).wf(),
            (*final(self), action) == spec_step(*old(self), e),
    {
        let next = match e {
            ConnectionEvent::CloseRequested => {
                self.status = ConnectionStatus::Disconnected;
                self.reconnection_attempts = 0;
                ConnectionAction::CloseTransport
            },
            ConnectionEvent::OpenRequested => {
                match self.status {
                    ConnectionStatus::Disconnected => {
                        self.status = ConnectionStatus::Connecting;
                        ConnectionAction::OpenTransport
                    },
                    _ => ConnectionAction::Stay,
                }
            },
            ConnectionEvent::Opened => {
                match self.status {
                    ConnectionStatus::Connecting => {
                        self.status = ConnectionStatus::Connected;
                        self.reconnection_attempts = 0;
                        ConnectionAction::StartTasks
                    },
                    _ => ConnectionAction::Stay,
                }
            },
            ConnectionEvent::OpenFailed => {
                match self.status {
                    ConnectionStatus::Connecting => {
                        if self.reconnection_attempts < self.max_reconnection_attempts - 1 {
                            self.reconnection_attempts = self.reconnection_attempts + 1;
                            ConnectionAction::ScheduleRetry {
                                delay_secs: RECONNECT_DELAY_SECS,
                            }
                        } else {
                            self.status = ConnectionStatus::Failed;
                            self.reconnection_attempts = self.max_reconnection_attempts;
                            ConnectionAction::RaiseFatal
                        }
                    },
                    _ => ConnectionAction::Stay,
                }
            },
            ConnectionEvent::LinkLost => {
                match self.status {
                    ConnectionStatus::Connected => {
                        self.status = ConnectionStatus::Connecting;
                        ConnectionAction::ScheduleRetry { delay_secs: RECONNECT_DELAY_SECS }
                    },
                    _ => ConnectionAction::Stay,
                }
            },
            ConnectionEvent::ManualRetry => {
                match self.status {
                    ConnectionStatus::Failed => {
                        self.status = ConnectionStatus::Connecting;
                        self.reconnection_attempts = 0;
                        ConnectionAction::OpenTransport
                    },
                    _ => ConnectionAction::Stay,
                }
            },
        };
        next
    }
}

/// Whether the next keepalive frame is due: the interval has elapsed
/// since the last one was sent.  Instants are UTC milliseconds; within
/// one connection the clock does not run backwards.
pub fn heartbeat_due(now: i64, last_sent: i64, interval_secs: u32) -> (r: bool)
    requires
        last_sent <= now,
        now - last_sent <= i64::MAX,
    ensures
        r == (now - last_sent >= interval_secs as i64 * 1000),
{
    now - last_sent >= interval_secs as i64 * 1000
}

/// The state after `n` straight failed transport attempts.
pub open spec fn after_failures(s: ConnectionManager, n: nat) -> ConnectionManager
    decreases n,
{
    if n == 0 {
        s
    } else {
        spec_step(after_failures(s, (n - 1) as nat), ConnectionEvent::OpenFailed).0
    }
}

/// How many of those `n` failures were answered with a scheduled retry —
/// that is, how many further transport attempts the machine asked for.
pub open spec fn retries_scheduled(s: ConnectionManager, n: nat) -> nat
    decreases n,
{
    if n == 0 {
        0
    } else {
        retries_scheduled(s, (n - 1) as nat) + (
        if spec_step(after_failures(s, (n - 1) as nat), ConnectionEvent::OpenFailed).1 matches
            ConnectionAction::ScheduleRetry { .. } {
            1nat
        } else {
            0nat
        })
    }
}

/// Reconnection is bounded.  From a connecting state with `a` failures
/// already counted against a bound of `m`, any run of straight connect
/// failures schedules at most `m - a - 1` further attempts — so at most
/// `m` transport attempts ever run — and once `m - a` failures have
/// happened the machine is fatally failed: the `m`-th failure raises the
/// fatal error and no further attempt is asked for.
pub proof fn lemma_reconnection_bound(s: ConnectionManager, n: nat)
    requires
        s.wf(),
        s.status is Connecting,
        s.reconnection_attempts < s.max_reconnection_attempts,
    ensures
        after_failures(s, n).wf(),
        after_failures(s, n).max_reconnection_attempts == s.max_reconnection_attempts,
        retries_scheduled(s, n) + s.reconnection_attempts + 1 <= s.max_reconnection_attempts,
        n + s.reconnection_attempts < s.max_reconnection_attempts ==> {
            &&& after_failures(s, n).status is Connecting
            &&& after_failures(s, n).reconnection_attempts == n + s.reconnection_attempts
            &&& retries_scheduled(s, n) == n
        },
        n + s.reconnection_attempts >= s.max_reconnection_attempts ==> {
            &&& after_failures(s, n).status is Failed
            &&& retries_scheduled(s, n) + s.reconnection_attempts + 1
                == s.max_reconnection_attempts
        },
    decreases n,
{
    if n > 0 {
        lemma_reconnection_bound(s, (n - 1) as nat);
    }
}

} // verus!
