use vstd::prelude::*;
use crate::tag_map::ServiceInfo;
use crate::text::{decimal, decimal_text};

verus! {

/// Pause after the connection opens, before the login is sent, in milliseconds.
pub const SETTLE_DELAY_MS: u64 = 100;

/// How long the login may wait for its acknowledgment, in milliseconds.
pub const LOGIN_ACK_TIMEOUT_MS: u64 = 4000;

/// How long a refresh waits for the monitor list, in milliseconds.
pub const REFRESH_FETCH_TIMEOUT_MS: u64 = 5000;

/// Why the monitor list could not be fetched.
#[derive(Debug)]
pub enum ServiceReceiveError {
    /// The realtime connection could not be opened, or the login was not
    /// acknowledged in time; holds the transport's account of it.
    ConnectionFailed(String),
    /// No monitor list arrived within the fetch window; holds the window in milliseconds.
    FetchTimedOut(u64),
    /// A monitor list arrived but did not have the expected shape; holds the offending content.
    DecodeFailed(String),
}

impl ServiceReceiveError {
    /// A human-readable account of the error.
    pub fn message(&self) -> (r: String)
        ensures
            match self {
                ServiceReceiveError::ConnectionFailed(m) => r@ == "Connection error: "@ + m@,
                ServiceReceiveError::FetchTimedOut(ms) => r@ == "Error: Failed to fetch monitorList after "@
                    + decimal(*ms as nat) + " ms"@,
                ServiceReceiveError::DecodeFailed(m) => r@ == "Error: Failed to decode monitorList: "@
                    + m@,
            },
    {
        match self {
            ServiceReceiveError::ConnectionFailed(m) => {
                let mut r = String::from_str("Connection error: ");
                r.append(m.as_str());
                r
            },
            ServiceReceiveError::FetchTimedOut(ms) => {
                let mut r = String::from_str("Error: Failed to fetch monitorList after ");
                let digits = decimal_text(*ms);
                r.append(digits.as_str());
                r.append(" ms");
                r
            },
            ServiceReceiveError::DecodeFailed(m) => {
                let mut r = String::from_str("Error: Failed to decode monitorList: ");
                r.append(m.as_str());
                r
            },
        }
    }
}

/// Where a fetch of the monitor list stands.
#[derive(PartialEq, Eq, Structural, Debug, Clone, Copy)]
pub enum FetchPhase {
    Connecting,
    Settling,
    LoggingIn,
    AwaitingList,
    Closing,
    Finished,
}

/// What the driver of a fetch must do next.
#[derive(PartialEq, Eq, Structural, Debug, Clone, Copy)]
pub enum FetchAction {
    /// Open the realtime connection.
    Connect,
    /// Let the connection settle for this many milliseconds.
    Settle(u64),
    /// Send the login and wait this many milliseconds at most for its acknowledgment.
    Login(u64),
    /// Wait this many milliseconds at most for the first monitor-list event.
    AwaitList(u64),
    /// Close the connection.
    Disconnect,
    /// Stop: the outcome is ready.
    Finish,
    /// Nothing: the event did not belong to the current phase.
    Ignore,
}

/// What happened when the driver carried out an action.
pub enum FetchEvent {
    Connected,
    ConnectFailed(String),
    Settled,
    LoginAcked,
    LoginFailed(String),
    /// The first monitor-list event arrived and decoded into these monitors.
    ListArrived(Vec<ServiceInfo>),
    /// The first monitor-list event arrived but could not be decoded.
    ListUndecodable(String),
    ListTimedOut,
    Closed,
}

/// Whether the connection is open in `phase`, so that it must be closed before finishing.
pub open spec fn connection_open(phase: FetchPhase) -> bool {
    phase == FetchPhase::Settling || phase == FetchPhase::LoggingIn || phase
        == FetchPhase::AwaitingList
}

/// One fetch of the monitor list over the realtime protocol: connect, settle,
/// log in, wait for the first monitor-list event, then close the connection
/// whatever happened, and only then finish.
pub struct MonitorListFetch {
    phase: FetchPhase,
    fetch_timeout_ms: u64,
    outcome: Option<Result<Vec<ServiceInfo>, ServiceReceiveError>>,
}

impl MonitorListFetch {
    pub closed spec fn phase_of(&self) -> FetchPhase {
        self.phase
    }

    pub closed spec fn timeout_of(&self) -> u64 {
        self.fetch_timeout_ms
    }

    pub closed spec fn outcome_of(&self) -> Option<Result<Vec<ServiceInfo>, ServiceReceiveError>> {
        self.outcome
    }

    /// The outcome is known exactly from the moment the connection would be closed.
    pub closed spec fn wf(&self) -> bool {
        (self.outcome is Some) <==> (self.phase == FetchPhase::Closing || self.phase
            == FetchPhase::Finished)
    }

    /// A fetch that waits at most `fetch_timeout_ms` for the monitor list; its
    /// first action is to connect.
    pub fn new(fetch_timeout_ms: u64) -> (r: (MonitorListFetch, FetchAction))
        ensures
            r.0.wf(),
            r.0.phase_of() == FetchPhase::Connecting,
            r.0.timeout_of() == fetch_timeout_ms,
            r.0.outcome_of() is None,
            r.1 == FetchAction::Connect,
    {
        (MonitorListFetch { phase: FetchPhase::Connecting, fetch_timeout_ms, outcome: None }, FetchAction::Connect)
    }

    /// The current phase.
    pub fn phase(&self) -> (r: FetchPhase)
        ensures
            r == self.phase_of(),
    {
        self.phase
    }

    /// Takes in what happened and says what to do next.
    pub fn on_event(&mut self, event: FetchEvent) -> (r: FetchAction)
        requires
            old(self).wf(),
        ensures
            final(self).wf(),
            final(self).timeout_of() == old(self).timeout_of(),
            connection_open(old(self).phase_of()) ==> r != FetchAction::Finish,
            (r == FetchAction::Ignore) <==> (*final(self) == *old(self)),
            match (old(self).phase_of(), event) {
                (FetchPhase::Connecting, FetchEvent::Connected) => final(self).phase_of()
                    == FetchPhase::Settling && r == FetchAction::Settle(SETTLE_DELAY_MS),
                (FetchPhase::Connecting, FetchEvent::ConnectFailed(m)) => final(self).phase_of()
                    == FetchPhase::Finished && r == FetchAction::Finish && final(self).outcome_of()
                    == Some(Err::<Vec<ServiceInfo>, ServiceReceiveError>(
                    ServiceReceiveError::ConnectionFailed(m),
                )),
                (FetchPhase::Settling, FetchEvent::Settled) => final(self).phase_of()
                    == FetchPhase::LoggingIn && r == FetchAction::Login(LOGIN_ACK_TIMEOUT_MS),
                (FetchPhase::LoggingIn, FetchEvent::LoginAcked) => final(self).phase_of()
                    == FetchPhase::AwaitingList && r == FetchAction::AwaitList(
                    old(self).timeout_of(),
                ),
                (FetchPhase::LoggingIn, FetchEvent::LoginFailed(m)) => final(self).phase_of()
                    == FetchPhase::Closing && r == FetchAction::Disconnect
                    && final(self).outcome_of() == Some(
                    Err::<Vec<ServiceInfo>, ServiceReceiveError>(
                        ServiceReceiveError::ConnectionFailed(m),
                    ),
                ),
                (FetchPhase::AwaitingList, FetchEvent::ListArrived(services)) => final(self).phase_of() == FetchPhase::Closing && r == FetchAction::Disconnect
                    && final(self).outcome_of() == Some(
                    Ok::<Vec<ServiceInfo>, ServiceReceiveError>(services),
                ),
                (FetchPhase::AwaitingList, FetchEvent::ListUndecodable(m)) => final(self).phase_of() == FetchPhase::Closing && r == FetchAction::Disconnect
                    && final(self).outcome_of() == Some(
                    Err::<Vec<ServiceInfo>, ServiceReceiveError>(
                        ServiceReceiveError::DecodeFailed(m),
                    ),
                ),
                (FetchPhase::AwaitingList, FetchEvent::ListTimedOut) => final(self).phase_of()
                    == FetchPhase::Closing && r == FetchAction::Disconnect
                    && final(self).outcome_of() == Some(
                    Err::<Vec<ServiceInfo>, ServiceReceiveError>(
                        ServiceReceiveError::FetchTimedOut(old(self).timeout_of()),
                    ),
                ),
                (FetchPhase::Closing, FetchEvent::Closed) => final(self).phase_of()
                    == FetchPhase::Finished && r == FetchAction::Finish && final(self).outcome_of()
                    == old(self).outcome_of(),
                _ => r == FetchAction::Ignore,
            },
    {
        match (self.phase, event) {
            (FetchPhase::Connecting, FetchEvent::Connected) => {
                self.phase = FetchPhase::Settling;
                FetchAction::Settle(SETTLE_DELAY_MS)
            },
            (FetchPhase::Connecting, FetchEvent::ConnectFailed(m)) => {
                self.phase = FetchPhase::Finished;
                self.outcome = Some(Err(ServiceReceiveError::ConnectionFailed(m)));
                FetchAction::Finish
            },
            (FetchPhase::Settling, FetchEvent::Settled) => {
                self.phase = FetchPhase::LoggingIn;
                FetchAction::Login(LOGIN_ACK_TIMEOUT_MS)
            },
            (FetchPhase::LoggingIn, FetchEvent::LoginAcked) => {
                self.phase = FetchPhase::AwaitingList;
                FetchAction::AwaitList(self.fetch_timeout_ms)
            },
            (FetchPhase::LoggingIn, FetchEvent::LoginFailed(m)) => {
                self.phase = FetchPhase::Closing;
                self.outcome = Some(Err(ServiceReceiveError::ConnectionFailed(m)));
                FetchAction::Disconnect
            },
            (FetchPhase::AwaitingList, FetchEvent::ListArrived(services)) => {
                self.phase = FetchPhase::Closing;
                self.outcome = Some(Ok(services));
                FetchAction::Disconnect
            },
            (FetchPhase::AwaitingList, FetchEvent::ListUndecodable(m)) => {
                self.phase = FetchPhase::Closing;
                self.outcome = Some(Err(ServiceReceiveError::DecodeFailed(m)));
                FetchAction::Disconnect
            },
            (FetchPhase::AwaitingList, FetchEvent::ListTimedOut) => {
                self.phase = FetchPhase::Closing;
                self.outcome = Some(Err(ServiceReceiveError::FetchTimedOut(self.fetch_timeout_ms)));
                FetchAction::Disconnect
            },
            (FetchPhase::Closing, FetchEvent::Closed) => {
                self.phase = FetchPhase::Finished;
                FetchAction::Finish
            },
            _ => FetchAction::Ignore,
        }
    }

    /// The outcome, once the fetch has finished.
    pub fn into_outcome(self) -> (r: Option<Result<Vec<ServiceInfo>, ServiceReceiveError>>)
        requires
            self.wf(),
        ensures
            r is Some <==> self.phase_of() == FetchPhase::Finished,
            r is Some ==> r == self.outcome_of(),
    {
        if self.phase == FetchPhase::Finished {
            self.outcome
        } else {
            None
        }
    }
}

} // verus!
