//! The device-authorization flow as a state machine. The caller performs
//! each action the machine asks for (a call to the identity provider, a
//! check of the cancellation channel, a sleep) and hands back what came of
//! it as an event; the machine decides what happens next.

use vstd::prelude::*;

use crate::cache::{ClientRegistration, SsoToken, SsoTokenView};
use crate::config::opt_text_view;
use crate::error::Error;
use crate::time::{expiration_after, expiration_after_spec};

verus! {

/// Wall-clock ceiling of the polling loop, in seconds.
pub const POLL_WINDOW_SECS: u64 = 60;

#[derive(Clone, Copy, Debug, PartialEq, Eq, Structural)]
pub enum Phase {
    Unregistered,
    ClientRegistered,
    DeviceCodeIssued,
    Polling,
    TokenIssued,
    UserCancelled,
    TimedOut,
    Failed(Error),
}

/// Where the polling loop stands within one iteration.
#[derive(Clone, Copy, Debug, PartialEq, Eq, Structural)]
pub enum PollStep {
    CheckCancel,
    Exchange,
    Sleep,
}

/// What a non-blocking look at the single-slot cancellation channel found.
#[derive(Clone, Copy, Debug, PartialEq, Eq, Structural)]
pub enum CancelSignal {
    Empty,
    Cancelled,
    Disconnected,
}

#[derive(Clone, Copy, Debug, PartialEq, Eq, Structural)]
pub enum FlowEvent {
    /// Client registration answered with an id and a secret.
    Registered,
    /// Device authorization answered with a verification URI and a device
    /// code; `interval` is the server's polling interval in seconds.
    Authorized { interval: i32 },
    /// The verification URI is in front of the user.
    Presented,
    /// The cancellation channel was looked at.
    Signal(CancelSignal),
    /// The token exchange answered with an access token.
    TokenGranted,
    /// The token exchange failed, as it does until the user has finished.
    TokenPending,
    /// The pause between two attempts is over.
    Woke,
    /// A call failed or its answer lacked a field the flow needs.
    Failed(Error),
}

#[derive(Clone, Copy, Debug, PartialEq, Eq, Structural)]
pub enum FlowAction {
    RegisterClient,
    StartAuthorization,
    Present,
    CheckCancel,
    CreateToken,
    Sleep(u64),
    Finish,
}

#[derive(Clone, Copy, Debug, PartialEq, Eq, Structural)]
pub struct DeviceFlow {
    pub phase: Phase,
    pub step: PollStep,
    /// Seconds between attempts.
    pub interval: u64,
    /// Attempts allowed within the polling window.
    pub budget: u64,
    /// Attempts made so far.
    pub attempts: u64,
}

pub open spec fn is_terminal(p: Phase) -> bool {
    match p {
        Phase::TokenIssued | Phase::UserCancelled | Phase::TimedOut | Phase::Failed(_) => true,
        _ => false,
    }
}

/// Attempts that fit in the polling window at the server's interval; a
/// non-positive interval allows none.
pub open spec fn budget_spec(interval: i32) -> u64 {
    if interval <= 0 {
        0
    } else {
        (POLL_WINDOW_SECS / (interval as u64)) as u64
    }
}

/// The state after one event. Terminal states absorb every event; an event
/// that the current state does not wait for changes nothing.
pub open spec fn next(s: DeviceFlow, e: FlowEvent) -> DeviceFlow {
    if is_terminal(s.phase) {
        s
    } else {
        match e {
            FlowEvent::Failed(err) => DeviceFlow { phase: Phase::Failed(err), ..s },
            FlowEvent::Registered => if s.phase == Phase::Unregistered {
                DeviceFlow { phase: Phase::ClientRegistered, ..s }
            } else {
                s
            },
            FlowEvent::Authorized { interval } => if s.phase == Phase::ClientRegistered {
                DeviceFlow {
                    phase: Phase::DeviceCodeIssued,
                    interval: if interval <= 0 { 0 } else { interval as u64 },
                    budget: budget_spec(interval),
                    attempts: 0,
                    ..s
                }
            } else {
                s
            },
            FlowEvent::Presented => if s.phase == Phase::DeviceCodeIssued {
                if s.budget == 0 {
                    DeviceFlow { phase: Phase::TimedOut, ..s }
                } else {
                    DeviceFlow { phase: Phase::Polling, step: PollStep::CheckCancel, attempts: 0, ..s }
                }
            } else {
                s
            },
            FlowEvent::Signal(sig) => if s.phase == Phase::Polling && s.step == PollStep::CheckCancel {
                match sig {
                    CancelSignal::Empty => DeviceFlow {
                        step: PollStep::Exchange,
                        attempts: (s.attempts + 1) as u64,
                        ..s
                    },
                    CancelSignal::Cancelled => DeviceFlow { phase: Phase::UserCancelled, ..s },
                    CancelSignal::Disconnected => DeviceFlow {
                        phase: Phase::Failed(Error::Disconnected),
                        ..s
                    },
                }
            } else {
                s
            },
            FlowEvent::TokenGranted => if s.phase == Phase::Polling && s.step == PollStep::Exchange {
                DeviceFlow { phase: Phase::TokenIssued, ..s }
            } else {
                s
            },
            FlowEvent::TokenPending => if s.phase == Phase::Polling && s.step == PollStep::Exchange {
                DeviceFlow { step: PollStep::Sleep, ..s }
            } else {
                s
            },
            FlowEvent::Woke => if s.phase == Phase::Polling && s.step == PollStep::Sleep {
                if s.attempts < s.budget {
                    DeviceFlow { step: PollStep::CheckCancel, ..s }
                } else {
                    DeviceFlow { phase: Phase::TimedOut, ..s }
                }
            } else {
                s
            },
        }
    }
}

/// What a state asks the caller to do.
pub open spec fn action_of(s: DeviceFlow) -> FlowAction {
    match s.phase {
        Phase::Unregistered => FlowAction::RegisterClient,
        Phase::ClientRegistered => FlowAction::StartAuthorization,
        Phase::DeviceCodeIssued => FlowAction::Present,
        Phase::Polling => match s.step {
            PollStep::CheckCancel => FlowAction::CheckCancel,
            PollStep::Exchange => FlowAction::CreateToken,
            PollStep::Sleep => FlowAction::Sleep(s.interval),
        },
        _ => FlowAction::Finish,
    }
}

/// The state after a sequence of events.
pub open spec fn run(s: DeviceFlow, evs: Seq<FlowEvent>) -> DeviceFlow
    decreases evs.len(),
{
    if evs.len() == 0 {
        s
    } else {
        run(next(s, evs[0]), evs.drop_first())
    }
}

/// Every look at the cancellation channel finds the signal.
pub open spec fn cancel_pending(evs: Seq<FlowEvent>) -> bool {
    forall|i: int| 0 <= i < evs.len() ==> match #[trigger] evs[i] {
        FlowEvent::Signal(sig) => sig == CancelSignal::Cancelled,
        _ => true,
    }
}

proof fn lemma_cancel_quiet(s: DeviceFlow, evs: Seq<FlowEvent>)
    requires
        (s.phase == Phase::Polling && s.step != PollStep::Exchange) || (is_terminal(s.phase)
            && s.phase != Phase::TokenIssued),
        cancel_pending(evs),
    ensures
        run(s, evs).attempts == s.attempts,
        run(s, evs).phase != Phase::TokenIssued,
    decreases evs.len(),
{
    if evs.len() > 0 {
        let t = next(s, evs[0]);
        assert(cancel_pending(evs.drop_first())) by {
            assert forall|i: int| 0 <= i < evs.drop_first().len() implies match #[trigger] evs.drop_first()[i] {
                FlowEvent::Signal(sig) => sig == CancelSignal::Cancelled,
                _ => true,
            } by {
                assert(evs.drop_first()[i] == evs[i + 1]);
            }
        }
        assert(match evs[0] {
            FlowEvent::Signal(sig) => sig == CancelSignal::Cancelled,
            _ => true,
        });
        lemma_cancel_quiet(t, evs.drop_first());
    }
}

/// Once the user's cancellation is waiting in the channel during polling,
/// the flow starts no further token exchange (its count of attempts stays
/// as it is), and it can end with a token only through the exchange that
/// was already in flight.
pub proof fn lemma_cancel_stops_polling(s: DeviceFlow, evs: Seq<FlowEvent>)
    requires
        s.phase == Phase::Polling,
        cancel_pending(evs),
    ensures
        run(s, evs).attempts == s.attempts,
        run(s, evs).phase == Phase::TokenIssued ==> s.step == PollStep::Exchange,
    decreases evs.len(),
{
    if s.step != PollStep::Exchange {
        lemma_cancel_quiet(s, evs);
    } else if evs.len() > 0 {
        let t = next(s, evs[0]);
        assert(cancel_pending(evs.drop_first())) by {
            assert forall|i: int| 0 <= i < evs.drop_first().len() implies match #[trigger] evs.drop_first()[i] {
                FlowEvent::Signal(sig) => sig == CancelSignal::Cancelled,
                _ => true,
            } by {
                assert(evs.drop_first()[i] == evs[i + 1]);
            }
        }
        if t.phase == Phase::TokenIssued {
            lemma_terminal_stays(t, evs.drop_first());
        } else if t.phase == Phase::Polling && t.step == PollStep::Exchange {
            lemma_cancel_stops_polling(t, evs.drop_first());
        } else {
            lemma_cancel_quiet(t, evs.drop_first());
        }
    }
}

/// A flow that looks at the channel and finds the cancellation ends as
/// cancelled, whatever comes after.
pub proof fn lemma_cancel_ends_flow(s: DeviceFlow, evs: Seq<FlowEvent>)
    requires
        s.phase == Phase::Polling,
        s.step == PollStep::CheckCancel,
        evs.len() > 0,
        evs[0] == FlowEvent::Signal(CancelSignal::Cancelled),
    ensures
        run(s, evs).phase == Phase::UserCancelled,
        run(s, evs).attempts == s.attempts,
{
    lemma_terminal_stays(next(s, evs[0]), evs.drop_first());
}

/// A finished flow stays as it is and asks for nothing more.
pub proof fn lemma_terminal_stays(s: DeviceFlow, evs: Seq<FlowEvent>)
    requires
        is_terminal(s.phase),
    ensures
        run(s, evs) == s,
    decreases evs.len(),
{
    if evs.len() > 0 {
        lemma_terminal_stays(next(s, evs[0]), evs.drop_first());
    }
}

impl DeviceFlow {
    /// The bounds the machine keeps: at most as many attempts as the budget,
    /// an attempt left whenever it is about to look at the channel, and a
    /// budget that fits in the polling window.
    pub open spec fn wf(&self) -> bool {
        &&& self.attempts <= self.budget
        &&& self.budget <= POLL_WINDOW_SECS
        &&& (self.phase == Phase::Polling && self.step == PollStep::CheckCancel) ==> self.attempts
            < self.budget
    }

    /// A flow that has not registered a client yet.
    pub fn new() -> (r: DeviceFlow)
        ensures
            r.phase == Phase::Unregistered,
            r.wf(),
    {
        DeviceFlow { phase: Phase::Unregistered, step: PollStep::CheckCancel, interval: 0, budget: 0, attempts: 0 }
    }

    /// What the flow asks the caller to do now.
    pub fn action(&self) -> (r: FlowAction)
        ensures
            r == action_of(*self),
    {
        match self.phase {
            Phase::Unregistered => FlowAction::RegisterClient,
            Phase::ClientRegistered => FlowAction::StartAuthorization,
            Phase::DeviceCodeIssued => FlowAction::Present,
            Phase::Polling => match self.step {
                PollStep::CheckCancel => FlowAction::CheckCancel,
                PollStep::Exchange => FlowAction::CreateToken,
                PollStep::Sleep => FlowAction::Sleep(self.interval),
            },
            _ => FlowAction::Finish,
        }
    }

    /// Takes one event and returns the next action.
    pub fn step(&mut self, e: FlowEvent) -> (r: FlowAction)
        requires
            old(self).wf(),
        ensures
            *final(self) == next(*old(self), e),
            final(self).wf(),
            r == action_of(*final(self)),
    {
        let s = *self;
        let t = if is_finished(s.phase) {
            s
        } else {
            match e {
                FlowEvent::Failed(err) => DeviceFlow { phase: Phase::Failed(err), ..s },
                FlowEvent::Registered => if s.phase == Phase::Unregistered {
                    DeviceFlow { phase: Phase::ClientRegistered, ..s }
                } else {
                    s
                },
                FlowEvent::Authorized { interval } => if s.phase == Phase::ClientRegistered {
                    DeviceFlow {
                        phase: Phase::DeviceCodeIssued,
                        interval: if interval <= 0 { 0 } else { interval as u64 },
                        budget: poll_budget(interval),
                        attempts: 0,
                        ..s
                    }
                } else {
                    s
                },
                FlowEvent::Presented => if s.phase == Phase::DeviceCodeIssued {
                    if s.budget == 0 {
                        DeviceFlow { phase: Phase::TimedOut, ..s }
                    } else {
                        DeviceFlow { phase: Phase::Polling, step: PollStep::CheckCancel, attempts: 0, ..s }
                    }
                } else {
                    s
                },
                FlowEvent::Signal(sig) => if s.phase == Phase::Polling && s.step == PollStep::CheckCancel {
                    match sig {
                        CancelSignal::Empty => DeviceFlow {
                            step: PollStep::Exchange,
                            attempts: s.attempts + 1,
                            ..s
                        },
                        CancelSignal::Cancelled => DeviceFlow { phase: Phase::UserCancelled, ..s },
                        CancelSignal::Disconnected => DeviceFlow {
                            phase: Phase::Failed(Error::Disconnected),
                            ..s
                        },
                    }
                } else {
                    s
                },
                FlowEvent::TokenGranted => if s.phase == Phase::Polling && s.step == PollStep::Exchange {
                    DeviceFlow { phase: Phase::TokenIssued, ..s }
                } else {
                    s
                },
                FlowEvent::TokenPending => if s.phase == Phase::Polling && s.step == PollStep::Exchange {
                    DeviceFlow { step: PollStep::Sleep, ..s }
                } else {
                    s
                },
                FlowEvent::Woke => if s.phase == Phase::Polling && s.step == PollStep::Sleep {
                    if s.attempts < s.budget {
                        DeviceFlow { step: PollStep::CheckCancel, ..s }
                    } else {
                        DeviceFlow { phase: Phase::TimedOut, ..s }
                    }
                } else {
                    s
                },
            }
        };
        *self = t;
        self.action()
    }

    /// How the flow ended: `Ok` with a token issued, the error otherwise;
    /// `None` while it is still running.
    pub fn outcome(&self) -> (r: Option<Result<(), Error>>)
        ensures
            r == match self.phase {
                Phase::TokenIssued => Some(Ok::<(), Error>(())),
                Phase::UserCancelled => Some(Err::<(), Error>(Error::UserCancelled)),
                Phase::TimedOut => Some(Err::<(), Error>(Error::Timeout)),
                Phase::Failed(e) => Some(Err::<(), Error>(e)),
                _ => None::<Result<(), Error>>,
            },
    {
        match self.phase {
            Phase::TokenIssued => Some(Ok(())),
            Phase::UserCancelled => Some(Err(Error::UserCancelled)),
            Phase::TimedOut => Some(Err(Error::Timeout)),
            Phase::Failed(e) => Some(Err(e)),
            _ => None,
        }
    }
}

fn is_finished(p: Phase) -> (r: bool)
    ensures
        r == is_terminal(p),
{
    match p {
        Phase::TokenIssued | Phase::UserCancelled | Phase::TimedOut | Phase::Failed(_) => true,
        _ => false,
    }
}

/// Attempts that fit in the polling window at the server's interval.
pub fn poll_budget(interval: i32) -> (r: u64)
    ensures
        r == budget_spec(interval),
        r <= POLL_WINDOW_SECS,
{
    if interval <= 0 {
        0
    } else {
        POLL_WINDOW_SECS / (interval as u64)
    }
}

/// The client id and secret of a registration; both are needed for the
/// calls that follow.
pub fn client_credentials(reg: &ClientRegistration) -> (r: Result<(String, String), Error>)
    ensures
        match (reg.client_id, reg.client_secret) {
            (None, _) => r == Err::<(String, String), Error>(Error::MissingClientId),
            (Some(_), None) => r == Err::<(String, String), Error>(Error::MissingClientSecret),
            (Some(i), Some(s)) => r.is_ok() && r.unwrap().0@ == i@ && r.unwrap().1@ == s@,
        },
{
    match (&reg.client_id, &reg.client_secret) {
        (None, _) => Err(Error::MissingClientId),
        (Some(_), None) => Err(Error::MissingClientSecret),
        (Some(i), Some(s)) => Ok((i.clone(), s.clone())),
    }
}

/// What device authorization returned.
pub struct DeviceAuthorization {
    pub verification_uri_complete: Option<String>,
    pub device_code: Option<String>,
    pub interval: i32,
}

/// The verification URI and the device code of an authorization; both are
/// needed to go on.
pub fn authorization_parts(auth: &DeviceAuthorization) -> (r: Result<(String, String), Error>)
    ensures
        match (auth.verification_uri_complete, auth.device_code) {
            (None, _) => r == Err::<(String, String), Error>(Error::MissingVerificationUri),
            (Some(_), None) => r == Err::<(String, String), Error>(Error::MissingDeviceCode),
            (Some(u), Some(d)) => r.is_ok() && r.unwrap().0@ == u@ && r.unwrap().1@ == d@,
        },
{
    match (&auth.verification_uri_complete, &auth.device_code) {
        (None, _) => Err(Error::MissingVerificationUri),
        (Some(_), None) => Err(Error::MissingDeviceCode),
        (Some(u), Some(d)) => Ok((u.clone(), d.clone())),
    }
}

/// The token that a successful exchange yields: it expires `expires_in`
/// seconds after `now` (see `expiration_after`). An answer without an
/// access token is an error.
pub fn token_from_grant(
    access_token: Option<String>,
    refresh_token: Option<String>,
    expires_in: i32,
    now: i64,
) -> (r: Result<SsoToken, Error>)
    ensures
        match access_token {
            None => r == Err::<SsoToken, Error>(Error::MissingAccessToken),
            Some(a) => r.is_ok() && r.unwrap()@ == (SsoTokenView {
                access_token: a@,
                refresh_token: opt_text_view(refresh_token),
                expiration: expiration_after_spec(now, expires_in),
            }),
        },
{
    match access_token {
        None => Err(Error::MissingAccessToken),
        Some(a) => Ok(SsoToken { access_token: a, refresh_token, expiration: expiration_after(now, expires_in) }),
    }
}

} // verus!
