use crate::types::UserToken;
use vstd::prelude::*;

verus! {

/// The delay between two management ticks.
pub const TICK_SECS: u64 = 30;

/// The time between two validations of the credential.
pub const VALIDATION_INTERVAL_SECS: u64 = 300;

/// The validity left below which the credential is refreshed.
pub const REFRESH_MARGIN_SECS: u64 = 600;

/// What ends the authenticated session; the user must sign in again.
#[derive(Debug)]
pub enum AuthError {
    /// The platform no longer accepts the credential.
    ValidationFailed { reason: String },
    /// The refresh token could not be exchanged for a new credential.
    RefreshFailed { reason: String },
    /// The device code expired or the user denied access.
    DeviceFlowFailed { reason: String },
}

/// What happened since the management loop's last action.
#[derive(Debug)]
pub enum ManageEvent {
    /// The tick timer fired; `now` is a monotonic clock reading in seconds.
    Tick { now: u64 },
    /// The answer to a validation: on success, the validity in seconds that
    /// the platform reports left on the credential, where it reports one.
    Validated(Result<Option<u64>, String>),
    /// The answer to a refresh, received at clock reading `at`: the new
    /// credential, or why there is none.
    Refreshed { at: u64, result: Result<UserToken, String> },
    /// The observers have been told of the new credential.
    Notified,
    /// The owning session ended.
    Stop,
}

/// What the management loop does next.
#[derive(Debug)]
pub enum ManageAction {
    /// Sleep this long, then report a tick.
    Sleep { secs: u64 },
    /// Ask the platform whether the credential is still accepted.
    Validate,
    /// Exchange the refresh token for a new credential.
    Refresh,
    /// Tell every registered observer of the new credential.
    Notify(UserToken),
    /// Leave the loop with this error: the session needs a new sign-in.
    Fatal(AuthError),
    /// Leave the loop.
    Stop,
}

/// Where the management loop stands.
#[derive(Debug)]
pub enum ManagePhase {
    /// Waiting for the next tick.
    Idle,
    /// A validation asked for at clock reading `now` is out.
    Validating { now: u64 },
    /// A refresh is out.
    Refreshing,
    /// The new credential is being handed to the observers.
    Notifying,
    /// The loop is over.
    Stopped,
}

/// The state of the credential engine: the credential, the clock reading at
/// which its `expires_in` was read, the last validation, and the loop's phase.
pub struct TokenView {
    pub token: Option<UserToken>,
    pub read_at: u64,
    pub last_validation: u64,
    pub phase: ManagePhase,
}

/// The credential engine: the current credential, and the decisions of the
/// loop that keeps it valid.
pub struct TokenManager {
    token: Option<UserToken>,
    read_at: u64,
    last_validation: u64,
    phase: ManagePhase,
}

impl View for TokenManager {
    type V = TokenView;

    closed spec fn view(&self) -> TokenView {
        TokenView {
            token: self.token,
            read_at: self.read_at,
            last_validation: self.last_validation,
            phase: self.phase,
        }
    }
}

/// The validity left on the held credential at clock reading `now`: what it
/// had when it was read, less the time since; none without a credential.
pub open spec fn expires_in_at(t: TokenView, now: u64) -> u64 {
    match t.token {
        Some(tok) => {
            let elapsed: u64 = if now > t.read_at { (now - t.read_at) as u64 } else { 0 };
            if elapsed >= tok.expires_in { 0 } else { (tok.expires_in - elapsed) as u64 }
        },
        None => 0,
    }
}

/// Whether a validation is due at `now`.
pub open spec fn validation_due(last_validation: u64, now: u64) -> bool {
    now > last_validation && now - last_validation > VALIDATION_INTERVAL_SECS
}

/// The state after a validation at `now` succeeded, the platform reporting
/// `left` seconds of validity where it reports any.
pub open spec fn validated(t: TokenView, now: u64, left: Option<u64>) -> TokenView {
    match (left, t.token) {
        (Some(secs), Some(tok)) => TokenView {
            token: Some(UserToken { expires_in: secs, ..tok }),
            read_at: now,
            last_validation: now,
            ..t
        },
        _ => TokenView { last_validation: now, ..t },
    }
}

/// What follows a successful validation, or a tick that needs none: a refresh
/// where the credential's validity at `now` is below the margin, else sleep.
pub open spec fn after_validation(t: TokenView, now: u64) -> (TokenView, ManageAction) {
    if expires_in_at(t, now) < REFRESH_MARGIN_SECS {
        (TokenView { phase: ManagePhase::Refreshing, ..t }, ManageAction::Refresh)
    } else {
        (TokenView { phase: ManagePhase::Idle, ..t }, ManageAction::Sleep { secs: TICK_SECS })
    }
}

/// One step of the management loop.
pub open spec fn manage_step(t: TokenView, e: ManageEvent) -> (TokenView, ManageAction) {
    match (t.phase, e) {
        (ManagePhase::Stopped, _) => (t, ManageAction::Stop),
        (_, ManageEvent::Stop) => (TokenView { phase: ManagePhase::Stopped, ..t }, ManageAction::Stop),
        (ManagePhase::Idle, ManageEvent::Tick { now }) => {
            if t.token is None {
                (t, ManageAction::Sleep { secs: TICK_SECS })
            } else if validation_due(t.last_validation, now) {
                (TokenView { phase: ManagePhase::Validating { now }, ..t }, ManageAction::Validate)
            } else {
                after_validation(t, now)
            }
        },
        (ManagePhase::Validating { now }, ManageEvent::Validated(Ok(left))) => {
            after_validation(validated(t, now, left), now)
        },
        (ManagePhase::Validating { .. }, ManageEvent::Validated(Err(reason))) => {
            (TokenView { phase: ManagePhase::Stopped, ..t }, ManageAction::Fatal(AuthError::ValidationFailed { reason }))
        },
        (ManagePhase::Refreshing, ManageEvent::Refreshed { at, result: Ok(token) }) => {
            (
                TokenView { token: Some(token), read_at: at, phase: ManagePhase::Notifying, ..t },
                ManageAction::Notify(token),
            )
        },
        (ManagePhase::Refreshing, ManageEvent::Refreshed { result: Err(reason), .. }) => {
            (TokenView { phase: ManagePhase::Stopped, ..t }, ManageAction::Fatal(AuthError::RefreshFailed { reason }))
        },
        (ManagePhase::Notifying, ManageEvent::Notified) => {
            (TokenView { phase: ManagePhase::Idle, ..t }, ManageAction::Sleep { secs: TICK_SECS })
        },
        // An event that does not answer the pending action changes nothing.
        (ManagePhase::Idle, _) => (t, ManageAction::Sleep { secs: TICK_SECS }),
        (ManagePhase::Validating { .. }, _) => (t, ManageAction::Validate),
        (ManagePhase::Refreshing, _) => (t, ManageAction::Refresh),
        (ManagePhase::Notifying, _) => match t.token {
            Some(token) => (t, ManageAction::Notify(token)),
            None => (t, ManageAction::Sleep { secs: TICK_SECS }),
        },
    }
}

/// What the platform said, at startup, of the credential stored by an
/// earlier session.
#[derive(Debug)]
pub enum StoredCredential {
    /// No credential was stored.
    Missing,
    /// The platform accepted the stored credential.
    Accepted(UserToken),
    /// The platform no longer accepts the stored credential.
    Rejected,
}

impl TokenManager {
    /// The manager at startup, at clock reading `now`: it keeps a stored
    /// credential that the platform accepted, and holds none otherwise.
    pub fn at_startup(stored: StoredCredential, now: u64) -> (r: TokenManager)
        ensures
            match stored {
                StoredCredential::Accepted(t) => r@.token == Some(t),
                _ => r@.token is None,
            },
            r@.read_at == now,
            r@.last_validation == now,
            r@.phase == ManagePhase::Idle,
    {
        match stored {
            StoredCredential::Accepted(t) => TokenManager::from_existing(t, now),
            _ => TokenManager::new(now),
        }
    }

    /// Whether the device flow must run to obtain a credential.
    pub fn needs_acquire(&self) -> (r: bool)
        ensures
            r == self@.token is None,
    {
        self.token.is_none()
    }

    /// A manager for an existing credential, read and validated at `now`.
    pub fn from_existing(token: UserToken, now: u64) -> (r: TokenManager)
        ensures
            r@.token == Some(token),
            r@.read_at == now,
            r@.last_validation == now,
            r@.phase == ManagePhase::Idle,
    {
        TokenManager { token: Some(token), read_at: now, last_validation: now, phase: ManagePhase::Idle }
    }

    /// A manager that holds no credential yet.
    pub fn new(now: u64) -> (r: TokenManager)
        ensures
            r@.token is None,
            r@.read_at == now,
            r@.last_validation == now,
            r@.phase == ManagePhase::Idle,
    {
        TokenManager { token: None, read_at: now, last_validation: now, phase: ManagePhase::Idle }
    }

    /// Takes the credential that the device flow produced at `now`.
    pub fn finish_device_code_flow(&mut self, token: UserToken, now: u64)
        ensures
            final(self)@ == (TokenView { token: Some(token), read_at: now, last_validation: now, ..old(self)@ }),
    {
        self.token = Some(token);
        self.read_at = now;
        self.last_validation = now;
    }

    /// Whether the credential is usable, given whether the platform
    /// `accepted` it when last asked: there must be one, and it must have
    /// been accepted.
    pub fn is_token_valid(&self, accepted: bool) -> (r: bool)
        ensures
            r == (self@.token is Some && accepted),
    {
        self.token.is_some() && accepted
    }

    /// A copy of the current credential, if there is one.
    pub fn get_token(&self) -> (r: Option<UserToken>)
        ensures
            r == self@.token,
    {
        match &self.token {
            Some(t) => Some(t.clone()),
            None => None,
        }
    }

    /// The validity left on the credential at clock reading `now`.
    pub fn expires_in(&self, now: u64) -> (r: u64)
        ensures
            r == expires_in_at(self@, now),
    {
        match &self.token {
            Some(tok) => {
                let elapsed: u64 = if now > self.read_at { now - self.read_at } else { 0 };
                if elapsed >= tok.expires_in { 0 } else { tok.expires_in - elapsed }
            },
            None => 0,
        }
    }

    /// The loop's next action after `event`.
    pub fn manage(&mut self, event: ManageEvent) -> (r: ManageAction)
        ensures
            (final(self)@, r) == manage_step(old(self)@, event),
    {
        match (&self.phase, event) {
            (ManagePhase::Stopped, _) => ManageAction::Stop,
            (_, ManageEvent::Stop) => {
                self.phase = ManagePhase::Stopped;
                ManageAction::Stop
            },
            (ManagePhase::Idle, ManageEvent::Tick { now }) => {
                if self.token.is_none() {
                    ManageAction::Sleep { secs: TICK_SECS }
                } else if now > self.last_validation && now - self.last_validation > VALIDATION_INTERVAL_SECS {
                    self.phase = ManagePhase::Validating { now };
                    ManageAction::Validate
                } else {
                    self.after_validation(now)
                }
            },
            (ManagePhase::Validating { now }, ManageEvent::Validated(Ok(left))) => {
                let now = *now;
                self.last_validation = now;
                match (left, &self.token) {
                    (Some(secs), Some(tok)) => {
                        let mut tok = tok.clone();
                        tok.expires_in = secs;
                        self.token = Some(tok);
                        self.read_at = now;
                    },
                    _ => {},
                }
                self.after_validation(now)
            },
            (ManagePhase::Validating { .. }, ManageEvent::Validated(Err(reason))) => {
                self.phase = ManagePhase::Stopped;
                ManageAction::Fatal(AuthError::ValidationFailed { reason })
            },
            (ManagePhase::Refreshing, ManageEvent::Refreshed { at, result: Ok(token) }) => {
                self.token = Some(token.clone());
                self.read_at = at;
                self.phase = ManagePhase::Notifying;
                ManageAction::Notify(token)
            },
            (ManagePhase::Refreshing, ManageEvent::Refreshed { result: Err(reason), .. }) => {
                self.phase = ManagePhase::Stopped;
                ManageAction::Fatal(AuthError::RefreshFailed { reason })
            },
            (ManagePhase::Notifying, ManageEvent::Notified) => {
                self.phase = ManagePhase::Idle;
                ManageAction::Sleep { secs: TICK_SECS }
            },
            (ManagePhase::Idle, _) => ManageAction::Sleep { secs: TICK_SECS },
            (ManagePhase::Validating { .. }, _) => ManageAction::Validate,
            (ManagePhase::Refreshing, _) => ManageAction::Refresh,
            (ManagePhase::Notifying, _) => match self.get_token() {
                Some(token) => ManageAction::Notify(token),
                None => ManageAction::Sleep { secs: TICK_SECS },
            },
        }
    }

    fn after_validation(&mut self, now: u64) -> (r: ManageAction)
        ensures
            (final(self)@, r) == after_validation(old(self)@, now),
    {
        if self.expires_in(now) < REFRESH_MARGIN_SECS {
            self.phase = ManagePhase::Refreshing;
            ManageAction::Refresh
        } else {
            self.phase = ManagePhase::Idle;
            ManageAction::Sleep { secs: TICK_SECS }
        }
    }
}

} // verus!

verus! {

/// A tick that finds the credential below the refresh margin refreshes it
/// exactly once: after a validation where one is due, the tick asks for one
/// refresh; the new credential is stored and handed to the observers; the
/// loop then sleeps, and the next tick reads the validity left on the new
/// credential, so that a fresh credential is not refreshed again.
pub proof fn lemma_refresh_below_margin(
    t: TokenView,
    now: u64,
    left: Option<u64>,
    fresh: UserToken,
    at: u64,
    next_now: u64,
)
    requires
        t.phase == ManagePhase::Idle,
        t.token is Some,
        expires_in_at(
            if validation_due(t.last_validation, now) {
                validated(t, now, left)
            } else {
                t
            },
            now,
        ) < REFRESH_MARGIN_SECS,
    ensures
        ({
            let (t1, a1) = manage_step(t, ManageEvent::Tick { now });
            let (t2, a2) = if validation_due(t.last_validation, now) {
                manage_step(t1, ManageEvent::Validated(Ok(left)))
            } else {
                (t1, a1)
            };
            let (t3, a3) = manage_step(t2, ManageEvent::Refreshed { at, result: Ok(fresh) });
            let (t4, a4) = manage_step(t3, ManageEvent::Notified);
            let (t5, a5) = manage_step(t4, ManageEvent::Tick { now: next_now });
            &&& validation_due(t.last_validation, now) ==> a1 == ManageAction::Validate
            &&& a2 == ManageAction::Refresh
            &&& a3 == ManageAction::Notify(fresh)
            &&& a4 == (ManageAction::Sleep { secs: TICK_SECS })
            &&& t4.phase == ManagePhase::Idle
            &&& t4.token == Some(fresh)
            &&& t4.read_at == at
            &&& (!validation_due(t4.last_validation, next_now) && next_now >= at && next_now - at
                + REFRESH_MARGIN_SECS <= fresh.expires_in) ==> a5 == (ManageAction::Sleep { secs: TICK_SECS })
        }),
{
}

/// A failed validation ends the loop with a fatal authorization error, and
/// the loop acts on nothing after it.
pub proof fn lemma_validation_failure_is_fatal(t: TokenView, now: u64, reason: String, later: ManageEvent)
    requires
        t.phase == ManagePhase::Idle,
        t.token is Some,
        validation_due(t.last_validation, now),
    ensures
        ({
            let (t1, a1) = manage_step(t, ManageEvent::Tick { now });
            let (t2, a2) = manage_step(t1, ManageEvent::Validated(Err(reason)));
            let (t3, a3) = manage_step(t2, later);
            &&& a1 == ManageAction::Validate
            &&& a2 == ManageAction::Fatal(AuthError::ValidationFailed { reason })
            &&& t2.phase == ManagePhase::Stopped
            &&& a3 == ManageAction::Stop
            &&& t3 == t2
        }),
{
}

} // verus!
