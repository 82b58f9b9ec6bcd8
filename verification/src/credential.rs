//! Credential provisioning: a strictly ordered state machine over SSH key
//! material, the key agent and the host-config file, ending in a verified
//! authenticated link to the remote service.  The machine only decides; the
//! surrounding application performs each side effect and reports what
//! happened as an event.

use vstd::prelude::*;
use crate::text::{contains_seq, contains_substring};

verus! {

/// The diagnostic phrase whose presence in the probe's error output marks a
/// successful authentication handshake.
pub open spec fn auth_success_phrase() -> Seq<char> {
    "You've successfully authenticated"@
}

/// Classify the remote authentication probe.  The tool exits non-zero even
/// on success in this protocol, so success is recognised by the
/// confirmation phrase in the captured error output, never by exit code
/// alone; a zero exit or any other output counts as "not yet authenticated".
pub fn classify_auth_probe(exit_ok: bool, stderr: &str) -> (r: bool)
    ensures
        r == (!exit_ok && contains_seq(stderr@, auth_success_phrase())),
{
    !exit_ok && contains_substring(stderr, "You've successfully authenticated")
}

/// The strictly ordered states of a provisioning session.
#[derive(PartialEq, Eq, Structural, Clone, Copy, Debug)]
pub enum CredentialState {
    Unauthenticated,
    KeyGenerated,
    AgentStarted,
    ConfigWritten,
    KeyExportedPendingPublication,
    Authenticated,
}

/// Position of a state in the fixed order.
pub open spec fn rank(s: CredentialState) -> int {
    match s {
        CredentialState::Unauthenticated => 0,
        CredentialState::KeyGenerated => 1,
        CredentialState::AgentStarted => 2,
        CredentialState::ConfigWritten => 3,
        CredentialState::KeyExportedPendingPublication => 4,
        CredentialState::Authenticated => 5,
    }
}

/// The side effect the application must perform next.
#[derive(PartialEq, Eq, Structural, Clone, Copy, Debug)]
pub enum CredentialAction {
    /// Check for an existing key pair; generate a fresh one only if absent.
    EnsureKey,
    /// Start or attach to the background key agent.
    StartAgent,
    /// Idempotently merge the host-alias block into the host-config file.
    WriteHostConfig,
    /// Export the public key to the shareable sink and open the remote
    /// key-management page.
    ExportKey,
    /// Wait for the user's confirmation, then run the authentication probe.
    AwaitConfirmationAndProbe,
}

/// What the application observed while performing the requested action.
#[derive(PartialEq, Eq, Structural, Clone, Copy, Debug)]
pub enum CredentialEvent {
    /// A usable key pair exists: found on disk, or freshly generated.
    KeyReady { generated: bool },
    KeyGenerationFailed,
    AgentReady,
    /// The agent could not be started; recoverable, the flow goes on.
    AgentFailed,
    ConfigMerged,
    ConfigWriteFailed,
    KeyExported,
    ExportFailed,
    /// The user confirmed publication and the probe reported this result.
    Confirmed { authenticated: bool },
    /// The user cancelled at the suspension point.
    Cancelled,
    /// The bounded wait for confirmation elapsed.
    TimedOut,
}

/// Why a session halted short of `Authenticated`.
#[derive(PartialEq, Eq, Structural, Clone, Copy, Debug)]
pub enum CredentialError {
    /// A fatal step failed in the named state.
    StepFailed { state: CredentialState },
    /// The host-config merge failed; agent-assisted authentication cannot
    /// be guaranteed without it.
    ConfigWrite,
    /// The probe kept failing after publication until the retry budget or
    /// the confirmation wait was exhausted.
    AuthenticationTimeout,
    /// The user cancelled at the suspension point.
    Cancelled,
}

/// What one event did to the session.
#[derive(PartialEq, Eq, Structural, Clone, Copy, Debug)]
pub enum StepStatus {
    /// The machine moved to the next state.
    Progressed,
    /// The machine moved on past a recoverable failure worth reporting.
    ProgressedWithWarning,
    /// The probe failed after publication; `left` retries remain.
    Retry { left: u32 },
    /// The terminal authenticated state was reached.
    Finished,
    /// A fatal failure: the machine halted in its current state.
    Halted { error: CredentialError },
}

/// Mathematical state of a provisioning session.
#[verifier::ext_equal]
pub struct SessionView {
    pub state: CredentialState,
    pub retries_left: u32,
    pub halted: bool,
}

/// The action owed in each state of a live session.
pub open spec fn action_for(state: CredentialState) -> Option<CredentialAction> {
    match state {
        CredentialState::Unauthenticated => Some(CredentialAction::EnsureKey),
        CredentialState::KeyGenerated => Some(CredentialAction::StartAgent),
        CredentialState::AgentStarted => Some(CredentialAction::WriteHostConfig),
        CredentialState::ConfigWritten => Some(CredentialAction::ExportKey),
        CredentialState::KeyExportedPendingPublication => Some(
            CredentialAction::AwaitConfirmationAndProbe,
        ),
        CredentialState::Authenticated => None,
    }
}

/// The events that can answer the action owed in a state.
pub open spec fn event_fits(state: CredentialState, ev: CredentialEvent) -> bool {
    match state {
        CredentialState::Unauthenticated => ev matches CredentialEvent::KeyReady { .. } || ev
            matches CredentialEvent::KeyGenerationFailed,
        CredentialState::KeyGenerated => ev == CredentialEvent::AgentReady || ev
            == CredentialEvent::AgentFailed,
        CredentialState::AgentStarted => ev == CredentialEvent::ConfigMerged || ev
            == CredentialEvent::ConfigWriteFailed,
        CredentialState::ConfigWritten => ev == CredentialEvent::KeyExported || ev
            == CredentialEvent::ExportFailed,
        CredentialState::KeyExportedPendingPublication => ev matches CredentialEvent::Confirmed {
            ..
        } || ev == CredentialEvent::Cancelled || ev == CredentialEvent::TimedOut,
        CredentialState::Authenticated => false,
    }
}

/// The transition relation of the machine: the session after the event, and
/// what the step reported.
pub open spec fn step_spec(v: SessionView, ev: CredentialEvent) -> (SessionView, StepStatus) {
    match ev {
        CredentialEvent::KeyReady { .. } => (
            SessionView { state: CredentialState::KeyGenerated, ..v },
            StepStatus::Progressed,
        ),
        CredentialEvent::KeyGenerationFailed => (
            SessionView { halted: true, ..v },
            StepStatus::Halted {
                error: CredentialError::StepFailed { state: CredentialState::Unauthenticated },
            },
        ),
        CredentialEvent::AgentReady => (
            SessionView { state: CredentialState::AgentStarted, ..v },
            StepStatus::Progressed,
        ),
        CredentialEvent::AgentFailed => (
            SessionView { state: CredentialState::AgentStarted, ..v },
            StepStatus::ProgressedWithWarning,
        ),
        CredentialEvent::ConfigMerged => (
            SessionView { state: CredentialState::ConfigWritten, ..v },
            StepStatus::Progressed,
        ),
        CredentialEvent::ConfigWriteFailed => (
            SessionView { halted: true, ..v },
            StepStatus::Halted { error: CredentialError::ConfigWrite },
        ),
        CredentialEvent::KeyExported => (
            SessionView { state: CredentialState::KeyExportedPendingPublication, ..v },
            StepStatus::Progressed,
        ),
        CredentialEvent::ExportFailed => (
            SessionView { halted: true, ..v },
            StepStatus::Halted {
                error: CredentialError::StepFailed { state: CredentialState::ConfigWritten },
            },
        ),
        CredentialEvent::Confirmed { authenticated } => if authenticated {
            (SessionView { state: CredentialState::Authenticated, ..v }, StepStatus::Finished)
        } else if v.retries_left > 0 {
            (
                SessionView { retries_left: (v.retries_left - 1) as u32, ..v },
                StepStatus::Retry { left: (v.retries_left - 1) as u32 },
            )
        } else {
            (
                SessionView { halted: true, ..v },
                StepStatus::Halted { error: CredentialError::AuthenticationTimeout },
            )
        },
        CredentialEvent::Cancelled => (
            SessionView { halted: true, ..v },
            StepStatus::Halted { error: CredentialError::Cancelled },
        ),
        CredentialEvent::TimedOut => (
            SessionView { halted: true, ..v },
            StepStatus::Halted { error: CredentialError::AuthenticationTimeout },
        ),
    }
}

/// A provisioning session: one current state, a bounded retry budget for
/// the post-publication probe, and a halt flag for fatal failures.
pub struct CredentialProvisioner {
    state: CredentialState,
    retries_left: u32,
    halted: bool,
}

impl View for CredentialProvisioner {
    type V = SessionView;

    closed spec fn view(&self) -> SessionView {
        SessionView { state: self.state, retries_left: self.retries_left, halted: self.halted }
    }
}

impl CredentialProvisioner {
    /// A fresh session, entered after the initial authentication probe
    /// failed.  `retry_budget` bounds how often a failed post-publication
    /// probe is retried before the session gives up.
    pub fn new(retry_budget: u32) -> (r: CredentialProvisioner)
        ensures
            r@ == (SessionView {
                state: CredentialState::Unauthenticated,
                retries_left: retry_budget,
                halted: false,
            }),
    {
        CredentialProvisioner {
            state: CredentialState::Unauthenticated,
            retries_left: retry_budget,
            halted: false,
        }
    }

    /// The current state of the session.
    pub fn state(&self) -> (r: CredentialState)
        ensures
            r == self@.state,
    {
        self.state
    }

    /// Retries left for the post-publication probe.
    pub fn retries_left(&self) -> (r: u32)
        ensures
            r == self@.retries_left,
    {
        self.retries_left
    }

    /// Whether the session halted on a fatal failure.
    pub fn is_halted(&self) -> (r: bool)
        ensures
            r == self@.halted,
    {
        self.halted
    }

    /// The side effect the application must perform next, or nothing when
    /// the session is finished or halted.
    pub fn next_action(&self) -> (r: Option<CredentialAction>)
        ensures
            self@.halted ==> r is None,
            !self@.halted ==> r == action_for(self@.state),
    {
        if self.halted {
            return None;
        }
        match self.state {
            CredentialState::Unauthenticated => Some(CredentialAction::EnsureKey),
            CredentialState::KeyGenerated => Some(CredentialAction::StartAgent),
            CredentialState::AgentStarted => Some(CredentialAction::WriteHostConfig),
            CredentialState::ConfigWritten => Some(CredentialAction::ExportKey),
            CredentialState::KeyExportedPendingPublication => Some(
                CredentialAction::AwaitConfirmationAndProbe,
            ),
            CredentialState::Authenticated => None,
        }
    }

    /// Feed back what the application observed for the owed action.
    pub fn on_event(&mut self, ev: CredentialEvent) -> (r: StepStatus)
        requires
            !old(self)@.halted,
            event_fits(old(self)@.state, ev),
        ensures
            final(self)@ == step_spec(old(self)@, ev).0,
            r == step_spec(old(self)@, ev).1,
    {
        match ev {
            CredentialEvent::KeyReady { .. } => {
                self.state = CredentialState::KeyGenerated;
                StepStatus::Progressed
            },
            CredentialEvent::KeyGenerationFailed => {
                self.halted = true;
                StepStatus::Halted {
                    error: CredentialError::StepFailed {
                        state: CredentialState::Unauthenticated,
                    },
                }
            },
            CredentialEvent::AgentReady => {
                self.state = CredentialState::AgentStarted;
                StepStatus::Progressed
            },
            CredentialEvent::AgentFailed => {
                self.state = CredentialState::AgentStarted;
                StepStatus::ProgressedWithWarning
            },
            CredentialEvent::ConfigMerged => {
                self.state = CredentialState::ConfigWritten;
                StepStatus::Progressed
            },
            CredentialEvent::ConfigWriteFailed => {
                self.halted = true;
                StepStatus::Halted { error: CredentialError::ConfigWrite }
            },
            CredentialEvent::KeyExported => {
                self.state = CredentialState::KeyExportedPendingPublication;
                StepStatus::Progressed
            },
            CredentialEvent::ExportFailed => {
                self.halted = true;
                StepStatus::Halted {
                    error: CredentialError::StepFailed { state: CredentialState::ConfigWritten },
                }
            },
            CredentialEvent::Confirmed { authenticated } => {
                if authenticated {
                    self.state = CredentialState::Authenticated;
                    StepStatus::Finished
                } else if self.retries_left > 0 {
                    self.retries_left = self.retries_left - 1;
                    StepStatus::Retry { left: self.retries_left }
                } else {
                    self.halted = true;
                    StepStatus::Halted { error: CredentialError::AuthenticationTimeout }
                }
            },
            CredentialEvent::Cancelled => {
                self.halted = true;
                StepStatus::Halted { error: CredentialError::Cancelled }
            },
            CredentialEvent::TimedOut => {
                self.halted = true;
                StepStatus::Halted { error: CredentialError::AuthenticationTimeout }
            },
        }
    }
}

/// Credential monotonicity: a session never revisits an earlier state once
/// past it, and never regresses to `Unauthenticated` after a key exists.
/// The only repetition the machine allows is the bounded retry loop at
/// `KeyExportedPendingPublication`, which stays in that state and spends
/// one retry per failed probe.
pub proof fn lemma_credential_monotonic(v: SessionView, ev: CredentialEvent)
    requires
        event_fits(v.state, ev),
    ensures
        rank(step_spec(v, ev).0.state) >= rank(v.state),
        rank(v.state) >= rank(CredentialState::KeyGenerated) ==> step_spec(v, ev).0.state
            != CredentialState::Unauthenticated,
        step_spec(v, ev).0.state == v.state ==> (step_spec(v, ev).0.halted || step_spec(
            v,
            ev,
        ).0.retries_left < v.retries_left),
{
}

} // verus!

