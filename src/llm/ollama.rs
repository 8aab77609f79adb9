//! Local models served by Ollama.
use crate::llm::types::LlmModel;
use vstd::prelude::*;
use vstd::string::StringExecFns;

verus! {

/// The model a conversation goes to.
#[derive(Clone, Debug)]
pub struct OllamaConfig {
    pub model_name: String,
}

/// Whether the Ollama server answers, is installed but not answering, or is
/// not installed.
#[derive(Clone, Copy, Debug, PartialEq, Eq)]
pub enum OllamaStatus {
    Running,
    Stopped,
    Missing,
}

/// The local models, and the server's status.
#[derive(Clone, Debug)]
pub struct OllamaLlmModels {
    pub models: Vec<LlmModel>,
    pub status: OllamaStatus,
}

/// How many listings may fail after the server was started before it is
/// reported as stopped; listings are a second apart.
pub const MAX_RETRIES: u32 = 60;

/// The prefix of the message of a server that could not be started.
pub const START_FAILED: &'static str = "Error starting Ollama: ";

/// What the start-up of the model listing waits for.
#[derive(Clone, Copy, Debug, PartialEq, Eq)]
pub enum StartupPhase {
    /// The first listing, before anything was started.
    FirstListing,
    /// Whether the server is installed.
    InstallCheck,
    /// The server's start.
    ServeStart,
    /// A listing after the start, `failures` listings having failed since.
    Polling { failures: u32 },
}

/// What the caller observed.
#[derive(Clone, Debug)]
pub enum StartupEvent {
    Listed(Vec<LlmModel>),
    ListFailed,
    Installed(bool),
    ServeStarted,
    ServeFailed(String),
}

/// What the caller does next.
#[derive(Clone, Debug)]
pub enum StartupAction {
    ListModels,
    CheckInstalled,
    StartServe,
    /// Wait a second, then list the models.
    WaitThenListModels,
    Finish(OllamaLlmModels),
    Fail(String),
}

/// The action that a phase waits on.
pub open spec fn awaited(phase: StartupPhase) -> StartupAction {
    match phase {
        StartupPhase::FirstListing => StartupAction::ListModels,
        StartupPhase::InstallCheck => StartupAction::CheckInstalled,
        StartupPhase::ServeStart => StartupAction::StartServe,
        StartupPhase::Polling { .. } => StartupAction::ListModels,
    }
}

/// Where the start-up begins: with a listing.
pub fn startup_begin() -> (r: (StartupPhase, StartupAction))
    ensures
        r == (StartupPhase::FirstListing, StartupAction::ListModels),
{
    (StartupPhase::FirstListing, StartupAction::ListModels)
}

fn no_models(status: OllamaStatus) -> (r: StartupAction)
    ensures
        r matches StartupAction::Finish(m) && m.models@.len() == 0 && m.status == status,
{
    StartupAction::Finish(OllamaLlmModels { models: Vec::new(), status })
}

/// One decision of the start-up. A listing that succeeds finishes with the
/// server running. A first listing that fails leads to the install check; a
/// server that is not installed is reported missing, one that is gets
/// started, and a failed start is an error. After the start, listings are
/// retried a second apart; once `MAX_RETRIES` of them have failed, the next
/// failure reports the server stopped. An event that the phase does not wait
/// for changes nothing and asks again for what it waits on.
pub fn startup_step(phase: StartupPhase, event: StartupEvent) -> (r: (StartupPhase, StartupAction))
    ensures
        match (phase, event) {
            (StartupPhase::FirstListing, StartupEvent::Listed(models)) => r.1 == StartupAction::Finish(
                OllamaLlmModels { models, status: OllamaStatus::Running },
            ),
            (StartupPhase::Polling { .. }, StartupEvent::Listed(models)) => r.1
                == StartupAction::Finish(OllamaLlmModels { models, status: OllamaStatus::Running }),
            (StartupPhase::FirstListing, StartupEvent::ListFailed) => r == (
                StartupPhase::InstallCheck,
                StartupAction::CheckInstalled,
            ),
            (StartupPhase::InstallCheck, StartupEvent::Installed(false)) => r.1 matches StartupAction::Finish(
                m,
            ) && m.models@.len() == 0 && m.status == OllamaStatus::Missing,
            (StartupPhase::InstallCheck, StartupEvent::Installed(true)) => r == (
                StartupPhase::ServeStart,
                StartupAction::StartServe,
            ),
            (StartupPhase::ServeStart, StartupEvent::ServeStarted) => r == (
                StartupPhase::Polling { failures: 0 },
                StartupAction::ListModels,
            ),
            (StartupPhase::ServeStart, StartupEvent::ServeFailed(e)) => r.1 matches StartupAction::Fail(
                m,
            ) && m@ == START_FAILED@ + e@,
            (StartupPhase::Polling { failures }, StartupEvent::ListFailed) => if failures
                >= MAX_RETRIES {
                r.1 matches StartupAction::Finish(m) && m.models@.len() == 0 && m.status
                    == OllamaStatus::Stopped
            } else {
                r == (StartupPhase::Polling { failures: (failures + 1) as u32 }, StartupAction::WaitThenListModels)
            },
            _ => r == (phase, awaited(phase)),
        },
{
    match (phase, event) {
        (StartupPhase::FirstListing, StartupEvent::Listed(models)) => (
            phase,
            StartupAction::Finish(OllamaLlmModels { models, status: OllamaStatus::Running }),
        ),
        (StartupPhase::Polling { .. }, StartupEvent::Listed(models)) => (
            phase,
            StartupAction::Finish(OllamaLlmModels { models, status: OllamaStatus::Running }),
        ),
        (StartupPhase::FirstListing, StartupEvent::ListFailed) => (
            StartupPhase::InstallCheck,
            StartupAction::CheckInstalled,
        ),
        (StartupPhase::InstallCheck, StartupEvent::Installed(installed)) => {
            if installed {
                (StartupPhase::ServeStart, StartupAction::StartServe)
            } else {
                (phase, no_models(OllamaStatus::Missing))
            }
        },
        (StartupPhase::ServeStart, StartupEvent::ServeStarted) => (
            StartupPhase::Polling { failures: 0 },
            StartupAction::ListModels,
        ),
        (StartupPhase::ServeStart, StartupEvent::ServeFailed(e)) => {
            let mut message = START_FAILED.to_owned();
            message.append(e.as_str());
            (phase, StartupAction::Fail(message))
        },
        (StartupPhase::Polling { failures }, StartupEvent::ListFailed) => {
            if failures >= MAX_RETRIES {
                (phase, no_models(OllamaStatus::Stopped))
            } else {
                (StartupPhase::Polling { failures: failures + 1 }, StartupAction::WaitThenListModels)
            }
        },
        (StartupPhase::FirstListing, _) => (phase, StartupAction::ListModels),
        (StartupPhase::InstallCheck, _) => (phase, StartupAction::CheckInstalled),
        (StartupPhase::ServeStart, _) => (phase, StartupAction::StartServe),
        (StartupPhase::Polling { .. }, _) => (phase, StartupAction::ListModels),
    }
}

} // verus!
