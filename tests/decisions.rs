use ollisten::config::agents::{agent_file_name, is_agent_file, within_agent_file_limit};
use ollisten::config::manage_config::{classify_change, event_type_name, reads_content, ChangeKind, EventType};
use ollisten::llm::ollama::{
    startup_begin, startup_step, OllamaStatus, StartupAction, StartupEvent, StartupPhase, MAX_RETRIES,
};
use ollisten::llm::types::LlmModel;

#[test]
fn agent_files_are_yaml() {
    assert!(is_agent_file("/home/me/.localecho/agent/helper.yaml"));
    assert!(is_agent_file("helper.yml"));
    assert!(!is_agent_file("helper.yaml.bak"));
    assert!(!is_agent_file("helper.YAML"));
    assert!(!is_agent_file("yaml"));
    assert!(!is_agent_file(".yaml"));
    assert!(is_agent_file(".hidden.yaml"));
    assert!(!is_agent_file("helper."));
}

#[test]
fn agent_file_limit_and_name() {
    assert!(within_agent_file_limit(1_048_576));
    assert!(!within_agent_file_limit(1_048_577));
    assert_eq!(agent_file_name("helper"), "helper.yaml");
}

#[test]
fn changes_map_to_events() {
    assert_eq!(classify_change(ChangeKind::Create), Some(EventType::FileAgentCreated));
    assert_eq!(classify_change(ChangeKind::Modify), Some(EventType::FileAgentModified));
    assert_eq!(classify_change(ChangeKind::Remove), Some(EventType::FileAgentDeleted));
    assert_eq!(classify_change(ChangeKind::Other), None);
    assert!(reads_content(ChangeKind::Create));
    assert!(reads_content(ChangeKind::Modify));
    assert!(!reads_content(ChangeKind::Remove));
    assert_eq!(event_type_name(EventType::FileAgentDeleted), "file-agent-deleted");
    assert_eq!(event_type_name(EventType::FileAgentCreated), "file-agent-created");
}

fn model(name: &str) -> LlmModel {
    LlmModel { name: name.to_string(), description: "(1.00GB)".to_string() }
}

#[test]
fn startup_running_at_once() {
    let (phase, action) = startup_begin();
    assert!(matches!(action, StartupAction::ListModels));
    let (_, action) = startup_step(phase, StartupEvent::Listed(vec![model("llama3")]));
    match action {
        StartupAction::Finish(m) => {
            assert_eq!(m.status, OllamaStatus::Running);
            assert_eq!(m.models.len(), 1);
            assert_eq!(m.models[0].name, "llama3");
        }
        other => panic!("unexpected {:?}", other),
    }
}

#[test]
fn startup_missing_server() {
    let (phase, _) = startup_begin();
    let (phase, action) = startup_step(phase, StartupEvent::ListFailed);
    assert_eq!(phase, StartupPhase::InstallCheck);
    assert!(matches!(action, StartupAction::CheckInstalled));
    let (_, action) = startup_step(phase, StartupEvent::Installed(false));
    match action {
        StartupAction::Finish(m) => {
            assert_eq!(m.status, OllamaStatus::Missing);
            assert!(m.models.is_empty());
        }
        other => panic!("unexpected {:?}", other),
    }
}

#[test]
fn startup_failed_start() {
    let (phase, _) = startup_step(StartupPhase::InstallCheck, StartupEvent::Installed(true));
    assert_eq!(phase, StartupPhase::ServeStart);
    let (_, action) = startup_step(phase, StartupEvent::ServeFailed("not found".to_string()));
    match action {
        StartupAction::Fail(m) => assert_eq!(m, "Error starting Ollama: not found"),
        other => panic!("unexpected {:?}", other),
    }
}

#[test]
fn startup_gives_up_after_retries() {
    let (mut phase, action) = startup_step(StartupPhase::ServeStart, StartupEvent::ServeStarted);
    assert!(matches!(action, StartupAction::ListModels));
    let mut failures = 0;
    loop {
        let (next, action) = startup_step(phase, StartupEvent::ListFailed);
        failures += 1;
        match action {
            StartupAction::WaitThenListModels => phase = next,
            StartupAction::Finish(m) => {
                assert_eq!(m.status, OllamaStatus::Stopped);
                break;
            }
            other => panic!("unexpected {:?}", other),
        }
    }
    assert_eq!(failures, MAX_RETRIES + 1);
}

#[test]
fn startup_ignores_unexpected_events() {
    let (phase, action) = startup_step(StartupPhase::ServeStart, StartupEvent::ListFailed);
    assert_eq!(phase, StartupPhase::ServeStart);
    assert!(matches!(action, StartupAction::StartServe));
    let (phase, action) = startup_step(StartupPhase::Polling { failures: 3 }, StartupEvent::Installed(true));
    assert_eq!(phase, StartupPhase::Polling { failures: 3 });
    assert!(matches!(action, StartupAction::ListModels));
}
