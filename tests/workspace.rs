use codex_bridge::workspace::{
    apply_composer_update, apply_workspace_defaults, composer_config_payload,
    format_workspace_label, shell_quote, touch_recent_workspace, NewConversationParams,
    UpdateComposerConfigParams, WorkspaceComposerDefaults,
};
use codex_protocol::config_types::{ReasoningEffort, ReasoningSummary, SandboxMode};
use codex_protocol::protocol::AskForApproval;

#[test]
fn apply_workspace_defaults_prefers_workspace_values_when_missing() {
    let mut options = NewConversationParams::default();
    let defaults = WorkspaceComposerDefaults {
        model: Some("gpt-5-codex".to_string()),
        sandbox: Some(SandboxMode::DangerFullAccess),
        approval: Some(AskForApproval::Never),
        ..Default::default()
    };

    apply_workspace_defaults(&mut options, &defaults);

    assert_eq!(options.model.as_deref(), Some("gpt-5-codex"));
    assert_eq!(options.sandbox, Some(SandboxMode::DangerFullAccess));
    assert_eq!(options.approval_policy, Some(AskForApproval::Never));
}

#[test]
fn apply_workspace_defaults_does_not_override_explicit_options() {
    let mut options = NewConversationParams {
        model: Some("custom-model".to_string()),
        sandbox: Some(SandboxMode::WorkspaceWrite),
        approval_policy: Some(AskForApproval::OnFailure),
        ..Default::default()
    };

    let defaults = WorkspaceComposerDefaults {
        model: Some("gpt-5".to_string()),
        sandbox: Some(SandboxMode::DangerFullAccess),
        approval: Some(AskForApproval::Never),
        ..Default::default()
    };

    apply_workspace_defaults(&mut options, &defaults);

    assert_eq!(options.model.as_deref(), Some("custom-model"));
    assert_eq!(options.sandbox, Some(SandboxMode::WorkspaceWrite));
    assert_eq!(options.approval_policy, Some(AskForApproval::OnFailure));
}

#[test]
fn defaults_emptiness() {
    assert!(WorkspaceComposerDefaults::default().is_empty());
    let some = WorkspaceComposerDefaults { sandbox: Some(SandboxMode::ReadOnly), ..Default::default() };
    assert!(!some.is_empty());
}

#[test]
fn recent_list_moves_to_front_and_caps() {
    let mut recent: Vec<String> = vec!["/a".to_string(), "/b".to_string(), "/c".to_string()];
    touch_recent_workspace(&mut recent, &"/b".to_string());
    assert_eq!(recent, vec!["/b", "/a", "/c"]);
    touch_recent_workspace(&mut recent, &"/d".to_string());
    assert_eq!(recent, vec!["/d", "/b", "/a", "/c"]);
    let mut long: Vec<String> = (0..10).map(|i| format!("/w{}", i)).collect();
    touch_recent_workspace(&mut long, &"/new".to_string());
    assert_eq!(long.len(), 10);
    assert_eq!(long[0], "/new");
    assert_eq!(long[9], "/w8");
}

#[test]
fn workspace_labels() {
    assert_eq!(format_workspace_label("/Users/me/projects/app"), "app");
    assert_eq!(format_workspace_label("/Users/me/projects/app///"), "app");
    assert_eq!(format_workspace_label("app"), "app");
    assert_eq!(format_workspace_label("/"), "Workspace");
    assert_eq!(format_workspace_label(""), "Workspace");
}

#[test]
fn shell_quoting() {
    assert_eq!(shell_quote("/repo"), "'/repo'");
    assert_eq!(shell_quote("it's"), "'it'\\''s'");
    assert_eq!(shell_quote(""), "''");
}

#[test]
fn composer_payload_falls_back_to_runtime_summary() {
    let defaults = WorkspaceComposerDefaults {
        model: Some("gpt-5".to_string()),
        reasoning_effort: Some(ReasoningEffort::High),
        ..Default::default()
    };
    let payload = composer_config_payload(&defaults, ReasoningSummary::Concise);
    assert_eq!(payload.model.as_deref(), Some("gpt-5"));
    assert_eq!(payload.reasoning_effort, Some(ReasoningEffort::High));
    assert_eq!(payload.summary, Some(ReasoningSummary::Concise));
    assert_eq!(payload.sandbox, None);
    let stored = WorkspaceComposerDefaults {
        reasoning_summary: Some(ReasoningSummary::Detailed),
        ..Default::default()
    };
    assert_eq!(
        composer_config_payload(&stored, ReasoningSummary::Concise).summary,
        Some(ReasoningSummary::Detailed)
    );
}

#[test]
fn composer_update_merges_set_values() {
    let defaults = WorkspaceComposerDefaults {
        model: Some("gpt-5".to_string()),
        sandbox: Some(SandboxMode::ReadOnly),
        ..Default::default()
    };
    let nothing = UpdateComposerConfigParams {
        workspace_path: "/repo".to_string(),
        conversation_id: "c".to_string(),
        model: None,
        reasoning_effort: None,
        summary: None,
        sandbox: None,
        approval: None,
    };
    assert_eq!(apply_composer_update(&defaults, &nothing), None);
    let some = UpdateComposerConfigParams {
        sandbox: Some(SandboxMode::WorkspaceWrite),
        approval: Some(AskForApproval::Never),
        ..nothing
    };
    let merged = apply_composer_update(&defaults, &some).expect("an update");
    assert_eq!(merged.model.as_deref(), Some("gpt-5"));
    assert_eq!(merged.sandbox, Some(SandboxMode::WorkspaceWrite));
    assert_eq!(merged.approval, Some(AskForApproval::Never));
    assert_eq!(merged.reasoning_effort, None);
}
