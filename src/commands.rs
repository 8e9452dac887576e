//! Plain requests and responses exchanged with the UI.
use vstd::prelude::*;

verus! {

/// Authentication method currently active for the workspace.
#[derive(Debug, Clone, PartialEq, Eq)]
pub enum AuthMode {
    ApiKey,
    ChatGpt,
}

/// Authentication status returned to the UI.
#[derive(Debug, Clone, PartialEq)]
pub struct AuthState {
    pub is_authenticated: bool,
    pub mode: Option<AuthMode>,
    pub email: Option<String>,
    pub plan_type: Option<String>,
    pub requires_auth: bool,
    pub last_error: Option<String>,
}

/// Request for the composer configuration of a conversation.
#[derive(Debug, Clone, PartialEq)]
pub struct GetComposerConfigParams {
    pub workspace_path: String,
    pub conversation_id: String,
}

/// Request for the conversations of a workspace.
#[derive(Debug, Clone, PartialEq, Default)]
pub struct ListConversationsParams {
    pub workspace_path: String,
    pub cursor: Option<String>,
    pub limit: Option<usize>,
    pub model_providers: Option<Vec<String>>,
}

/// Request to load a conversation's history and subscribe to it.
#[derive(Debug, Clone, PartialEq)]
pub struct InitializeConversationParams {
    pub conversation_id: String,
}

/// One user-provided input; a local image is named by its path.
#[derive(Debug, Clone, PartialEq)]
pub enum InputItem {
    Text { text: String },
    Image { image_url: String },
    LocalImage { path: String },
}

/// Request to compact a conversation.
#[derive(Debug, Clone, PartialEq)]
pub struct CompactConversationParams {
    pub conversation_id: String,
}

/// Request to interrupt a conversation.
#[derive(Debug, Clone, PartialEq)]
pub struct InterruptConversationParams {
    pub conversation_id: String,
}

/// Request to subscribe the caller to a conversation's events.
#[derive(Debug, Clone, PartialEq)]
pub struct AddConversationListenerParams {
    pub conversation_id: String,
}

/// Request to remove a subscription.
#[derive(Debug, Clone, PartialEq)]
pub struct RemoveConversationListenerParams {
    pub subscription_id: String,
}

/// Response of the runtime initialisation.
#[derive(Debug, Clone, PartialEq)]
pub struct InitializeResponse {
    pub user_agent: String,
}

/// Request for the runtime state of a conversation.
#[derive(Debug, Clone, PartialEq)]
pub struct LoadInitialRuntimeStateParams {
    pub conversation_id: String,
}

/// Point-in-time runtime metadata of a conversation stream.
#[derive(Debug, Clone, PartialEq, Default)]
pub struct ConversationRuntimeSnapshot {
    pub active_turn_started_at: Option<String>,
    pub context_tokens_in_window: Option<u64>,
    pub max_context_window: Option<u64>,
    pub status_header: Option<String>,
    pub latest_turn_diff: Option<TurnDiffSnapshot>,
}

/// The most recent turn diff emitted by the runtime.
#[derive(Debug, Clone, PartialEq, Default)]
pub struct TurnDiffSnapshot {
    pub event_id: String,
    pub timestamp: String,
    pub unified_diff: String,
    pub turn_number: u32,
}

/// Request naming a workspace directory.
#[derive(Debug, Clone, PartialEq)]
pub struct WorkspacePathParams {
    pub workspace_path: String,
}

/// Request to set the current window's title.
#[derive(Debug, Clone, PartialEq)]
pub struct SetWindowTitleParams {
    pub title: String,
}

} // verus!
