//! Workspace bookkeeping: the list of recently opened workspaces, per-workspace
//! composer defaults and how they fill in the options of a new conversation,
//! and the labels and shell quoting of workspace paths.
use vstd::prelude::*;
use crate::text::{chars_of, string_from_chars};
use std::collections::HashMap;
use codex_protocol::config_types::{ReasoningEffort, ReasoningSummary, SandboxMode};
use codex_protocol::protocol::AskForApproval;

verus! {

/// codex-protocol's `SandboxMode`, carried as an opaque value.
#[verifier::external_type_specification]
#[verifier::external_body]
pub struct ExSandboxMode(SandboxMode);

/// codex-protocol's `AskForApproval`, carried as an opaque value.
#[verifier::external_type_specification]
#[verifier::external_body]
pub struct ExAskForApproval(AskForApproval);

/// codex-protocol's `ReasoningEffort`, carried as an opaque value.
#[verifier::external_type_specification]
#[verifier::external_body]
pub struct ExReasoningEffort(ReasoningEffort);

/// codex-protocol's `ReasoningSummary`, carried as an opaque value.
#[verifier::external_type_specification]
#[verifier::external_body]
pub struct ExReasoningSummary(ReasoningSummary);

/// serde_json's `Value`, carried as an opaque value.
#[verifier::external_type_specification]
#[verifier::external_body]
pub struct ExJsonValue(serde_json::Value);

/// Most recently opened workspaces kept.
pub const MAX_RECENT_WORKSPACES: usize = 10;

/// Remembered per-workspace defaults applied to new conversations.
#[derive(Debug, Clone, PartialEq, Default)]
pub struct WorkspaceComposerDefaults {
    pub model: Option<String>,
    pub reasoning_effort: Option<ReasoningEffort>,
    pub reasoning_summary: Option<ReasoningSummary>,
    pub sandbox: Option<SandboxMode>,
    pub approval: Option<AskForApproval>,
}

impl WorkspaceComposerDefaults {
    /// Whether no default is set.
    pub fn is_empty(&self) -> (r: bool)
        ensures
            r == (self.model is None && self.reasoning_effort is None && self.reasoning_summary is None
                && self.sandbox is None && self.approval is None),
    {
        self.model.is_none() && self.reasoning_effort.is_none() && self.reasoning_summary.is_none()
            && self.sandbox.is_none() && self.approval.is_none()
    }
}

/// Options accepted when creating a new conversation.
#[derive(Debug, Clone, PartialEq, Default)]
pub struct NewConversationParams {
    pub model: Option<String>,
    pub profile: Option<String>,
    pub cwd: Option<String>,
    pub approval_policy: Option<AskForApproval>,
    pub sandbox: Option<SandboxMode>,
    pub config: Option<HashMap<String, serde_json::Value>>,
    pub base_instructions: Option<String>,
    pub include_apply_patch_tool: Option<bool>,
}

/// `explicit` where it is set, else `fallback`.
pub open spec fn or_default<T>(explicit: Option<T>, fallback: Option<T>) -> Option<T> {
    if explicit is Some {
        explicit
    } else {
        fallback
    }
}

/// Fills the model, sandbox mode and approval policy that `options` leaves
/// unset from the workspace's defaults; explicit options are kept.
pub fn apply_workspace_defaults(options: &mut NewConversationParams, defaults: &WorkspaceComposerDefaults)
    ensures
        *final(options) == (NewConversationParams {
            model: or_default(old(options).model, defaults.model),
            sandbox: or_default(old(options).sandbox, defaults.sandbox),
            approval_policy: or_default(old(options).approval_policy, defaults.approval),
            ..*old(options)
        }),
{
    if options.model.is_none() {
        options.model = match &defaults.model {
            Some(m) => Some(m.clone()),
            None => None,
        };
    }
    if options.sandbox.is_none() {
        options.sandbox = defaults.sandbox;
    }
    if options.approval_policy.is_none() {
        options.approval_policy = defaults.approval;
    }
}

/// The recent list after opening `path`: `path` first, then the earlier
/// entries other than it, in order, at most `MAX_RECENT_WORKSPACES` in all.
pub open spec fn touched(recent: Seq<String>, path: String) -> Seq<String> {
    let all = seq![path] + recent.filter(|p: String| p@ != path@);
    if all.len() <= MAX_RECENT_WORKSPACES {
        all
    } else {
        all.subrange(0, MAX_RECENT_WORKSPACES as int)
    }
}

/// Moves `path` to the front of the recent list (see `touched`).
pub fn touch_recent_workspace(recent: &mut Vec<String>, path: &String)
    ensures
        final(recent)@ == touched(old(recent)@, *path),
{
    let ghost before = recent@;
    let ghost keep = |p: String| p@ != path@;
    let mut out: Vec<String> = Vec::new();
    out.push(path.clone());
    let mut i: usize = 0;
    while i < recent.len()
        invariant
            before == recent@,
            i <= before.len(),
            keep == (|p: String| p@ != path@),
            out@ == seq![*path] + before.subrange(0, i as int).filter(keep),
        decreases before.len() - i,
    {
        proof {
            assert(before.subrange(0, i + 1) =~= before.subrange(0, i as int).push(before[i as int]));
            before.subrange(0, i as int).lemma_filter_push(before[i as int], keep);
        }
        if recent[i] != *path {
            out.push(recent[i].clone());
        }
        i = i + 1;
        proof {
            assert(out@ =~= seq![*path] + before.subrange(0, i as int).filter(keep));
        }
    }
    assert(before.subrange(0, before.len() as int) =~= before);
    out.truncate(MAX_RECENT_WORKSPACES);
    *recent = out;
}

/// The label of a workspace path in the menu: its last non-empty segment, or
/// `Workspace` where the path is made of slashes alone.
pub open spec fn workspace_label(path: Seq<char>) -> Seq<char> {
    let trimmed = trim_trailing_slashes(path);
    if trimmed.len() == 0 {
        "Workspace"@
    } else {
        last_slash_segment(trimmed)
    }
}

/// `s` without its trailing slashes.
pub open spec fn trim_trailing_slashes(s: Seq<char>) -> Seq<char>
    decreases s.len(),
{
    if s.len() > 0 && s.last() == '/' {
        trim_trailing_slashes(s.drop_last())
    } else {
        s
    }
}

/// The part of `s` after its last slash (all of `s` where it has none).
pub open spec fn last_slash_segment(s: Seq<char>) -> Seq<char>
    decreases s.len(),
{
    if s.len() == 0 || s.last() == '/' {
        Seq::empty()
    } else {
        last_slash_segment(s.drop_last()).push(s.last())
    }
}

/// The label of a workspace path in the menu (see `workspace_label`).
pub fn format_workspace_label(workspace_path: &str) -> (r: String)
    ensures
        r@ == workspace_label(workspace_path@),
{
    let ghost s = workspace_path@;
    let chars = chars_of(workspace_path);
    let mut e: usize = chars.len();
    assert(s.subrange(0, s.len() as int) =~= s);
    while e > 0 && chars[e - 1] == '/'
        invariant
            chars@ == s,
            e <= s.len(),
            trim_trailing_slashes(s.subrange(0, e as int)) == trim_trailing_slashes(s),
        decreases e,
    {
        assert(s.subrange(0, e as int).drop_last() =~= s.subrange(0, e - 1));
        e = e - 1;
    }
    let ghost t = s.subrange(0, e as int);
    assert(trim_trailing_slashes(t) == t);
    if e == 0 {
        return "Workspace".to_string();
    }
    let mut b: usize = e;
    while b > 0 && chars[b - 1] != '/'
        invariant
            chars@ == s,
            b <= e <= s.len(),
            t == s.subrange(0, e as int),
            last_slash_segment(t) == last_slash_segment(s.subrange(0, b as int)) + s.subrange(
                b as int,
                e as int,
            ),
        decreases b,
    {
        assert(s.subrange(0, b as int).drop_last() =~= s.subrange(0, b - 1));
        assert(s.subrange(b - 1, e as int) =~= seq![s[b - 1]] + s.subrange(b as int, e as int));
        assert(last_slash_segment(s.subrange(0, b as int)) == last_slash_segment(s.subrange(0, b - 1)).push(s[b - 1]));
        assert(last_slash_segment(s.subrange(0, b - 1)).push(s[b - 1]) + s.subrange(b as int, e as int)
            =~= last_slash_segment(s.subrange(0, b - 1)) + s.subrange(b - 1, e as int));
        b = b - 1;
    }
    assert(last_slash_segment(s.subrange(0, b as int)) =~= Seq::<char>::empty());
    let mut out: Vec<char> = Vec::new();
    let mut i: usize = b;
    while i < e
        invariant
            chars@ == s,
            b <= i <= e <= s.len(),
            out@ == s.subrange(b as int, i as int),
        decreases e - i,
    {
        out.push(chars[i]);
        i = i + 1;
        assert(out@ =~= s.subrange(b as int, i as int));
    }
    assert(last_slash_segment(t) =~= out@);
    string_from_chars(&out)
}

/// The characters standing for `c` inside a single-quoted shell word: a
/// quote closes the word, is escaped and opens a new one.
pub open spec fn quoted_char(c: char) -> Seq<char> {
    if c == '\'' {
        seq!['\'', '\\', '\'', '\'']
    } else {
        seq![c]
    }
}

/// The characters of `s`, each as `quoted_char` gives it.
pub open spec fn quoted_chars(s: Seq<char>) -> Seq<char>
    decreases s.len(),
{
    if s.len() == 0 {
        Seq::empty()
    } else {
        quoted_chars(s.drop_last()) + quoted_char(s.last())
    }
}

/// `s` as one single-quoted shell word.
pub open spec fn shell_quoted(s: Seq<char>) -> Seq<char> {
    seq!['\''] + quoted_chars(s) + seq!['\'']
}

/// Quotes a path for a POSIX shell (see `shell_quoted`).
pub fn shell_quote(path: &str) -> (r: String)
    ensures
        r@ == shell_quoted(path@),
{
    let ghost s = path@;
    let chars = chars_of(path);
    let mut out: Vec<char> = Vec::new();
    out.push('\'');
    let mut i: usize = 0;
    while i < chars.len()
        invariant
            chars@ == s,
            i <= s.len(),
            out@ == seq!['\''] + quoted_chars(s.subrange(0, i as int)),
        decreases s.len() - i,
    {
        let ch = chars[i];
        assert(s.subrange(0, i + 1).drop_last() =~= s.subrange(0, i as int));
        if ch == '\'' {
            out.push('\'');
            out.push('\\');
            out.push('\'');
            out.push('\'');
        } else {
            out.push(ch);
        }
        i = i + 1;
        assert(out@ =~= seq!['\''] + quoted_chars(s.subrange(0, i as int)));
    }
    out.push('\'');
    assert(s.subrange(0, s.len() as int) =~= s);
    assert(out@ =~= shell_quoted(s));
    string_from_chars(&out)
}

/// Composer configuration of a conversation as shown to the UI.
#[derive(Debug, Clone, PartialEq, Default)]
pub struct ComposerTurnConfigPayload {
    pub model: Option<String>,
    pub reasoning_effort: Option<ReasoningEffort>,
    pub summary: Option<ReasoningSummary>,
    pub sandbox: Option<SandboxMode>,
    pub approval: Option<AskForApproval>,
}

/// Request to change the composer configuration of a workspace.
#[derive(Debug, Clone, PartialEq)]
pub struct UpdateComposerConfigParams {
    pub workspace_path: String,
    pub conversation_id: String,
    pub model: Option<String>,
    pub reasoning_effort: Option<ReasoningEffort>,
    pub summary: Option<ReasoningSummary>,
    pub sandbox: Option<SandboxMode>,
    pub approval: Option<AskForApproval>,
}

fn clone_opt_string(s: &Option<String>) -> (r: Option<String>)
    ensures
        r == *s,
{
    match s {
        Some(v) => Some(v.clone()),
        None => None,
    }
}

/// The composer configuration shown for a workspace: its stored defaults,
/// with `runtime_summary` (the runtime's configured reasoning summary) where
/// no summary is stored.
pub fn composer_config_payload(
    defaults: &WorkspaceComposerDefaults,
    runtime_summary: ReasoningSummary,
) -> (r: ComposerTurnConfigPayload)
    ensures
        r == (ComposerTurnConfigPayload {
            model: defaults.model,
            reasoning_effort: defaults.reasoning_effort,
            summary: or_default(defaults.reasoning_summary, Some(runtime_summary)),
            sandbox: defaults.sandbox,
            approval: defaults.approval,
        }),
{
    ComposerTurnConfigPayload {
        model: clone_opt_string(&defaults.model),
        reasoning_effort: defaults.reasoning_effort,
        summary: match defaults.reasoning_summary {
            Some(summary) => Some(summary),
            None => Some(runtime_summary),
        },
        sandbox: defaults.sandbox,
        approval: defaults.approval,
    }
}

/// The stored defaults after an update: each value the update sets replaces
/// the stored one. `None` where the update sets nothing, so that nothing is
/// to be stored.
pub fn apply_composer_update(
    defaults: &WorkspaceComposerDefaults,
    update: &UpdateComposerConfigParams,
) -> (r: Option<WorkspaceComposerDefaults>)
    ensures
        r is None <==> (update.model is None && update.reasoning_effort is None && update.summary is None
            && update.sandbox is None && update.approval is None),
        r is Some ==> r->Some_0 == (WorkspaceComposerDefaults {
            model: or_default(update.model, defaults.model),
            reasoning_effort: or_default(update.reasoning_effort, defaults.reasoning_effort),
            reasoning_summary: or_default(update.summary, defaults.reasoning_summary),
            sandbox: or_default(update.sandbox, defaults.sandbox),
            approval: or_default(update.approval, defaults.approval),
        }),
{
    if update.model.is_none() && update.reasoning_effort.is_none() && update.summary.is_none()
        && update.sandbox.is_none() && update.approval.is_none() {
        return None;
    }
    Some(
        WorkspaceComposerDefaults {
            model: if update.model.is_some() {
                clone_opt_string(&update.model)
            } else {
                clone_opt_string(&defaults.model)
            },
            reasoning_effort: if update.reasoning_effort.is_some() {
                update.reasoning_effort
            } else {
                defaults.reasoning_effort
            },
            reasoning_summary: if update.summary.is_some() {
                update.summary
            } else {
                defaults.reasoning_summary
            },
            sandbox: if update.sandbox.is_some() {
                update.sandbox
            } else {
                defaults.sandbox
            },
            approval: if update.approval.is_some() {
                update.approval
            } else {
                defaults.approval
            },
        },
    )
}

} // verus!
