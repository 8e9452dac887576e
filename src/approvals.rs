//! Answers to approval requests: which request an answer is for, and the
//! decision it carries.
use vstd::prelude::*;
use codex_protocol::protocol::ReviewDecision;

verus! {

/// codex-protocol's `ReviewDecision`, whose variants carry no data.
#[verifier::external_type_specification]
pub struct ExReviewDecision(ReviewDecision);

/// The kind of request an approval answers.
#[derive(Debug, Clone, Copy, PartialEq, Eq)]
pub enum ApprovalKind {
    /// Running a command.
    Exec,
    /// Applying a patch.
    Patch,
}

/// The decision named `decision`, where `allow_session` tells whether an
/// approval for the whole session may be given; the error message otherwise.
pub open spec fn decision_of(decision: Seq<char>, allow_session: bool) -> Result<ReviewDecision, Seq<char>> {
    if decision == "approved"@ {
        Ok(ReviewDecision::Approved)
    } else if decision == "approved_for_session"@ {
        if allow_session {
            Ok(ReviewDecision::ApprovedForSession)
        } else {
            Err("approved_for_session is not valid for this approval"@)
        }
    } else if decision == "abort"@ {
        Ok(ReviewDecision::Abort)
    } else if decision == "denied"@ {
        Ok(ReviewDecision::Denied)
    } else {
        Err("Invalid decision: "@ + decision)
    }
}

/// The view of a result whose error is a message.
pub open spec fn result_view<T>(r: Result<T, String>) -> Result<T, Seq<char>> {
    match r {
        Ok(v) => Ok(v),
        Err(m) => Err(m@),
    }
}

/// Maps a decision name to the decision (see `decision_of`).
pub fn map_decision(decision: &str, allow_session: bool) -> (r: Result<ReviewDecision, String>)
    ensures
        result_view(r) == decision_of(decision@, allow_session),
{
    let d = decision.to_string();
    if d == "approved".to_string() {
        Ok(ReviewDecision::Approved)
    } else if d == "approved_for_session".to_string() {
        if allow_session {
            Ok(ReviewDecision::ApprovedForSession)
        } else {
            Err("approved_for_session is not valid for this approval".to_string())
        }
    } else if d == "abort".to_string() {
        Ok(ReviewDecision::Abort)
    } else if d == "denied".to_string() {
        Ok(ReviewDecision::Denied)
    } else {
        let mut message = "Invalid decision: ".to_string();
        message.append(decision);
        Err(message)
    }
}

/// The request kind an approval type names, with the decision it carries: a
/// session-wide approval is valid for commands only.
pub open spec fn approval_of(approval_type: Seq<char>, decision: Seq<char>) -> Result<
    (ApprovalKind, ReviewDecision),
    Seq<char>,
> {
    if approval_type == "exec"@ {
        match decision_of(decision, true) {
            Ok(d) => Ok((ApprovalKind::Exec, d)),
            Err(m) => Err(m),
        }
    } else if approval_type == "patch"@ {
        match decision_of(decision, false) {
            Ok(d) => Ok((ApprovalKind::Patch, d)),
            Err(m) => Err(m),
        }
    } else {
        Err("Unknown approval type: "@ + approval_type)
    }
}

/// Resolves an answer to an approval request (see `approval_of`).
pub fn resolve_approval(approval_type: &str, decision: &str) -> (r: Result<(ApprovalKind, ReviewDecision), String>)
    ensures
        result_view(r) == approval_of(approval_type@, decision@),
{
    let t = approval_type.to_string();
    if t == "exec".to_string() {
        match map_decision(decision, true) {
            Ok(d) => Ok((ApprovalKind::Exec, d)),
            Err(m) => Err(m),
        }
    } else if t == "patch".to_string() {
        match map_decision(decision, false) {
            Ok(d) => Ok((ApprovalKind::Patch, d)),
            Err(m) => Err(m),
        }
    } else {
        let mut message = "Unknown approval type: ".to_string();
        message.append(approval_type);
        Err(message)
    }
}

} // verus!
