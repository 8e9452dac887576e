use codex_bridge::approvals::{map_decision, resolve_approval, ApprovalKind};
use codex_protocol::protocol::ReviewDecision;

#[test]
fn decisions_by_name() {
    assert_eq!(map_decision("approved", false), Ok(ReviewDecision::Approved));
    assert_eq!(map_decision("approved_for_session", true), Ok(ReviewDecision::ApprovedForSession));
    assert_eq!(
        map_decision("approved_for_session", false),
        Err("approved_for_session is not valid for this approval".to_string())
    );
    assert_eq!(map_decision("abort", true), Ok(ReviewDecision::Abort));
    assert_eq!(map_decision("denied", true), Ok(ReviewDecision::Denied));
    assert_eq!(map_decision("maybe", true), Err("Invalid decision: maybe".to_string()));
}

#[test]
fn approvals_by_type() {
    assert_eq!(
        resolve_approval("exec", "approved_for_session"),
        Ok((ApprovalKind::Exec, ReviewDecision::ApprovedForSession))
    );
    assert_eq!(resolve_approval("patch", "denied"), Ok((ApprovalKind::Patch, ReviewDecision::Denied)));
    assert_eq!(
        resolve_approval("patch", "approved_for_session"),
        Err("approved_for_session is not valid for this approval".to_string())
    );
    assert_eq!(resolve_approval("shell", "approved"), Err("Unknown approval type: shell".to_string()));
}
