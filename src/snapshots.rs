//! Per-conversation snapshot bookkeeping: a base snapshot taken once, and one
//! snapshot per turn, captured by an outside primitive while no lock is held.
//!
//! Each capturing operation is split in two. The first half runs under the
//! caller's lock, checks and flips the sentinel fields, and says whether a
//! capture must be made and against which directory. The caller then makes
//! the capture with the lock released, takes the lock again and hands the
//! outcome to the second half, which commits it.
use vstd::prelude::*;
use crate::keyed::{
    distinct_keys, distinct_strings, insert_string, lemma_pair_map_at, lookup, pair_map,
    remove_string, string_set, upsert,
};

verus! {

/// Why a snapshot operation did not succeed.
#[derive(Debug, Clone, PartialEq, Eq)]
pub enum SnapshotError {
    /// A capture failed earlier; snapshotting stays off for the conversation.
    Disabled,
    /// A turn snapshot was asked for before any base snapshot exists.
    BaseUnavailable,
    /// The outside snapshot primitive failed, with its message.
    CreationFailed(String),
}

/// First half of `ensure_base`.
#[derive(Debug)]
pub enum BaseStep {
    /// Nothing is to be captured; this is the call's result.
    Done(Result<(), SnapshotError>),
    /// A base snapshot of this directory is to be captured, then handed to
    /// `complete_base`.
    Capture(String),
}

/// First half of `record_turn_snapshot`.
#[derive(Debug)]
pub enum TurnStep {
    /// Nothing is to be captured; this is the call's result.
    Done(Result<Option<String>, SnapshotError>),
    /// A snapshot of this directory is to be captured, then handed to
    /// `complete_turn_snapshot`.
    Capture(String),
}

/// The state of one conversation's snapshots, as values.
pub struct SnapshotView {
    pub cwd: Seq<char>,
    pub base_commit: Option<Seq<char>>,
    pub disabled: bool,
    pub capturing_base: bool,
    pub inflight_turns: Set<Seq<char>>,
    pub turn_commits: Map<Seq<char>, Seq<char>>,
}

/// The view of an outcome of the snapshot primitive.
pub open spec fn outcome_view(outcome: Result<String, String>) -> Result<Seq<char>, Seq<char>> {
    match outcome {
        Ok(c) => Ok(c@),
        Err(m) => Err(m@),
    }
}

/// The view of an optional string.
pub open spec fn opt_view(o: Option<String>) -> Option<Seq<char>> {
    match o {
        Some(s) => Some(s@),
        None => None,
    }
}

impl SnapshotView {
    /// `ensure_base` starts a capture from this state.
    pub open spec fn base_captures(self) -> bool {
        !self.disabled && self.base_commit is None && !self.capturing_base
    }

    /// What `ensure_base` returns from this state when it starts no capture.
    pub open spec fn base_result(self) -> Result<(), SnapshotError> {
        if self.disabled {
            Err(SnapshotError::Disabled)
        } else {
            Ok(())
        }
    }

    /// The state after the first half of `ensure_base`.
    pub open spec fn after_ensure_base(self) -> SnapshotView {
        if self.base_captures() {
            SnapshotView { capturing_base: true, ..self }
        } else {
            self
        }
    }

    /// The state after a base capture came back with `outcome`: the first
    /// commit stored wins, a failure disables snapshotting.
    pub open spec fn after_base_capture(self, outcome: Result<Seq<char>, Seq<char>>) -> SnapshotView {
        match outcome {
            Ok(c) => SnapshotView {
                capturing_base: false,
                base_commit: if self.base_commit is Some {
                    self.base_commit
                } else {
                    Some(c)
                },
                ..self
            },
            Err(_) => SnapshotView { capturing_base: false, disabled: true, ..self },
        }
    }

    /// `record_turn_snapshot` for `event_id` starts a capture from this state.
    pub open spec fn turn_captures(self, event_id: Seq<char>) -> bool {
        !self.disabled && self.base_commit is Some && !self.inflight_turns.contains(event_id)
    }

    /// What `record_turn_snapshot` returns from this state when it starts no
    /// capture.
    pub open spec fn turn_result(self) -> Result<Option<String>, SnapshotError> {
        if self.disabled {
            Ok(None)
        } else if self.base_commit is None {
            Err(SnapshotError::BaseUnavailable)
        } else {
            Ok(None)
        }
    }

    /// The state after the first half of `record_turn_snapshot`.
    pub open spec fn after_record_turn(self, event_id: Seq<char>) -> SnapshotView {
        if self.turn_captures(event_id) {
            SnapshotView { inflight_turns: self.inflight_turns.insert(event_id), ..self }
        } else {
            self
        }
    }

    /// The state after the capture for `event_id` came back with `outcome`.
    pub open spec fn after_turn_capture(
        self,
        event_id: Seq<char>,
        outcome: Result<Seq<char>, Seq<char>>,
    ) -> SnapshotView {
        match outcome {
            Ok(c) => SnapshotView {
                inflight_turns: self.inflight_turns.remove(event_id),
                turn_commits: self.turn_commits.insert(event_id, c),
                ..self
            },
            Err(_) => SnapshotView {
                inflight_turns: self.inflight_turns.remove(event_id),
                disabled: true,
                ..self
            },
        }
    }

    /// The commit recorded for a turn, if any.
    pub open spec fn turn_commit(self, event_id: Seq<char>) -> Option<Seq<char>> {
        if self.turn_commits.contains_key(event_id) {
            Some(self.turn_commits[event_id])
        } else {
            None
        }
    }

    /// The directory and the two commits to diff between the base (a turn, or
    /// the base snapshot where none is named) and the target turn.
    pub open spec fn range(self, base_event_id: Option<Seq<char>>, target_event_id: Seq<char>) -> Option<
        (Seq<char>, Seq<char>, Seq<char>),
    > {
        let base = match base_event_id {
            Some(e) => self.turn_commit(e),
            None => self.base_commit,
        };
        let target = self.turn_commit(target_event_id);
        if self.disabled || base is None || target is None {
            None
        } else {
            Some((self.cwd, base->Some_0, target->Some_0))
        }
    }
}

/// Read-only projection of a conversation's snapshots.
#[derive(Debug, Clone)]
pub struct ConversationSnapshotSummary {
    pub disabled: bool,
    pub base_commit: Option<String>,
    pub turn_commits: Vec<(String, String)>,
}

/// Snapshot state of one conversation.
#[derive(Debug)]
pub struct ReviewSnapshots {
    cwd: String,
    base_commit: Option<String>,
    disabled: bool,
    capturing_base: bool,
    inflight_turns: Vec<String>,
    turn_commits: Vec<(String, String)>,
}

impl View for ReviewSnapshots {
    type V = SnapshotView;

    closed spec fn view(&self) -> SnapshotView {
        SnapshotView {
            cwd: self.cwd@,
            base_commit: opt_view(self.base_commit),
            disabled: self.disabled,
            capturing_base: self.capturing_base,
            inflight_turns: string_set(self.inflight_turns@),
            turn_commits: pair_map(self.turn_commits@),
        }
    }
}

impl ReviewSnapshots {
    /// The stored sets and tables hold each key once.
    pub closed spec fn wf(&self) -> bool {
        distinct_strings(self.inflight_turns@) && distinct_keys(self.turn_commits@)
    }

    /// A fresh state for a conversation working in `cwd`.
    pub fn new(cwd: String) -> (r: ReviewSnapshots)
        ensures
            r.wf(),
            r@.cwd == cwd@,
            r@.base_commit is None,
            !r@.disabled,
            !r@.capturing_base,
            r@.inflight_turns == Set::<Seq<char>>::empty(),
            r@.turn_commits == Map::<Seq<char>, Seq<char>>::empty(),
    {
        let r = ReviewSnapshots {
            cwd,
            base_commit: None,
            disabled: false,
            capturing_base: false,
            inflight_turns: Vec::new(),
            turn_commits: Vec::new(),
        };
        assert(string_set(r.inflight_turns@) =~= Set::<Seq<char>>::empty());
        assert(pair_map(r.turn_commits@) =~= Map::<Seq<char>, Seq<char>>::empty());
        r
    }

    /// The directory snapshots are taken against.
    pub fn cwd(&self) -> (r: &String)
        ensures
            r@ == self@.cwd,
    {
        &self.cwd
    }

    /// Points later snapshots at a new working directory.
    pub fn update_cwd(&mut self, cwd: String)
        requires
            old(self).wf(),
        ensures
            final(self).wf(),
            final(self)@ == (SnapshotView { cwd: cwd@, ..old(self)@ }),
    {
        self.cwd = cwd;
    }

    /// First half of making sure a base snapshot exists. Fails where
    /// snapshotting is disabled; does nothing where a base exists or is being
    /// captured; otherwise marks a base capture as running and asks for it.
    pub fn ensure_base(&mut self) -> (r: BaseStep)
        requires
            old(self).wf(),
        ensures
            final(self).wf(),
            final(self)@ == old(self)@.after_ensure_base(),
            match r {
                BaseStep::Capture(cwd) => old(self)@.base_captures() && cwd@ == old(self)@.cwd,
                BaseStep::Done(res) => !old(self)@.base_captures() && res == old(self)@.base_result(),
            },
    {
        if self.disabled {
            return BaseStep::Done(Err(SnapshotError::Disabled));
        }
        if self.base_commit.is_some() || self.capturing_base {
            return BaseStep::Done(Ok(()));
        }
        self.capturing_base = true;
        BaseStep::Capture(self.cwd.clone())
    }

    /// Second half of `ensure_base`: commits what the capture returned. A
    /// commit is kept only where no base is stored yet; a failure disables
    /// snapshotting for good and is handed back.
    pub fn complete_base(&mut self, outcome: Result<String, String>) -> (r: Result<(), SnapshotError>)
        requires
            old(self).wf(),
        ensures
            final(self).wf(),
            final(self)@ == old(self)@.after_base_capture(outcome_view(outcome)),
            match outcome {
                Ok(_) => r == Ok::<(), SnapshotError>(()),
                Err(m) => r == Err::<(), SnapshotError>(SnapshotError::CreationFailed(m)),
            },
    {
        self.capturing_base = false;
        match outcome {
            Ok(commit) => {
                if self.base_commit.is_none() {
                    self.base_commit = Some(commit);
                }
                Ok(())
            },
            Err(message) => {
                self.disabled = true;
                Err(SnapshotError::CreationFailed(message))
            },
        }
    }

    /// First half of capturing the snapshot of a turn. Returns no snapshot
    /// where snapshotting is disabled or the same turn is being captured,
    /// fails where no base snapshot exists, and otherwise marks the turn as
    /// being captured and asks for the capture.
    pub fn record_turn_snapshot(&mut self, event_id: &String) -> (r: TurnStep)
        requires
            old(self).wf(),
        ensures
            final(self).wf(),
            final(self)@ == old(self)@.after_record_turn(event_id@),
            match r {
                TurnStep::Capture(cwd) => old(self)@.turn_captures(event_id@) && cwd@
                    == old(self)@.cwd,
                TurnStep::Done(res) => !old(self)@.turn_captures(event_id@) && res == old(
                    self,
                )@.turn_result(),
            },
    {
        if self.disabled {
            return TurnStep::Done(Ok(None));
        }
        if self.base_commit.is_none() {
            return TurnStep::Done(Err(SnapshotError::BaseUnavailable));
        }
        let added = insert_string(&mut self.inflight_turns, event_id);
        if !added {
            return TurnStep::Done(Ok(None));
        }
        TurnStep::Capture(self.cwd.clone())
    }

    /// Second half of `record_turn_snapshot`: the turn is no longer being
    /// captured; a commit is recorded for it and returned, a failure disables
    /// snapshotting and is handed back.
    pub fn complete_turn_snapshot(&mut self, event_id: &String, outcome: Result<String, String>) -> (r:
        Result<Option<String>, SnapshotError>)
        requires
            old(self).wf(),
        ensures
            final(self).wf(),
            final(self)@ == old(self)@.after_turn_capture(event_id@, outcome_view(outcome)),
            match outcome {
                Ok(c) => r == Ok::<Option<String>, SnapshotError>(Some(c)),
                Err(m) => r == Err::<Option<String>, SnapshotError>(
                    SnapshotError::CreationFailed(m),
                ),
            },
    {
        remove_string(&mut self.inflight_turns, event_id);
        match outcome {
            Ok(commit) => {
                upsert(&mut self.turn_commits, event_id.clone(), commit.clone());
                Ok(Some(commit))
            },
            Err(message) => {
                self.disabled = true;
                Err(SnapshotError::CreationFailed(message))
            },
        }
    }

    /// The working directory and the two commits to diff, from the named base
    /// turn (or the base snapshot) to the target turn; `None` where
    /// snapshotting is disabled or either commit is unknown.
    pub fn commits_for_range(&self, base_event_id: Option<&String>, target_event_id: &String) -> (r:
        Option<(String, String, String)>)
        requires
            self.wf(),
        ensures
            match r {
                Some((cwd, base, target)) => self@.range(
                    match base_event_id {
                        Some(e) => Some(e@),
                        None => None,
                    },
                    target_event_id@,
                ) == Some((cwd@, base@, target@)),
                None => self@.range(
                    match base_event_id {
                        Some(e) => Some(e@),
                        None => None,
                    },
                    target_event_id@,
                ) is None,
            },
    {
        if self.disabled {
            return None;
        }
        let base = match base_event_id {
            Some(event_id) => lookup(&self.turn_commits, event_id),
            None => match &self.base_commit {
                Some(c) => Some(c.clone()),
                None => None,
            },
        };
        let target = lookup(&self.turn_commits, target_event_id);
        match (base, target) {
            (Some(b), Some(t)) => Some((self.cwd.clone(), b, t)),
            _ => None,
        }
    }

    /// The disabled flag, the base commit and every recorded turn commit.
    pub fn snapshot_summary(&self) -> (r: ConversationSnapshotSummary)
        requires
            self.wf(),
        ensures
            r.disabled == self@.disabled,
            opt_view(r.base_commit) == self@.base_commit,
            distinct_keys(r.turn_commits@),
            pair_map(r.turn_commits@) == self@.turn_commits,
    {
        let mut turn_commits: Vec<(String, String)> = Vec::new();
        let mut i: usize = 0;
        while i < self.turn_commits.len()
            invariant
                i <= self.turn_commits@.len(),
                turn_commits@.len() == i,
                forall|j: int|
                    0 <= j < i ==> #[trigger] turn_commits@[j].0@ == self.turn_commits@[j].0@
                        && turn_commits@[j].1@ == self.turn_commits@[j].1@,
            decreases self.turn_commits@.len() - i,
        {
            let (event_id, commit) = &self.turn_commits[i];
            turn_commits.push((event_id.clone(), commit.clone()));
            i = i + 1;
        }
        let ghost src = self.turn_commits@;
        assert forall|x: Seq<char>|
            #![auto]
            pair_map(turn_commits@).contains_key(x) <==> pair_map(src).contains_key(x) by {
            if pair_map(src).contains_key(x) {
                let j = choose|j: int| 0 <= j < src.len() && src[j].0@ == x;
                assert(turn_commits@[j].0@ == x);
            }
            if pair_map(turn_commits@).contains_key(x) {
                let j = choose|j: int| 0 <= j < turn_commits@.len() && turn_commits@[j].0@ == x;
                assert(src[j].0@ == x);
            }
        }
        assert forall|a: int, b: int|
            0 <= a < turn_commits@.len() && 0 <= b < turn_commits@.len() && a != b implies turn_commits@[a].0@
            != turn_commits@[b].0@ by {
            assert(src[a].0@ != src[b].0@);
            assert(turn_commits@[a].0@ == src[a].0@);
            assert(turn_commits@[b].0@ == src[b].0@);
        }
        assert forall|x: Seq<char>| #[trigger]
            pair_map(turn_commits@).contains_key(x) implies pair_map(turn_commits@)[x] == pair_map(
            src,
        )[x] by {
            let j = choose|j: int| 0 <= j < turn_commits@.len() && turn_commits@[j].0@ == x;
            lemma_pair_map_at(turn_commits@, j);
            assert(src[j].0@ == x);
            lemma_pair_map_at(src, j);
        }
        assert(pair_map(turn_commits@) =~= pair_map(src));
        ConversationSnapshotSummary {
            disabled: self.disabled,
            base_commit: match &self.base_commit {
                Some(c) => Some(c.clone()),
                None => None,
            },
            turn_commits,
        }
    }
}

/// Concurrent `ensure_base` calls on a store with no base make one capture.
/// The first call starts it. Every call made while it runs starts none,
/// returns `Ok(())` and leaves the state as it is, however many there are.
/// Once the capture succeeds its commit is the base and later calls start no
/// capture; once it fails, snapshotting is disabled and later calls fail with
/// `Disabled`.
pub proof fn lemma_base_captured_once(s: SnapshotView, outcome: Result<Seq<char>, Seq<char>>)
    requires
        s.base_commit is None,
        !s.disabled,
        !s.capturing_base,
    ensures
        s.base_captures(),
        !s.after_ensure_base().base_captures(),
        s.after_ensure_base().after_ensure_base() == s.after_ensure_base(),
        s.after_ensure_base().base_result() == Ok::<(), SnapshotError>(()),
        ({
            let t = s.after_ensure_base().after_base_capture(outcome);
            &&& !t.base_captures()
            &&& t.after_ensure_base() == t
            &&& match outcome {
                Ok(c) => t.base_commit == Some(c) && t.base_result() == Ok::<(), SnapshotError>(()),
                Err(_) => t.disabled && t.base_result() == Err::<(), SnapshotError>(
                    SnapshotError::Disabled,
                ),
            }
        }),
{
}

/// The state after `n` calls of `ensure_base` with no capture completing in
/// between.
pub open spec fn ensure_base_calls(s: SnapshotView, n: nat) -> SnapshotView
    decreases n,
{
    if n == 0 {
        s
    } else {
        ensure_base_calls(s, (n - 1) as nat).after_ensure_base()
    }
}

/// How many of those `n` calls start a capture.
pub open spec fn base_captures_among(s: SnapshotView, n: nat) -> nat
    decreases n,
{
    if n == 0 {
        0
    } else {
        base_captures_among(s, (n - 1) as nat) + if ensure_base_calls(
            s,
            (n - 1) as nat,
        ).base_captures() {
            1nat
        } else {
            0nat
        }
    }
}

/// Of `n >= 1` concurrent `ensure_base` calls on a store with no base,
/// exactly one starts a capture, and together they leave the state that the
/// first one left.
pub proof fn lemma_concurrent_base_calls(s: SnapshotView, n: nat)
    requires
        s.base_commit is None,
        !s.disabled,
        !s.capturing_base,
        n >= 1,
    ensures
        base_captures_among(s, n) == 1,
        ensure_base_calls(s, n) == s.after_ensure_base(),
    decreases n,
{
    assert(ensure_base_calls(s, 0) == s);
    assert(base_captures_among(s, 0) == 0);
    if n > 1 {
        lemma_concurrent_base_calls(s, (n - 1) as nat);
        assert(!ensure_base_calls(s, (n - 1) as nat).base_captures());
    }
}

/// Two concurrent `record_turn_snapshot` calls for one turn make one capture.
/// The first starts it; the second, made while it runs, starts none, returns
/// no snapshot and leaves the state as it is. When the capture succeeds its
/// commit is recorded for the turn.
pub proof fn lemma_turn_captured_once(
    s: SnapshotView,
    event_id: Seq<char>,
    outcome: Result<Seq<char>, Seq<char>>,
)
    requires
        !s.disabled,
        s.base_commit is Some,
        !s.inflight_turns.contains(event_id),
    ensures
        s.turn_captures(event_id),
        !s.after_record_turn(event_id).turn_captures(event_id),
        s.after_record_turn(event_id).after_record_turn(event_id) == s.after_record_turn(event_id),
        s.after_record_turn(event_id).turn_result() == Ok::<Option<String>, SnapshotError>(None),
        ({
            let t = s.after_record_turn(event_id).after_turn_capture(event_id, outcome);
            &&& !t.inflight_turns.contains(event_id)
            &&& match outcome {
                Ok(c) => t.turn_commit(event_id) == Some(c),
                Err(_) => t.disabled,
            }
        }),
{
    assert(s.after_record_turn(event_id).inflight_turns.insert(event_id) =~= s.after_record_turn(
        event_id,
    ).inflight_turns);
}

/// A failed capture, of the base or of a turn, disables snapshotting: no
/// range can be resolved afterwards.
pub proof fn lemma_failure_disables(
    s: SnapshotView,
    event_id: Seq<char>,
    message: Seq<char>,
    base_event_id: Option<Seq<char>>,
    target_event_id: Seq<char>,
)
    ensures
        s.after_base_capture(Err(message)).disabled,
        s.after_base_capture(Err(message)).range(base_event_id, target_event_id) is None,
        s.after_turn_capture(event_id, Err(message)).disabled,
        s.after_turn_capture(event_id, Err(message)).range(base_event_id, target_event_id) is None,
{
}

/// Once disabled, a store stays disabled through every operation, and every
/// range, even one that resolved before, is unavailable.
pub proof fn lemma_disabled_is_permanent(
    s: SnapshotView,
    event_id: Seq<char>,
    outcome: Result<Seq<char>, Seq<char>>,
    cwd: Seq<char>,
    base_event_id: Option<Seq<char>>,
    target_event_id: Seq<char>,
)
    requires
        s.disabled,
    ensures
        s.range(base_event_id, target_event_id) is None,
        s.after_ensure_base().disabled,
        s.after_base_capture(outcome).disabled,
        s.after_record_turn(event_id).disabled,
        s.after_turn_capture(event_id, outcome).disabled,
        (SnapshotView { cwd, ..s }).disabled,
{
}

} // verus!
