//! Projection of raw log events into visits, player sessions, notifications
//! and videos.
//!
//! For one raw event the projector decides which writes to make given the
//! newest active visit, and how the event's ledger entry ends: done, skipped
//! (with a reason) or failed (with a message). A batch is tallied and each
//! log file's checkpoint moves to the largest raw event id of the batch.

use vstd::prelude::*;
use crate::db::visits::ActiveVisit;
use crate::log_parser::event::LogEvent;
use crate::text::str_eq;
use crate::time::naive::NaiveLocal;

verus! {

/// How the projection of one raw event ended.
#[derive(Debug, Clone, PartialEq, Eq)]
pub enum ProjectorOutcome {
    Done,
    Skipped,
    /// The failure was written to the ledger with this message.
    FailedRecorded(String),
}

/// Counts of one batch.
#[derive(Debug, Clone, Copy, PartialEq, Eq)]
pub struct ProjectorBatchResult {
    pub processed: usize,
    pub done: usize,
    pub skipped: usize,
    pub failed: usize,
}

impl Default for ProjectorBatchResult {
    /// All counts zero.
    fn default() -> (r: Self)
        ensures
            r.processed == 0 && r.done == 0 && r.skipped == 0 && r.failed == 0,
    {
        ProjectorBatchResult { processed: 0, done: 0, skipped: 0, failed: 0 }
    }
}

/// A write that the projection of one raw event asks for, in order.
#[derive(Debug, Clone, PartialEq, Eq)]
pub enum ProjectionStep {
    /// Close the active visit because the next room is entered.
    FinishActiveVisit { visit_id: i64 },
    /// Create a `Pending` visit for the room entered.
    InsertPendingVisit { world_name: String },
    /// Give the `Pending` visit its world and instance.
    ResolvePendingVisit { world_id: String, instance_id: String },
    /// Compare a further joining with what the visit holds.
    CheckRepeatJoining { visit_id: i64, world_id: String, instance_id: String },
    /// Open a player session in the visit.
    InsertPlayerJoin { visit_id: i64, display_name: String, user_id: Option<String> },
    /// Close the matching player session of the visit.
    SetPlayerLeft { visit_id: i64, display_name: String, user_id: Option<String> },
    InsertNotification { visit_id: Option<i64>, sender: String, ntype: String },
    InsertVideo { visit_id: Option<i64>, url: String },
}

/// How the ledger entry of the raw event is closed.
#[derive(Debug, Clone, PartialEq, Eq)]
pub enum LedgerMark {
    Done,
    Skipped(String),
    Failed(String),
}

/// The writes for one raw event, the ledger mark and the outcome.
#[derive(Debug, Clone, PartialEq, Eq)]
pub struct ProjectionPlan {
    pub steps: Vec<ProjectionStep>,
    pub mark: LedgerMark,
    pub outcome: ProjectorOutcome,
}

pub open spec fn skipped_with(p: ProjectionPlan, reason: Seq<char>) -> bool {
    &&& p.steps@.len() == 0
    &&& p.mark matches LedgerMark::Skipped(m) && m@ == reason
    &&& p.outcome == ProjectorOutcome::Skipped
}

pub open spec fn done_with(p: ProjectionPlan, steps: Seq<ProjectionStep>) -> bool {
    &&& p.steps@ == steps
    &&& p.mark == LedgerMark::Done
    &&& p.outcome == ProjectorOutcome::Done
}

pub open spec fn active_id(active: Option<ActiveVisit>) -> Option<i64> {
    match active {
        Some(a) => Some(a.id),
        None => None,
    }
}

/// The plan for a raw event whose payload decoded to `event` (or failed to, with the
/// decoder's message), whose local time is `naive_local`, given the newest active visit.
///
/// - an undecodable payload fails with `payload deserialize: <message>`;
/// - no local time: skipped, `no naive_local`;
/// - entering a room: close the active visit if any, then create a `Pending` one;
/// - joining: resolves a `Pending` active visit, is checked against any other active
///   visit, and is skipped (`joining without active visit`) with none;
/// - a player joining opens a session in the active visit, or is skipped
///   (`player_joined without active visit`);
/// - a player leaving closes the session in the active visit, if there is one;
/// - notifications and videos are recorded with the active visit, if any;
/// - `user_authenticated` and `unparsable` lines are skipped under those names.
pub open spec fn plan_spec(
    p: ProjectionPlan,
    payload: Result<LogEvent, String>,
    has_naive: bool,
    active: Option<ActiveVisit>,
) -> bool {
    match payload {
        Err(e) => {
            &&& p.steps@.len() == 0
            &&& p.mark matches LedgerMark::Failed(m) && m@ == "payload deserialize: "@ + e@
            &&& p.outcome matches ProjectorOutcome::FailedRecorded(m) && m@ == "payload deserialize: "@ + e@
        },
        Ok(event) => if !has_naive {
            skipped_with(p, "no naive_local"@)
        } else {
            match event {
                LogEvent::RoomEntering { world_name } => done_with(
                    p,
                    match active {
                        Some(a) => seq![
                            ProjectionStep::FinishActiveVisit { visit_id: a.id },
                            ProjectionStep::InsertPendingVisit { world_name },
                        ],
                        None => seq![ProjectionStep::InsertPendingVisit { world_name }],
                    },
                ),
                LogEvent::RoomJoining { world_id, instance_id } => match active {
                    Some(a) => if a.resolution_state@ == "Pending"@ {
                        done_with(p, seq![ProjectionStep::ResolvePendingVisit { world_id, instance_id }])
                    } else {
                        done_with(
                            p,
                            seq![ProjectionStep::CheckRepeatJoining { visit_id: a.id, world_id, instance_id }],
                        )
                    },
                    None => skipped_with(p, "joining without active visit"@),
                },
                LogEvent::PlayerJoined { display_name, user_id } => match active {
                    Some(a) => done_with(
                        p,
                        seq![ProjectionStep::InsertPlayerJoin { visit_id: a.id, display_name, user_id }],
                    ),
                    None => skipped_with(p, "player_joined without active visit"@),
                },
                LogEvent::PlayerLeft { display_name, user_id } => match active {
                    Some(a) => done_with(
                        p,
                        seq![ProjectionStep::SetPlayerLeft { visit_id: a.id, display_name, user_id }],
                    ),
                    None => done_with(p, Seq::empty()),
                },
                LogEvent::Notification { sender, ntype } => done_with(
                    p,
                    seq![ProjectionStep::InsertNotification { visit_id: active_id(active), sender, ntype }],
                ),
                LogEvent::VideoUrl { url } => done_with(
                    p,
                    seq![ProjectionStep::InsertVideo { visit_id: active_id(active), url }],
                ),
                LogEvent::UserAuthenticated { .. } => skipped_with(p, "user_authenticated"@),
                LogEvent::UnparsableLine { .. } => skipped_with(p, "unparsable"@),
            }
        },
    }
}

fn skip(reason: &str) -> (p: ProjectionPlan)
    ensures
        skipped_with(p, reason@),
{
    ProjectionPlan {
        steps: Vec::new(),
        mark: LedgerMark::Skipped(String::from_str(reason)),
        outcome: ProjectorOutcome::Skipped,
    }
}

fn done_one(step: ProjectionStep) -> (p: ProjectionPlan)
    ensures
        done_with(p, seq![step]),
{
    let mut steps: Vec<ProjectionStep> = Vec::new();
    steps.push(step);
    let p = done(steps);
    assert(p.steps@ =~= seq![step]);
    p
}

fn done(steps: Vec<ProjectionStep>) -> (p: ProjectionPlan)
    ensures
        done_with(p, steps@),
{
    ProjectionPlan { steps, mark: LedgerMark::Done, outcome: ProjectorOutcome::Done }
}

/// Plans the projection of one raw event (see [`plan_spec`]).
pub fn plan_projection(
    payload: Result<LogEvent, String>,
    naive_local: Option<NaiveLocal>,
    active: Option<ActiveVisit>,
) -> (r: ProjectionPlan)
    ensures
        plan_spec(r, payload, naive_local is Some, active),
{
    let event = match payload {
        Err(e) => {
            let mut m = String::from_str("payload deserialize: ");
            m.append(e.as_str());
            let mut m2 = String::from_str("payload deserialize: ");
            m2.append(e.as_str());
            return ProjectionPlan {
                steps: Vec::new(),
                mark: LedgerMark::Failed(m),
                outcome: ProjectorOutcome::FailedRecorded(m2),
            };
        },
        Ok(ev) => ev,
    };
    if naive_local.is_none() {
        return skip("no naive_local");
    }
    match event {
        LogEvent::RoomEntering { world_name } => {
            match active {
                Some(a) => {
                    let mut steps: Vec<ProjectionStep> = Vec::new();
                    steps.push(ProjectionStep::FinishActiveVisit { visit_id: a.id });
                    steps.push(ProjectionStep::InsertPendingVisit { world_name });
                    let p = done(steps);
                    assert(p.steps@ =~= seq![
                        ProjectionStep::FinishActiveVisit { visit_id: a.id },
                        ProjectionStep::InsertPendingVisit { world_name },
                    ]);
                    p
                },
                None => {
                    done_one(ProjectionStep::InsertPendingVisit { world_name })
                },
            }
        },
        LogEvent::RoomJoining { world_id, instance_id } => match active {
            Some(a) => {
                let pending = str_eq(a.resolution_state.as_str(), "Pending");
                let step = if pending {
                    ProjectionStep::ResolvePendingVisit { world_id, instance_id }
                } else {
                    ProjectionStep::CheckRepeatJoining { visit_id: a.id, world_id, instance_id }
                };
                done_one(step)
            },
            None => skip("joining without active visit"),
        },
        LogEvent::PlayerJoined { display_name, user_id } => match active {
            Some(a) => done_one(ProjectionStep::InsertPlayerJoin { visit_id: a.id, display_name, user_id }),
            None => skip("player_joined without active visit"),
        },
        LogEvent::PlayerLeft { display_name, user_id } => match active {
            Some(a) => done_one(ProjectionStep::SetPlayerLeft { visit_id: a.id, display_name, user_id }),
            None => done(Vec::new()),
        },
        LogEvent::Notification { sender, ntype } => {
            let visit_id = match active {
                Some(a) => Some(a.id),
                None => None,
            };
            done_one(ProjectionStep::InsertNotification { visit_id, sender, ntype })
        },
        LogEvent::VideoUrl { url } => {
            let visit_id = match active {
                Some(a) => Some(a.id),
                None => None,
            };
            done_one(ProjectionStep::InsertVideo { visit_id, url })
        },
        LogEvent::UserAuthenticated { .. } => skip("user_authenticated"),
        LogEvent::UnparsableLine { .. } => skip("unparsable"),
    }
}

/// Law: entering a room with no active visit creates a `Pending` visit, and the joining
/// that follows, with that visit active, resolves it with the joined world and instance.
pub proof fn lemma_entering_then_joining_resolves(
    p1: ProjectionPlan,
    p2: ProjectionPlan,
    world_name: String,
    world_id: String,
    instance_id: String,
    entered: ActiveVisit,
)
    requires
        plan_spec(p1, Ok((LogEvent::RoomEntering { world_name })), true, None),
        entered.resolution_state@ == "Pending"@,
        plan_spec(p2, Ok((LogEvent::RoomJoining { world_id, instance_id })), true, Some(entered)),
    ensures
        p1.steps@ == seq![(ProjectionStep::InsertPendingVisit { world_name })],
        p2.steps@ == seq![(ProjectionStep::ResolvePendingVisit { world_id, instance_id })],
        p1.outcome == ProjectorOutcome::Done && p2.outcome == ProjectorOutcome::Done,
{
}

/// Law: entering a room while a visit is active first closes that visit, then creates the
/// new one; a closed visit that was still `Pending` becomes `MissingJoin`.
pub proof fn lemma_back_to_back_entering_closes_previous(
    p: ProjectionPlan,
    world_name: String,
    active: ActiveVisit,
)
    requires
        plan_spec(p, Ok((LogEvent::RoomEntering { world_name })), true, Some(active)),
    ensures
        p.steps@.len() == 2,
        p.steps@[0] == (ProjectionStep::FinishActiveVisit { visit_id: active.id }),
        p.steps@[1] == (ProjectionStep::InsertPendingVisit { world_name }),
        active.resolution_state@ == "Pending"@ ==> crate::db::visits::finished_state(active.resolution_state@)
            == Some(crate::db::visits::VisitState::MissingJoin),
{
}

/// Law: with an active visit, a player joining opens one session in that visit and the
/// same player leaving closes that session: each plan is exactly one step, on the active
/// visit, with the display name and user id of the log line, and is marked done.
pub proof fn lemma_join_then_leave_closes_the_session(
    pj: ProjectionPlan,
    pl: ProjectionPlan,
    display_name: String,
    user_id: Option<String>,
    a: ActiveVisit,
)
    requires
        plan_spec(pj, Ok(LogEvent::PlayerJoined { display_name, user_id }), true, Some(a)),
        plan_spec(pl, Ok(LogEvent::PlayerLeft { display_name, user_id }), true, Some(a)),
    ensures
        pj.steps@ == seq![ProjectionStep::InsertPlayerJoin { visit_id: a.id, display_name, user_id }],
        pl.steps@ == seq![ProjectionStep::SetPlayerLeft { visit_id: a.id, display_name, user_id }],
        pj.mark == LedgerMark::Done && pj.outcome == ProjectorOutcome::Done,
        pl.mark == LedgerMark::Done && pl.outcome == ProjectorOutcome::Done,
{
}

/// Law: notifications and videos are recorded against the active visit, or against none
/// when no visit is active; a player joining or a world joining with no active visit, a
/// log-in line and an unparsable line write nothing and are skipped; entering a room
/// always ends with creating exactly one pending visit for that room.
pub proof fn lemma_records_follow_the_active_visit(
    p: ProjectionPlan,
    ev: LogEvent,
    active: Option<ActiveVisit>,
)
    requires
        plan_spec(p, Ok(ev), true, active),
    ensures
        ev matches LogEvent::Notification { sender, ntype } ==> p.steps@ == seq![
            ProjectionStep::InsertNotification {
                visit_id: match active {
                    Some(a) => Some(a.id),
                    None => None,
                },
                sender,
                ntype,
            },
        ],
        ev matches LogEvent::VideoUrl { url } ==> p.steps@ == seq![
            ProjectionStep::InsertVideo {
                visit_id: match active {
                    Some(a) => Some(a.id),
                    None => None,
                },
                url,
            },
        ],
        (active is None && (ev is PlayerJoined || ev is RoomJoining)) ==> p.steps@.len() == 0
            && p.outcome == ProjectorOutcome::Skipped,
        (ev is UserAuthenticated || ev is UnparsableLine) ==> p.steps@.len() == 0 && p.outcome
            == ProjectorOutcome::Skipped,
        ev matches LogEvent::RoomEntering { world_name } ==> p.steps@.len() >= 1 && p.steps@.last()
            == (ProjectionStep::InsertPendingVisit { world_name }) && p.outcome == ProjectorOutcome::Done,
{
}

/// Law: a raw event without a local time writes nothing and is skipped; one whose payload
/// cannot be decoded writes nothing and is recorded as failed.
pub proof fn lemma_unusable_events_write_nothing(
    p: ProjectionPlan,
    payload: Result<LogEvent, String>,
    has_naive: bool,
    active: Option<ActiveVisit>,
)
    requires
        plan_spec(p, payload, has_naive, active),
    ensures
        payload is Err ==> p.steps@.len() == 0 && p.outcome is FailedRecorded,
        (payload is Ok && !has_naive) ==> p.steps@.len() == 0 && p.outcome == ProjectorOutcome::Skipped,
{
}

/// Law: a player leaving while no visit is active writes nothing and is still marked done.
pub proof fn lemma_leave_without_visit_writes_nothing(
    p: ProjectionPlan,
    display_name: String,
    user_id: Option<String>,
)
    requires
        plan_spec(p, Ok(LogEvent::PlayerLeft { display_name, user_id }), true, None),
    ensures
        p.steps@.len() == 0,
        p.mark == LedgerMark::Done && p.outcome == ProjectorOutcome::Done,
{
}

/// Law: every projection plan closes the raw event's ledger entry (no plan leaves it
/// pending), and the mark agrees with the outcome that the batch tally counts: `Done` with
/// done, `Skipped` with skipped, `Failed` with a recorded failure under the same message.
pub proof fn lemma_plan_closes_ledger(
    p: ProjectionPlan,
    payload: Result<LogEvent, String>,
    has_naive: bool,
    active: Option<ActiveVisit>,
)
    requires
        plan_spec(p, payload, has_naive, active),
    ensures
        p.mark is Done <==> p.outcome is Done,
        p.mark is Skipped <==> p.outcome is Skipped,
        p.mark is Failed <==> p.outcome is FailedRecorded,
        p.mark matches LedgerMark::Failed(m) ==> (p.outcome matches ProjectorOutcome::FailedRecorded(
            m2,
        ) && m2@ == m@),
{
}

pub open spec fn count_outcome(o: Seq<ProjectorOutcome>, k: int) -> nat
    decreases o.len(),
{
    if o.len() == 0 {
        0
    } else {
        count_outcome(o.drop_last(), k) + if outcome_kind(o.last()) == k {
            1nat
        } else {
            0nat
        }
    }
}

/// 0 for done, 1 for skipped, 2 for failed.
pub open spec fn outcome_kind(o: ProjectorOutcome) -> int {
    match o {
        ProjectorOutcome::Done => 0,
        ProjectorOutcome::Skipped => 1,
        ProjectorOutcome::FailedRecorded(_) => 2,
    }
}

/// Tallies the outcomes of a batch; every event is counted under exactly one outcome.
pub fn tally_batch(outcomes: &[ProjectorOutcome]) -> (r: ProjectorBatchResult)
    ensures
        r.processed == outcomes@.len(),
        r.done == count_outcome(outcomes@, 0),
        r.skipped == count_outcome(outcomes@, 1),
        r.failed == count_outcome(outcomes@, 2),
        r.done + r.skipped + r.failed == r.processed,
{
    let mut r = ProjectorBatchResult::default();
    let mut i: usize = 0;
    while i < outcomes.len()
        invariant
            i <= outcomes@.len(),
            r.processed == 0,
            r.done == count_outcome(outcomes@.take(i as int), 0),
            r.skipped == count_outcome(outcomes@.take(i as int), 1),
            r.failed == count_outcome(outcomes@.take(i as int), 2),
            r.done + r.skipped + r.failed == i,
        decreases outcomes@.len() - i,
    {
        assert(outcomes@.take(i + 1).drop_last() =~= outcomes@.take(i as int));
        match &outcomes[i] {
            ProjectorOutcome::Done => r.done = r.done + 1,
            ProjectorOutcome::Skipped => r.skipped = r.skipped + 1,
            ProjectorOutcome::FailedRecorded(_) => r.failed = r.failed + 1,
        }
        i = i + 1;
    }
    assert(outcomes@.take(outcomes@.len() as int) =~= outcomes@);
    r.processed = outcomes.len();
    r
}

/// The largest raw event id the batch holds for log file `f`.
pub open spec fn max_raw(batch: Seq<(i64, i64)>, f: i64) -> Option<i64>
    decreases batch.len(),
{
    if batch.len() == 0 {
        None
    } else {
        let prev = max_raw(batch.drop_last(), f);
        let x = batch.last();
        if x.0 != f {
            prev
        } else {
            match prev {
                Some(m) => Some(
                    if m < x.1 {
                        x.1
                    } else {
                        m
                    },
                ),
                None => Some(x.1),
            }
        }
    }
}

/// `out` lists each log file of the batch once, with the largest raw event id the batch
/// holds for it.
pub open spec fn checkpoints_of(batch: Seq<(i64, i64)>, out: Seq<(i64, i64)>) -> bool {
    &&& forall|i: int, j: int| 0 <= i < j < out.len() ==> (#[trigger] out[i]).0 != (#[trigger] out[j]).0
    &&& forall|j: int| 0 <= j < out.len() ==> max_raw(batch, (#[trigger] out[j]).0) == Some(out[j].1)
    &&& forall|f: i64| (#[trigger] max_raw(batch, f)) is Some ==> exists|j: int| 0 <= j < out.len() && (#[trigger] out[j]).0 == f
}

proof fn lemma_max_raw_push(bt: Seq<(i64, i64)>, f: i64, raw: i64, g: i64)
    ensures
        max_raw(bt.push((f, raw)), g) == (if g != f {
            max_raw(bt, g)
        } else {
            match max_raw(bt, f) {
                Some(m) => Some(
                    if m < raw {
                        raw
                    } else {
                        m
                    },
                ),
                None => Some(raw),
            }
        }),
{
    assert(bt.push((f, raw)).drop_last() =~= bt);
}

proof fn lemma_checkpoint_merge(
    bt: Seq<(i64, i64)>,
    prev: Seq<(i64, i64)>,
    f: i64,
    raw: i64,
    k: int,
    out: Seq<(i64, i64)>,
)
    requires
        checkpoints_of(bt, prev),
        0 <= k < prev.len(),
        prev[k].0 == f,
        out == (if prev[k].1 < raw {
            prev.update(k, (f, raw))
        } else {
            prev
        }),
    ensures
        checkpoints_of(bt.push((f, raw)), out),
{
    let bn = bt.push((f, raw));
    assert(max_raw(bt, prev[k].0) == Some(prev[k].1));
    assert forall|a: int, b: int| 0 <= a < b < out.len() implies (#[trigger] out[a]).0 != (#[trigger] out[b]).0 by {
        assert(out[a].0 == prev[a].0 && out[b].0 == prev[b].0);
    }
    assert forall|j: int| 0 <= j < out.len() implies max_raw(bn, (#[trigger] out[j]).0) == Some(out[j].1) by {
        lemma_max_raw_push(bt, f, raw, out[j].0);
        if j != k {
            assert(out[j] == prev[j]);
            assert(prev[j].0 != prev[k].0);
            assert(max_raw(bt, prev[j].0) == Some(prev[j].1));
        }
    }
    assert forall|g: i64| (#[trigger] max_raw(bn, g)) is Some implies exists|j: int| 0 <= j < out.len() && (#[trigger] out[j]).0 == g by {
        lemma_max_raw_push(bt, f, raw, g);
        if g == f {
            assert(out[k].0 == g);
        } else {
            assert(max_raw(bt, g) is Some);
            let j = choose|j: int| 0 <= j < prev.len() && (#[trigger] prev[j]).0 == g;
            assert(out[j].0 == prev[j].0);
        }
    }
}

proof fn lemma_checkpoint_add(
    bt: Seq<(i64, i64)>,
    prev: Seq<(i64, i64)>,
    f: i64,
    raw: i64,
    out: Seq<(i64, i64)>,
)
    requires
        checkpoints_of(bt, prev),
        forall|j: int| 0 <= j < prev.len() ==> (#[trigger] prev[j]).0 != f,
        out == prev.push((f, raw)),
    ensures
        checkpoints_of(bt.push((f, raw)), out),
{
    let bn = bt.push((f, raw));
    assert(max_raw(bt, f) is None) by {
        if max_raw(bt, f) is Some {
            let j = choose|j: int| 0 <= j < prev.len() && (#[trigger] prev[j]).0 == f;
        }
    }
    assert forall|a: int, b: int| 0 <= a < b < out.len() implies (#[trigger] out[a]).0 != (#[trigger] out[b]).0 by {
        if b < prev.len() {
            assert(out[a] == prev[a] && out[b] == prev[b]);
        } else {
            assert(out[a] == prev[a]);
        }
    }
    assert forall|j: int| 0 <= j < out.len() implies max_raw(bn, (#[trigger] out[j]).0) == Some(out[j].1) by {
        lemma_max_raw_push(bt, f, raw, out[j].0);
        if j < prev.len() {
            assert(out[j] == prev[j]);
            assert(max_raw(bt, prev[j].0) == Some(prev[j].1));
        }
    }
    assert forall|g: i64| (#[trigger] max_raw(bn, g)) is Some implies exists|j: int| 0 <= j < out.len() && (#[trigger] out[j]).0 == g by {
        lemma_max_raw_push(bt, f, raw, g);
        if g == f {
            assert(out[prev.len() as int].0 == g);
        } else {
            assert(max_raw(bt, g) is Some);
            let j = choose|j: int| 0 <= j < prev.len() && (#[trigger] prev[j]).0 == g;
            assert(out[j] == prev[j]);
        }
    }
}

fn find_file(out: &Vec<(i64, i64)>, f: i64) -> (r: Option<usize>)
    ensures
        match r {
            Some(k) => k < out@.len() && out@[k as int].0 == f,
            None => forall|j: int| 0 <= j < out@.len() ==> (#[trigger] out@[j]).0 != f,
        },
{
    let mut k: usize = 0;
    while k < out.len()
        invariant
            k <= out@.len(),
            forall|j: int| 0 <= j < k ==> (#[trigger] out@[j]).0 != f,
        decreases out@.len() - k,
    {
        if out[k].0 == f {
            return Some(k);
        }
        k = k + 1;
    }
    None
}

/// For each log file of the batch (`(processed_log_file_id, raw_event_id)` pairs), the
/// largest raw event id: where its projection checkpoint moves to.
pub fn batch_checkpoints(batch: &[(i64, i64)]) -> (r: Vec<(i64, i64)>)
    ensures
        checkpoints_of(batch@, r@),
{
    let mut out: Vec<(i64, i64)> = Vec::new();
    let mut i: usize = 0;
    while i < batch.len()
        invariant
            i <= batch@.len(),
            checkpoints_of(batch@.take(i as int), out@),
        decreases batch@.len() - i,
    {
        let (f, raw) = batch[i];
        let ghost prev = out@;
        let ghost bt = batch@.take(i as int);
        let ghost bn = batch@.take(i + 1);
        assert(bn =~= bt.push((f, raw)));
        let pos = find_file(&out, f);
        if let Some(k) = pos {
            let (f0, cur) = out[k];
            if cur < raw {
                out.set(k, (f, raw));
            }
            proof {
                lemma_checkpoint_merge(bt, prev, f, raw, k as int, out@);
            }
        } else {
            out.push((f, raw));
            proof {
                lemma_checkpoint_add(bt, prev, f, raw, out@);
            }
        }
        i = i + 1;
    }
    assert(batch@.take(batch@.len() as int) =~= batch@);
    out
}

} // verus!
