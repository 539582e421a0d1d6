//! The life of a world visit.
//!
//! VRChat logs `Entering Room` (the room name) before `Joining wrld_…:…`
//! (world and instance). A visit is created `Pending` on entering and becomes
//! `Resolved` when its joining arrives. When the next room is entered, a
//! visit still `Pending` becomes `MissingJoin`; when VRChat exits first, it
//! becomes `ClosedWithoutJoin`. A second joining that disagrees with the one
//! recorded turns the visit into a `Conflict`. Only `Pending` and `Resolved`
//! visits that have not been left are active.
//!
//! The rows live in the database; this module decides the new values.

use vstd::prelude::*;
use crate::log_parser::event::opt_view;
use crate::text::str_eq;
use crate::time::naive::{format_naive, naive_text, NaiveLocal, UtcTime};
use crate::time::resolve::{
    resolution_text, resolve_local_to_utc, resolve_spec, tz_name_known, zone_known,
};

verus! {

/// `resolution_state` of a visit.
#[derive(Debug, Clone, Copy, PartialEq, Eq)]
pub enum VisitState {
    /// Entered, its joining not yet seen.
    Pending,
    /// Joining seen: world and instance are known.
    Resolved,
    /// The next room was entered before any joining.
    MissingJoin,
    /// VRChat exited before any joining.
    ClosedWithoutJoin,
    /// Contradictory joinings.
    Conflict,
}

pub open spec fn state_text(s: VisitState) -> Seq<char> {
    match s {
        VisitState::Pending => "Pending"@,
        VisitState::Resolved => "Resolved"@,
        VisitState::MissingJoin => "MissingJoin"@,
        VisitState::ClosedWithoutJoin => "ClosedWithoutJoin"@,
        VisitState::Conflict => "Conflict"@,
    }
}

impl VisitState {
    /// The text stored in `resolution_state`.
    pub fn as_str(self) -> (r: &'static str)
        ensures
            r@ == state_text(self),
    {
        match self {
            VisitState::Pending => "Pending",
            VisitState::Resolved => "Resolved",
            VisitState::MissingJoin => "MissingJoin",
            VisitState::ClosedWithoutJoin => "ClosedWithoutJoin",
            VisitState::Conflict => "Conflict",
        }
    }

    /// Reads a stored `resolution_state`.
    pub fn from_text(s: &str) -> (r: Option<VisitState>)
        ensures
            match r {
                Some(st) => state_text(st) == s@,
                None => forall|st: VisitState| state_text(st) != s@,
            },
    {
        if str_eq(s, "Pending") {
            Some(VisitState::Pending)
        } else if str_eq(s, "Resolved") {
            Some(VisitState::Resolved)
        } else if str_eq(s, "MissingJoin") {
            Some(VisitState::MissingJoin)
        } else if str_eq(s, "ClosedWithoutJoin") {
            Some(VisitState::ClosedWithoutJoin)
        } else if str_eq(s, "Conflict") {
            Some(VisitState::Conflict)
        } else {
            proof {
                assert forall|st: VisitState| state_text(st) != s@ by {
                    match st {
                        VisitState::Pending => {},
                        VisitState::Resolved => {},
                        VisitState::MissingJoin => {},
                        VisitState::ClosedWithoutJoin => {},
                        VisitState::Conflict => {},
                    }
                }
            }
            None
        }
    }
}

/// Law: every state has its own text, so reading back what `as_str` stored gives the
/// same state.
pub proof fn lemma_state_text_roundtrip(a: VisitState, b: VisitState)
    ensures
        state_text(a) == state_text(b) ==> a == b,
{
    reveal_strlit("Pending");
    reveal_strlit("Resolved");
    reveal_strlit("MissingJoin");
    reveal_strlit("ClosedWithoutJoin");
    reveal_strlit("Conflict");
    if state_text(a) == state_text(b) && a != b {
        let x = state_text(a);
        let y = state_text(b);
        assert(x.len() == y.len());
        assert(x[0] == y[0]);
    }
}

/// The time zone a local time is read in, and how it was obtained.
#[derive(Debug, Clone, Copy, PartialEq, Eq)]
pub struct TimeContext<'a> {
    pub tz_id: &'a str,
    pub tz_source: &'a str,
    /// `"High"`, `"Medium"` or `"Low"`.
    pub resolution_confidence: &'a str,
}

/// The newest active visit.
#[derive(Debug, Clone, PartialEq, Eq)]
pub struct ActiveVisit {
    pub id: i64,
    pub resolution_state: String,
    pub world_id: Option<String>,
    pub instance_id: Option<String>,
    pub world_name: String,
    pub joined_utc: UtcTime,
}

/// A point in time as the rows store it: the wall-clock text, the resolved instant
/// and how it was resolved.
#[derive(Debug, Clone, PartialEq, Eq)]
pub struct TimeStamp {
    /// `%Y-%m-%d %H:%M:%S`
    pub naive_local: String,
    pub utc: UtcTime,
    pub tz_id: String,
    pub offset_seconds: i32,
    pub resolution: String,
    pub tz_source: String,
    pub resolution_confidence: String,
}

/// `st` records `naive` read in the zone of `ctx` after `prev_utc`.
pub open spec fn stamp_of(st: TimeStamp, naive: NaiveLocal, ctx: TimeContext, prev_utc: Option<UtcTime>) -> bool {
    let (utc, offset, res) = resolve_spec(ctx.tz_id@, naive, prev_utc);
    &&& st.naive_local@ == naive_text(naive)
    &&& st.utc == utc
    &&& st.offset_seconds as int == offset
    &&& st.resolution@ == resolution_text(res)
    &&& st.tz_id@ == ctx.tz_id@
    &&& st.tz_source@ == ctx.tz_source@
    &&& st.resolution_confidence@ == ctx.resolution_confidence@
}

/// Stamps the local time `naive` in the zone of `ctx`; an unknown zone name is an error
/// `invalid tz: <name>`.
pub fn time_stamp(naive: &NaiveLocal, ctx: TimeContext, prev_utc: Option<UtcTime>) -> (r: Result<
    TimeStamp,
    String,
>)
    requires
        naive.valid(),
    ensures
        match r {
            Ok(st) => tz_name_known(ctx.tz_id@) && stamp_of(st, *naive, ctx, prev_utc),
            Err(m) => !tz_name_known(ctx.tz_id@) && m@ == "invalid tz: "@ + ctx.tz_id@,
        },
{
    if !zone_known(ctx.tz_id) {
        let mut m = String::from_str("invalid tz: ");
        m.append(ctx.tz_id);
        return Err(m);
    }
    let (utc, offset, res) = resolve_local_to_utc(naive, ctx.tz_id, prev_utc);
    Ok(
        TimeStamp {
            naive_local: format_naive(naive),
            utc,
            tz_id: String::from_str(ctx.tz_id),
            offset_seconds: offset,
            resolution: String::from_str(res.as_str()),
            tz_source: String::from_str(ctx.tz_source),
            resolution_confidence: String::from_str(ctx.resolution_confidence),
        },
    )
}

/// What a joining does to a visit that is no longer `Pending`.
#[derive(Debug, Clone, Copy, PartialEq, Eq)]
pub enum JoiningOutcome {
    /// The same world and instance again: nothing changes.
    IdempotentNoop,
    /// A different world or instance: the visit becomes a `Conflict`.
    Conflict,
}

/// A repeated joining is harmless only when both world and instance match what the visit holds.
pub fn joining_outcome(
    existing_world_id: &Option<String>,
    existing_instance_id: &Option<String>,
    world_id: &str,
    instance_id: &str,
) -> (r: JoiningOutcome)
    ensures
        (r == JoiningOutcome::IdempotentNoop) <==> (opt_view(*existing_world_id) == Some(world_id@)
            && opt_view(*existing_instance_id) == Some(instance_id@)),
{
    let same_world = match existing_world_id {
        Some(w) => str_eq(w.as_str(), world_id),
        None => false,
    };
    let same_instance = match existing_instance_id {
        Some(i) => str_eq(i.as_str(), instance_id),
        None => false,
    };
    if same_world && same_instance {
        JoiningOutcome::IdempotentNoop
    } else {
        JoiningOutcome::Conflict
    }
}

/// The state written when the next room is entered (`None`: the state is kept).
pub open spec fn finished_state(state: Seq<char>) -> Option<VisitState> {
    if state == "Pending"@ {
        Some(VisitState::MissingJoin)
    } else {
        None
    }
}

/// The state a visit moves to when the next room is entered: `Pending` becomes
/// `MissingJoin`; any other state is kept (`None`), only the leaving time is written.
pub fn state_after_next_entering(state: &str) -> (r: Option<VisitState>)
    ensures
        r == finished_state(state@),
{
    if str_eq(state, "Pending") {
        Some(VisitState::MissingJoin)
    } else {
        None
    }
}

/// What happened on VRChat's exit.
#[derive(Debug, Clone, Copy, PartialEq, Eq)]
pub enum ExitFinalizeOutcome {
    /// No active visit; nothing was done.
    NoActive,
    /// A `Pending` visit became `ClosedWithoutJoin` and got its leaving time.
    ClosedPendingAsWithoutJoin { visit_id: i64 },
    /// A `Resolved` visit got its leaving time and kept its state.
    StampedLeftUtcOnResolved { visit_id: i64 },
}

/// On VRChat's exit, the newest active visit (id and stored state) is closed: the state
/// to write and the outcome.
pub fn exit_finalize_plan(active: Option<(i64, &str)>) -> (r: (Option<(i64, VisitState)>, ExitFinalizeOutcome))
    ensures
        match active {
            None => r == (None::<(i64, VisitState)>, ExitFinalizeOutcome::NoActive),
            Some((id, st)) => if st@ == "Pending"@ {
                r == (Some((id, VisitState::ClosedWithoutJoin)), ExitFinalizeOutcome::ClosedPendingAsWithoutJoin { visit_id: id })
            } else {
                r == (Some((id, VisitState::Resolved)), ExitFinalizeOutcome::StampedLeftUtcOnResolved { visit_id: id })
            },
        },
{
    match active {
        None => (None, ExitFinalizeOutcome::NoActive),
        Some((id, st)) => {
            if str_eq(st, "Pending") {
                (Some((id, VisitState::ClosedWithoutJoin)), ExitFinalizeOutcome::ClosedPendingAsWithoutJoin { visit_id: id })
            } else {
                (Some((id, VisitState::Resolved)), ExitFinalizeOutcome::StampedLeftUtcOnResolved { visit_id: id })
            }
        },
    }
}

} // verus!
