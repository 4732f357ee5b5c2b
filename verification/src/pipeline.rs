//! The capture loop as a whole, as mathematics: where every unit of the
//! stream has gone after a run of units has passed, when each step is taken
//! as the supervisor decides it and every rotation finds its new encoder.
//!
//! The state is made of the plain values that the supervisor, the parameter
//! cache and the ledger stand for, and each step is put together from the
//! functions that their contracts speak of.

use crate::classify::{
    unit_kind, UNIT_KEYFRAME, UNIT_PICTURE_PARAMETERS, UNIT_SEQUENCE_PARAMETERS,
};
use crate::params::ParameterSets;
use crate::segments::{rotated, LedgerState};
use crate::session::{opened_from, saturated, written, SessionPhase, SessionState};
use crate::supervisor::{cached_after, step_for, Step};
use vstd::prelude::*;

verus! {

/// A session that a rotation has retired, with the id of its segment.
pub struct Retired {
    /// The id that the rotation reserved for the segment.
    pub id: nat,
    /// The books of the session as it left.
    pub session: SessionState,
}

/// The capture loop between two units.
pub struct Pipeline {
    /// The parameter cache.
    pub sets: ParameterSets,
    /// The segment ledger.
    pub ledger: LedgerState,
    /// The books of the active session.
    pub active: SessionState,
    /// The sessions retired so far, in the order of their rotations.
    pub retired: Seq<Retired>,
}

/// The loop after `unit` has passed. The cache takes a parameter unit; a unit
/// without a kind goes nowhere; a keyframe that meets a saturated session
/// retires it under the next id and is the first unit of its successor, as
/// long as there is an id to be had; every other unit joins the active
/// session.
pub open spec fn after_unit(before: Pipeline, unit: Seq<u8>) -> Pipeline {
    let sets = cached_after(before.sets, unit);
    match step_for(unit, before.active) {
        Step::Discard => before,
        Step::Forward => Pipeline { sets, active: written(before.active, unit), ..before },
        Step::Rotate => match rotated(before.ledger).1 {
            Some(id) => Pipeline {
                sets,
                ledger: rotated(before.ledger).0,
                active: written(opened_from(sets, before.active.threshold), unit),
                retired: before.retired.push(
                    Retired {
                        id,
                        session: SessionState {
                            phase: SessionPhase::Finalizing,
                            ..before.active
                        },
                    },
                ),
            },
            None => Pipeline { sets, active: written(before.active, unit), ..before },
        },
    }
}

/// The loop after the units of `units` have passed one by one.
pub open spec fn after_units(before: Pipeline, units: Seq<Seq<u8>>) -> Pipeline
    decreases units.len(),
{
    if units.len() == 0 {
        before
    } else {
        after_unit(after_units(before, units.drop_last()), units.last())
    }
}

/// The units of `units` that have a kind, in their order.
pub open spec fn kept(units: Seq<Seq<u8>>) -> Seq<Seq<u8>>
    decreases units.len(),
{
    if units.len() == 0 {
        Seq::empty()
    } else if unit_kind(units.last()) is Some {
        kept(units.drop_last()).push(units.last())
    } else {
        kept(units.drop_last())
    }
}

/// The units of the stream written to the sessions of `retired`, session
/// after session.
pub open spec fn retired_stream(retired: Seq<Retired>) -> Seq<Seq<u8>>
    decreases retired.len(),
{
    if retired.len() == 0 {
        Seq::empty()
    } else {
        retired_stream(retired.drop_last()) + retired.last().session.live
    }
}

/// The units of the stream written to any session so far: those of the
/// retired sessions, session after session, and those of the active one.
pub open spec fn streamed(pipeline: Pipeline) -> Seq<Seq<u8>> {
    retired_stream(pipeline.retired) + pipeline.active.live
}

/// The session begins at a keyframe: its first unit of the stream is one.
pub open spec fn begins_at_keyframe(session: SessionState) -> bool {
    &&& session.live.len() > 0
    &&& unit_kind(session.live[0]) == Some(UNIT_KEYFRAME)
}

/// The session was opened with both parameter sets: a picture parameter
/// unit and after it a sequence parameter unit.
pub open spec fn opens_with_parameters(session: SessionState) -> bool {
    &&& session.opening.len() == 2
    &&& unit_kind(session.opening[0]) == Some(UNIT_PICTURE_PARAMETERS)
    &&& unit_kind(session.opening[1]) == Some(UNIT_SEQUENCE_PARAMETERS)
}

/// Both slots of the cache are filled, each with a unit of its own kind.
pub open spec fn holds_both_parameters(sets: ParameterSets) -> bool {
    &&& sets.picture matches Some(unit) && unit_kind(unit) == Some(UNIT_PICTURE_PARAMETERS)
    &&& sets.sequence matches Some(unit) && unit_kind(unit) == Some(UNIT_SEQUENCE_PARAMETERS)
}

/// A run may be taken in two parts: the loop after the whole run is the loop
/// after the second part, begun where the first part left it.
pub proof fn lemma_runs_compose(before: Pipeline, first: Seq<Seq<u8>>, second: Seq<Seq<u8>>)
    ensures
        after_units(before, first + second) == after_units(after_units(before, first), second),
    decreases second.len(),
{
    if second.len() == 0 {
        assert(first + second =~= first);
    } else {
        lemma_runs_compose(before, first, second.drop_last());
        assert((first + second).drop_last() =~= first + second.drop_last());
    }
}

/// No frame is lost at a handoff. After any run of units, the units of the
/// stream that the sessions have received, taken session after session, are
/// the units of the run that have a kind: each of them once, in the order of
/// the stream, behind what had been written before the run.
pub proof fn lemma_no_unit_is_lost(before: Pipeline, units: Seq<Seq<u8>>)
    ensures
        streamed(after_units(before, units)) == streamed(before) + kept(units),
    decreases units.len(),
{
    if units.len() == 0 {
        assert(streamed(before) + kept(units) =~= streamed(before));
    } else {
        let head = units.drop_last();
        let unit = units.last();
        let middle = after_units(before, head);
        let after = after_unit(middle, unit);
        lemma_no_unit_is_lost(before, head);
        if unit_kind(unit) is Some {
            if after.retired.len() > middle.retired.len() {
                assert(after.retired.drop_last() =~= middle.retired);
                assert(after.active.live =~= seq![unit]);
            }
            assert(streamed(after) =~= streamed(middle).push(unit));
            assert(streamed(before) + kept(units) =~= (streamed(before) + kept(head)).push(unit));
        }
    }
}

/// Rotations cut the stream at keyframes, and not too often. After any run
/// of units there is still an active session, with the threshold it had.
/// The run has retired one session for every id that the ledger gave out
/// meanwhile, under those ids in their order and without touching the
/// sessions retired before. Every session that the run has retired had
/// taken more units than its threshold and is finalizing, and every session
/// that the run has opened begins at the keyframe that called for it.
pub proof fn lemma_rotations_cut_at_keyframes(before: Pipeline, units: Seq<Seq<u8>>)
    requires
        before.active.phase == SessionPhase::Active,
    ensures
        ({
            let after = after_units(before, units);
            let had = before.retired.len() as int;
            &&& after.active.phase == SessionPhase::Active
            &&& after.active.threshold == before.active.threshold
            &&& after.ledger.published == before.ledger.published
            &&& after.retired.len() >= had
            &&& after.retired.subrange(0, had) == before.retired
            &&& after.ledger.issued == before.ledger.issued + (after.retired.len() - had)
            &&& forall|k: int|
                had <= k < after.retired.len() ==> {
                    &&& (#[trigger] after.retired[k]).id == before.ledger.issued + 1 + (k - had)
                    &&& after.retired[k].session.phase == SessionPhase::Finalizing
                    &&& saturated(after.retired[k].session)
                }
            &&& forall|k: int|
                had < k < after.retired.len() ==> begins_at_keyframe(
                    (#[trigger] after.retired[k]).session,
                )
            &&& after.retired.len() > had ==> begins_at_keyframe(after.active)
        }),
    decreases units.len(),
{
    if units.len() > 0 {
        let head = units.drop_last();
        let after = after_unit(after_units(before, head), units.last());
        lemma_rotations_cut_at_keyframes(before, head);
        assert(after.retired.subrange(0, before.retired.len() as int) =~= before.retired);
    } else {
        assert(before.retired.subrange(0, before.retired.len() as int) =~= before.retired);
    }
}

/// Every segment can be decoded on its own. Once the cache holds both
/// parameter sets it holds them for good, and every session that a run
/// opens from there on is opened with a picture parameter unit and a
/// sequence parameter unit, in this order, before its first unit of the
/// stream.
pub proof fn lemma_sessions_open_with_parameters(before: Pipeline, units: Seq<Seq<u8>>)
    requires
        holds_both_parameters(before.sets),
    ensures
        ({
            let after = after_units(before, units);
            let had = before.retired.len() as int;
            &&& holds_both_parameters(after.sets)
            &&& after.retired.len() >= had
            &&& forall|k: int|
                had < k < after.retired.len() ==> opens_with_parameters(
                    (#[trigger] after.retired[k]).session,
                )
            &&& after.retired.len() > had ==> opens_with_parameters(after.active)
        }),
    decreases units.len(),
{
    if units.len() > 0 {
        lemma_sessions_open_with_parameters(before, units.drop_last());
    }
}

} // verus!
