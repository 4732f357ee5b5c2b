//! The decisions of the capture loop: what becomes of each unit that the
//! scanner gives out, and how the active session is swapped for a fresh one
//! without a moment in which no session is active.
//!
//! The loop itself, with its processes and pipes, is run by the caller. It
//! hands in what it read and reports what it did; every answer it needs
//! comes from here.

use crate::annexb::{complete_units, remainder};
use crate::classify::{
    get_unit_type, unit_kind, UNIT_KEYFRAME, UNIT_PICTURE_PARAMETERS, UNIT_SEQUENCE_PARAMETERS,
};
use crate::params::{opening_units, ParameterCache, ParameterSets};
use crate::scanner::NalScanner;
use crate::segments::{rotated, SegmentLedger};
use crate::session::{
    opened_from, saturated, written, EncoderSession, SessionPhase, SessionState,
};
use vstd::prelude::*;

verus! {

/// What the capture loop does with a unit.
#[derive(Clone, Copy, PartialEq, Eq, Debug, Structural)]
pub enum Step {
    /// The unit is too short to have a kind: it is left out.
    Discard,
    /// The unit is written to the active session.
    Forward,
    /// The unit is a keyframe and the active session is saturated: the session
    /// is swapped first, and the unit is written to the new one.
    Rotate,
}

/// The step that a unit calls for, given the books of the active session.
pub open spec fn step_for(unit: Seq<u8>, session: SessionState) -> Step {
    match unit_kind(unit) {
        None => Step::Discard,
        Some(kind) => if kind == UNIT_KEYFRAME && saturated(session) {
            Step::Rotate
        } else {
            Step::Forward
        },
    }
}

/// The parameter sets after a unit has passed: a parameter unit takes the
/// slot of its kind, any other unit leaves both slots as they are.
pub open spec fn cached_after(sets: ParameterSets, unit: Seq<u8>) -> ParameterSets {
    match unit_kind(unit) {
        Some(kind) => if kind == UNIT_PICTURE_PARAMETERS {
            ParameterSets { picture: Some(unit), sequence: sets.sequence }
        } else if kind == UNIT_SEQUENCE_PARAMETERS {
            ParameterSets { picture: sets.picture, sequence: Some(unit) }
        } else {
            sets
        },
        None => sets,
    }
}

/// What the supervisor holds, as plain values.
pub struct SupervisorState {
    /// The bytes of the capture stream that no start code has closed yet.
    pub pending: Seq<u8>,
    /// The books of the active session.
    pub session: SessionState,
}

/// What a rotation hands over to the task that finishes the old segment.
pub struct Handoff {
    /// The id reserved for the segment of the retired session.
    pub id: u64,
    /// The books of the retired session, which is finalizing from now on.
    pub retired: EncoderSession,
    /// The units to write to the new encoder before any unit of the stream.
    pub opening: Vec<Vec<u8>>,
}

/// The state of the capture loop: the scanner and the books of the session
/// that is active. There is an active session at every moment.
pub struct Supervisor {
    scanner: NalScanner,
    active: EncoderSession,
}

impl View for Supervisor {
    type V = SupervisorState;

    closed spec fn view(&self) -> SupervisorState {
        SupervisorState { pending: self.scanner@, session: self.active@ }
    }
}

impl Supervisor {
    #[verifier::type_invariant]
    spec fn session_is_active(self) -> bool {
        self.active@.phase == SessionPhase::Active
    }

    /// Moves the state out and leaves a fresh one behind. A method that
    /// changes a part takes the state out, changes the part and puts the
    /// whole back, so that the state is never seen without its active session.
    fn take(&mut self) -> (taken: Supervisor)
        ensures
            taken@ == old(self)@,
    {
        let (active, _) = EncoderSession::create(&ParameterCache::new(), 0);
        let mut taken = Supervisor { scanner: NalScanner::new(), active };
        std::mem::swap(self, &mut taken);
        taken
    }

    /// The state at startup: a scanner at the head of the stream and the
    /// books of the first session. Returned with it are the units to write
    /// to the first encoder before anything else, which are none while the
    /// cache is empty.
    pub fn start(cache: &ParameterCache, threshold: u64) -> (started: (Supervisor, Vec<Vec<u8>>))
        ensures
            started.0@.pending == Seq::<u8>::empty(),
            started.0@.session == opened_from(cache@, threshold as nat),
            started.1.deep_view() == opening_units(cache@),
    {
        let (active, opening) = EncoderSession::create(cache, threshold);
        (Supervisor { scanner: NalScanner::new(), active }, opening)
    }

    /// Takes the next chunk read from the capture process and returns the
    /// units that it completes, in stream order.
    pub fn scan(&mut self, chunk: &[u8]) -> (units: Vec<Vec<u8>>)
        ensures
            units.deep_view() == complete_units(old(self)@.pending + chunk@),
            final(self)@.pending == remainder(old(self)@.pending + chunk@),
            final(self)@.session == old(self)@.session,
    {
        let taken = self.take();
        proof {
            use_type_invariant(&taken);
        }
        let mut scanner = taken.scanner;
        let units = scanner.feed(chunk);
        *self = Supervisor { scanner, active: taken.active };
        units
    }

    /// The capture process has exited and a new one takes its place: the
    /// unit that the old stream left unclosed is given up. The session stays,
    /// and so does the parameter cache, which this does not touch.
    pub fn capture_restarted(&mut self)
        ensures
            final(self)@.pending == Seq::<u8>::empty(),
            final(self)@.session == old(self)@.session,
    {
        let taken = self.take();
        proof {
            use_type_invariant(&taken);
        }
        *self = Supervisor { scanner: NalScanner::new(), active: taken.active };
    }

    /// Decides what becomes of a unit and keeps the parameter cache up to
    /// date: a picture or sequence parameter unit replaces what its slot
    /// held.
    pub fn decide(&self, cache: &mut ParameterCache, unit: &[u8]) -> (step: Step)
        ensures
            step == step_for(unit@, self@.session),
            final(cache)@ == cached_after(old(cache)@, unit@),
            self@.session.phase == SessionPhase::Active,
    {
        proof {
            use_type_invariant(self);
        }
        match get_unit_type(unit) {
            None => Step::Discard,
            Some(kind) => {
                if kind == UNIT_PICTURE_PARAMETERS {
                    cache.set_picture(unit);
                } else if kind == UNIT_SEQUENCE_PARAMETERS {
                    cache.set_sequence(unit);
                }
                if kind == UNIT_KEYFRAME && self.active.is_saturated() {
                    Step::Rotate
                } else {
                    Step::Forward
                }
            },
        }
    }

    /// Swaps the active session for a fresh one. The ledger reserves the id
    /// of the segment that the old session ends, the new session is opened
    /// from the parameter cache with the threshold of the old one, and the
    /// old session leaves as finalizing. Where the ledger has no id left,
    /// nothing changes at all.
    pub fn rotate(&mut self, ledger: &mut SegmentLedger, cache: &ParameterCache) -> (handoff:
        Option<Handoff>)
        ensures
            final(ledger)@ == rotated(old(ledger)@).0,
            match handoff {
                Some(given) => {
                    &&& rotated(old(ledger)@).1 == Some(given.id as nat)
                    &&& given.retired@ == (
                        SessionState { phase: SessionPhase::Finalizing, ..old(self)@.session }
                    )
                    &&& given.opening.deep_view() == opening_units(cache@)
                    &&& final(self)@.session == opened_from(
                        cache@,
                        old(self)@.session.threshold,
                    )
                    &&& final(self)@.pending == old(self)@.pending
                },
                None => {
                    &&& rotated(old(ledger)@).1 is None
                    &&& final(self)@ == old(self)@
                },
            },
    {
        proof {
            use_type_invariant(&*self);
        }
        match ledger.rotate() {
            None => None,
            Some(id) => {
                let (fresh, opening) = EncoderSession::create(cache, self.active.threshold());
                let taken = self.take();
                proof {
                    use_type_invariant(&taken);
                }
                let mut retired = taken.active;
                *self = Supervisor { scanner: taken.scanner, active: fresh };
                let _ = retired.finalize();
                Some(Handoff { id, retired, opening })
            },
        }
    }

    /// Records that `unit` was written to the active session.
    pub fn forwarded(&mut self, unit: &[u8])
        ensures
            final(self)@.session == written(old(self)@.session, unit@),
            final(self)@.pending == old(self)@.pending,
    {
        let taken = self.take();
        proof {
            use_type_invariant(&taken);
        }
        let mut active = taken.active;
        let _ = active.write(unit);
        *self = Supervisor { scanner: taken.scanner, active };
    }

    /// The encoder of the active session is gone before its time. A fresh
    /// session with the same threshold takes its place; no id is reserved,
    /// for there is no segment to publish. Returned are the units to write
    /// to the new encoder first.
    pub fn session_lost(&mut self, cache: &ParameterCache) -> (opening: Vec<Vec<u8>>)
        ensures
            opening.deep_view() == opening_units(cache@),
            final(self)@.session == opened_from(cache@, old(self)@.session.threshold),
            final(self)@.pending == old(self)@.pending,
    {
        let (fresh, opening) = EncoderSession::create(cache, self.active.threshold());
        let taken = self.take();
        *self = Supervisor { scanner: taken.scanner, active: fresh };
        opening
    }

    /// Whether the active session has taken more units than its threshold.
    pub fn is_saturated(&self) -> (full: bool)
        ensures
            full == saturated(self@.session),
            self@.session.phase == SessionPhase::Active,
    {
        proof {
            use_type_invariant(self);
        }
        self.active.is_saturated()
    }

    /// Units written to the active session since it was opened.
    pub fn active_units(&self) -> (units: u64)
        ensures
            units == self@.session.units(),
            self@.session.phase == SessionPhase::Active,
    {
        proof {
            use_type_invariant(self);
        }
        self.active.unit_count()
    }

    /// Number of bytes of the capture stream held back for the unit that is
    /// not closed yet.
    pub fn pending_len(&self) -> (len: usize)
        ensures
            len == self@.pending.len(),
    {
        self.scanner.pending_len()
    }
}

/// No unit empties a slot of the parameter cache: a slot that is filled
/// stays filled, whatever passes, and changes only when a newer unit of its
/// own kind takes it.
pub proof fn lemma_filled_slot_stays_filled(sets: ParameterSets, unit: Seq<u8>)
    ensures
        sets.picture is Some ==> cached_after(sets, unit).picture is Some,
        sets.sequence is Some ==> cached_after(sets, unit).sequence is Some,
        unit_kind(unit) != Some(UNIT_PICTURE_PARAMETERS) ==> cached_after(sets, unit).picture
            == sets.picture,
        unit_kind(unit) != Some(UNIT_SEQUENCE_PARAMETERS) ==> cached_after(sets, unit).sequence
            == sets.sequence,
{
}

} // verus!
