//! The books of one encoding session: what was written to the encoder, how
//! many units it has taken, and how far it is on its way to a finished
//! segment. The process itself is run by whoever owns these books.

use crate::params::{opening_units, ParameterCache, ParameterSets};
use vstd::prelude::*;

verus! {

/// Frames per second that the capture is asked for.
pub const FRAME_RATE: u64 = 20;

/// Units after which a session counts as saturated: three seconds of frames.
pub const SATURATION_THRESHOLD: u64 = 3 * FRAME_RATE;

/// How far a session is.
#[derive(Clone, Copy, PartialEq, Eq, Debug, Structural)]
pub enum SessionPhase {
    /// The encoder takes units.
    Active,
    /// The input is closed; the encoder is finishing its file.
    Finalizing,
    /// The encoder has exited and its file is complete.
    Closed,
}

/// Why a session refused a request.
#[derive(Clone, Copy, PartialEq, Eq, Debug, Structural)]
pub enum SessionError {
    /// The session takes units and closes its input only while it is active.
    NotActive,
    /// Only a session that is finalizing can be closed.
    NotFinalizing,
}

/// What a session records, as plain values.
pub struct SessionState {
    /// How far the session is.
    pub phase: SessionPhase,
    /// The count above which the session is saturated.
    pub threshold: nat,
    /// The units that the session was opened with: cached parameter units.
    pub opening: Seq<Seq<u8>>,
    /// The units of the stream written since, in the order of writing.
    pub live: Seq<Seq<u8>>,
}

impl SessionState {
    /// Everything written to the encoder, in the order of writing: the
    /// opening units first, the units of the stream after them.
    pub open spec fn input(self) -> Seq<Seq<u8>> {
        self.opening + self.live
    }

    /// Units written since the session was opened, counted up to `u64::MAX`.
    /// The opening units are not counted.
    pub open spec fn units(self) -> nat {
        if self.live.len() <= u64::MAX {
            self.live.len()
        } else {
            u64::MAX as nat
        }
    }
}

/// The books of a session that has just been opened from `sets`: active,
/// the opening units written, and no unit of the stream yet.
pub open spec fn opened_from(sets: ParameterSets, threshold: nat) -> SessionState {
    SessionState {
        phase: SessionPhase::Active,
        threshold,
        opening: opening_units(sets),
        live: Seq::empty(),
    }
}

/// The session after one more unit of the stream is written to it.
pub open spec fn written(state: SessionState, unit: Seq<u8>) -> SessionState {
    SessionState { live: state.live.push(unit), ..state }
}

/// The session after the units of `units` are written to it one by one.
pub open spec fn written_all(state: SessionState, units: Seq<Seq<u8>>) -> SessionState
    decreases units.len(),
{
    if units.len() == 0 {
        state
    } else {
        written(written_all(state, units.drop_last()), units.last())
    }
}

/// The session has taken more units than its threshold: the next keyframe is
/// a good place to end its segment.
pub open spec fn saturated(state: SessionState) -> bool {
    state.units() > state.threshold
}

/// The books of one encoding session.
pub struct EncoderSession {
    phase: SessionPhase,
    units: u64,
    threshold: u64,
    opening: Ghost<Seq<Seq<u8>>>,
    live: Ghost<Seq<Seq<u8>>>,
}

impl View for EncoderSession {
    type V = SessionState;

    closed spec fn view(&self) -> SessionState {
        SessionState {
            phase: self.phase,
            threshold: self.threshold as nat,
            opening: self.opening@,
            live: self.live@,
        }
    }
}

impl EncoderSession {
    #[verifier::type_invariant]
    spec fn counts_what_was_written(self) -> bool {
        self.units == self@.units()
    }

    /// Opens the books of a new session and returns, next to them, copies of
    /// the units to write to the encoder before anything else: the cached
    /// picture parameters and then the cached sequence parameters, so that
    /// the segment can be decoded from its first frame. They do not count
    /// towards saturation.
    pub fn create(cache: &ParameterCache, threshold: u64) -> (opened: (
        EncoderSession,
        Vec<Vec<u8>>,
    ))
        ensures
            opened.0@ == opened_from(cache@, threshold as nat),
            opened.1.deep_view() == opening_units(cache@),
    {
        let (picture, sequence) = cache.snapshot();
        let mut opening: Vec<Vec<u8>> = Vec::new();
        if let Some(unit) = picture {
            opening.push(unit);
        }
        if let Some(unit) = sequence {
            opening.push(unit);
        }
        assert(opening.deep_view() =~= opening_units(cache@));
        let session = EncoderSession {
            phase: SessionPhase::Active,
            units: 0,
            threshold,
            opening: Ghost(opening.deep_view()),
            live: Ghost(Seq::empty()),
        };
        (session, opening)
    }

    /// Records that `unit` was written to the encoder. Only an active session
    /// takes units; any other stays as it is.
    pub fn write(&mut self, unit: &[u8]) -> (done: Result<(), SessionError>)
        ensures
            old(self)@.phase == SessionPhase::Active ==> done is Ok && final(self)@ == written(
                old(self)@,
                unit@,
            ),
            old(self)@.phase != SessionPhase::Active ==> done == Err::<(), SessionError>(
                SessionError::NotActive,
            ) && final(self)@ == old(self)@,
    {
        proof {
            use_type_invariant(&*self);
        }
        match self.phase {
            SessionPhase::Active => {
                let units: u64 = if self.units < u64::MAX {
                    self.units + 1
                } else {
                    self.units
                };
                *self = EncoderSession {
                    phase: self.phase,
                    units,
                    threshold: self.threshold,
                    opening: self.opening,
                    live: Ghost(self.live@.push(unit@)),
                };
                Ok(())
            },
            _ => Err(SessionError::NotActive),
        }
    }

    /// Whether the session has taken more units than its threshold.
    pub fn is_saturated(&self) -> (full: bool)
        ensures
            full == saturated(self@),
    {
        proof {
            use_type_invariant(self);
        }
        self.units > self.threshold
    }

    /// Records that the input of the encoder is closed: an active session
    /// becomes a finalizing one and takes no further unit.
    pub fn finalize(&mut self) -> (done: Result<(), SessionError>)
        ensures
            old(self)@.phase == SessionPhase::Active ==> done is Ok && final(self)@ == (
                SessionState { phase: SessionPhase::Finalizing, ..old(self)@ }
            ),
            old(self)@.phase != SessionPhase::Active ==> done == Err::<(), SessionError>(
                SessionError::NotActive,
            ) && final(self)@ == old(self)@,
    {
        proof {
            use_type_invariant(&*self);
        }
        match self.phase {
            SessionPhase::Active => {
                self.phase = SessionPhase::Finalizing;
                Ok(())
            },
            _ => Err(SessionError::NotActive),
        }
    }

    /// Records that the encoder has exited: a finalizing session is closed,
    /// and its file is complete.
    pub fn close(&mut self) -> (done: Result<(), SessionError>)
        ensures
            old(self)@.phase == SessionPhase::Finalizing ==> done is Ok && final(self)@ == (
                SessionState { phase: SessionPhase::Closed, ..old(self)@ }
            ),
            old(self)@.phase != SessionPhase::Finalizing ==> done == Err::<(), SessionError>(
                SessionError::NotFinalizing,
            ) && final(self)@ == old(self)@,
    {
        proof {
            use_type_invariant(&*self);
        }
        match self.phase {
            SessionPhase::Finalizing => {
                self.phase = SessionPhase::Closed;
                Ok(())
            },
            _ => Err(SessionError::NotFinalizing),
        }
    }

    /// How far the session is.
    pub fn phase(&self) -> (phase: SessionPhase)
        ensures
            phase == self@.phase,
    {
        self.phase
    }

    /// Units written since the session was opened, counted up to `u64::MAX`.
    pub fn unit_count(&self) -> (units: u64)
        ensures
            units == self@.units(),
    {
        proof {
            use_type_invariant(self);
        }
        self.units
    }

    /// The count above which the session is saturated.
    pub fn threshold(&self) -> (threshold: u64)
        ensures
            threshold == self@.threshold,
    {
        self.threshold
    }
}

/// Whatever is written to a session, and however much of it, the input of
/// the session begins with the units it was opened with: the cached picture
/// parameters, then the cached sequence parameters, and only then the units
/// of the stream, in the order of writing. Up to `u64::MAX` the count is the
/// number of those units.
pub proof fn lemma_opening_comes_first(sets: ParameterSets, threshold: nat, units: Seq<Seq<u8>>)
    ensures
        written_all(opened_from(sets, threshold), units).input() == opening_units(sets) + units,
        written_all(opened_from(sets, threshold), units).opening == opening_units(sets),
        written_all(opened_from(sets, threshold), units).live == units,
        written_all(opened_from(sets, threshold), units).phase == SessionPhase::Active,
        written_all(opened_from(sets, threshold), units).threshold == threshold,
        units.len() <= u64::MAX ==> written_all(opened_from(sets, threshold), units).units()
            == units.len(),
        sets.picture is Some && sets.sequence is Some ==> {
            &&& written_all(opened_from(sets, threshold), units).input()[0] == sets.picture->0
            &&& written_all(opened_from(sets, threshold), units).input()[1] == sets.sequence->0
        },
    decreases units.len(),
{
    if units.len() > 0 {
        lemma_opening_comes_first(sets, threshold, units.drop_last());
        assert(units.drop_last().push(units.last()) =~= units);
    } else {
        assert(units =~= Seq::<Seq<u8>>::empty());
    }
}

} // verus!
