//! The parameter cache: the latest picture and sequence parameter units, kept
//! so that every new encoding session can be opened with them.

use vstd::prelude::*;
use vstd::slice::slice_to_vec;

verus! {

/// What a parameter cache holds, as plain values.
pub struct ParameterSets {
    /// The latest picture parameter unit, once one has arrived.
    pub picture: Option<Seq<u8>>,
    /// The latest sequence parameter unit, once one has arrived.
    pub sequence: Option<Seq<u8>>,
}

/// The units that open a new session: the cached picture parameters and
/// after them the cached sequence parameters, each only where it is there.
pub open spec fn opening_units(sets: ParameterSets) -> Seq<Seq<u8>> {
    let picture = match sets.picture {
        Some(unit) => seq![unit],
        None => Seq::<Seq<u8>>::empty(),
    };
    let sequence = match sets.sequence {
        Some(unit) => seq![unit],
        None => Seq::<Seq<u8>>::empty(),
    };
    picture + sequence
}

/// The latest parameter units of the stream. A slot is empty until the first
/// unit of its kind arrives; from that moment on it is only ever replaced.
pub struct ParameterCache {
    picture: Option<Vec<u8>>,
    sequence: Option<Vec<u8>>,
}

impl View for ParameterCache {
    type V = ParameterSets;

    closed spec fn view(&self) -> ParameterSets {
        ParameterSets {
            picture: match self.picture {
                Some(unit) => Some(unit@),
                None => None,
            },
            sequence: match self.sequence {
                Some(unit) => Some(unit@),
                None => None,
            },
        }
    }
}

impl ParameterCache {
    /// A cache with both slots empty.
    pub fn new() -> (cache: ParameterCache)
        ensures
            cache@.picture is None,
            cache@.sequence is None,
    {
        ParameterCache { picture: None, sequence: None }
    }

    /// Replaces the picture parameters by a copy of `unit`.
    pub fn set_picture(&mut self, unit: &[u8])
        ensures
            final(self)@.picture == Some(unit@),
            final(self)@.sequence == old(self)@.sequence,
    {
        self.picture = Some(slice_to_vec(unit));
    }

    /// Replaces the sequence parameters by a copy of `unit`.
    pub fn set_sequence(&mut self, unit: &[u8])
        ensures
            final(self)@.sequence == Some(unit@),
            final(self)@.picture == old(self)@.picture,
    {
        self.sequence = Some(slice_to_vec(unit));
    }

    /// A copy of both slots as they are now: picture first, sequence second.
    pub fn snapshot(&self) -> (sets: (Option<Vec<u8>>, Option<Vec<u8>>))
        ensures
            sets.0.deep_view() == self@.picture,
            sets.1.deep_view() == self@.sequence,
    {
        let picture: Option<Vec<u8>> = match &self.picture {
            Some(unit) => {
                let copy: Vec<u8> = slice_to_vec(unit.as_slice());
                Some(copy)
            },
            None => None,
        };
        let sequence: Option<Vec<u8>> = match &self.sequence {
            Some(unit) => {
                let copy: Vec<u8> = slice_to_vec(unit.as_slice());
                Some(copy)
            },
            None => None,
        };
        (picture, sequence)
    }
}

} // verus!
