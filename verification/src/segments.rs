//! Segment identity and retention: which id the next segment gets, when a
//! finished segment may be served, and which older segment leaves as it
//! arrives.

use vstd::prelude::*;

verus! {

/// Number of the most recent segments that are kept for playback.
pub const RETENTION_WINDOW: u64 = 4;

/// Where a segment id stands in its life.
#[derive(Clone, Copy, PartialEq, Eq, Debug, Structural)]
pub enum SegmentState {
    /// No rotation has reserved the id.
    Unissued,
    /// The id is reserved and its file is not in place yet.
    Pending,
    /// The file is in the serving directory.
    Ready,
    /// The file has left the serving directory for good.
    Evicted,
}

/// Why a segment was not published.
#[derive(Clone, Copy, PartialEq, Eq, Debug, Structural)]
pub enum PublishError {
    /// No rotation has reserved this id.
    NotReserved,
    /// The id was published before.
    AlreadyPublished,
    /// An earlier segment is still pending: segments are published in the
    /// order of their ids.
    OutOfTurn,
}

/// The segment that leaves the serving directory when segment `id` enters
/// it: the one a whole retention window older, where there is one. Ids begin
/// at 1.
pub open spec fn evicted_by(id: nat) -> Option<nat> {
    if id > RETENTION_WINDOW {
        Some((id - RETENTION_WINDOW) as nat)
    } else {
        None
    }
}

/// The ids that are ready when `published` is the newest of them: the last
/// `RETENTION_WINDOW` ids up to it, as far as there are that many.
pub open spec fn ready_ids(published: nat) -> Set<nat> {
    Set::new(|id: nat| 1 <= id <= published && published < id + RETENTION_WINDOW)
}

/// The state of `id` when `issued` ids are reserved and those up to
/// `published` have been published in turn.
pub open spec fn state_at(issued: nat, published: nat, id: nat) -> SegmentState {
    if id == 0 || id > issued {
        SegmentState::Unissued
    } else if id > published {
        SegmentState::Pending
    } else if published < id + RETENTION_WINDOW {
        SegmentState::Ready
    } else {
        SegmentState::Evicted
    }
}

/// The serving directory after segment `id` is published into it: the file
/// of `id` is renamed into place and the file that `id` evicts is deleted,
/// which changes nothing where that file is not there.
pub open spec fn directory_after_publish(files: Set<nat>, id: nat) -> Set<nat> {
    match evicted_by(id) {
        Some(old) => files.insert(id).remove(old),
        None => files.insert(id),
    }
}

/// The serving directory, empty at first, after the segments `1..=n` have
/// been published in turn.
pub open spec fn directory_after(n: nat) -> Set<nat>
    decreases n,
{
    if n == 0 {
        Set::empty()
    } else {
        directory_after_publish(directory_after((n - 1) as nat), n)
    }
}

/// What the ledger records, as plain values.
pub struct LedgerState {
    /// Number of ids reserved so far, which is the newest reserved id.
    pub issued: nat,
    /// The newest published id, 0 before the first.
    pub published: nat,
}

/// One rotation: the ledger with one more id reserved, and that id. Once the
/// ids are used up the ledger stays as it is and no id comes out.
pub open spec fn rotated(state: LedgerState) -> (LedgerState, Option<nat>) {
    if state.issued < u64::MAX {
        (
            LedgerState { issued: state.issued + 1, published: state.published },
            Some(state.issued + 1),
        )
    } else {
        (state, None)
    }
}

/// `calls` rotations in a row: the ledger after them and what each of them
/// gave out.
pub open spec fn rotated_times(state: LedgerState, calls: nat) -> (LedgerState, Seq<Option<nat>>)
    decreases calls,
{
    if calls == 0 {
        (state, Seq::empty())
    } else {
        let (before, ids) = rotated_times(state, (calls - 1) as nat);
        (rotated(before).0, ids.push(rotated(before).1))
    }
}

/// Computes the segment to delete once segment `id` is in place.
pub fn eviction_target(id: u64) -> (target: Option<u64>)
    ensures
        match target {
            Some(old) => evicted_by(id as nat) == Some(old as nat),
            None => evicted_by(id as nat) is None,
        },
{
    if id > RETENTION_WINDOW {
        Some(id - RETENTION_WINDOW)
    } else {
        None
    }
}

/// The one place where segment ids are given out and where it is recorded
/// which of them are served. Every change takes the ledger by exclusive
/// reference, so no two callers ever see the same id.
pub struct SegmentLedger {
    issued: u64,
    published: u64,
}

impl View for SegmentLedger {
    type V = LedgerState;

    closed spec fn view(&self) -> LedgerState {
        LedgerState { issued: self.issued as nat, published: self.published as nat }
    }
}

impl SegmentLedger {
    #[verifier::type_invariant]
    spec fn published_are_issued(self) -> bool {
        self.published <= self.issued
    }

    /// A ledger before the first rotation.
    pub fn new() -> (ledger: SegmentLedger)
        ensures
            ledger@.issued == 0,
            ledger@.published == 0,
    {
        SegmentLedger { issued: 0, published: 0 }
    }

    /// The newest reserved id, 0 before the first rotation.
    pub fn issued(&self) -> (id: u64)
        ensures
            id == self@.issued,
            self@.published <= self@.issued,
    {
        proof {
            use_type_invariant(self);
        }
        self.issued
    }

    /// Reserves the id of the segment that is about to be finalized: one more
    /// than the id reserved before it, so that ids rise from 1 without a gap.
    /// Nothing is reserved, and nothing changes, once the ids are used up.
    pub fn rotate(&mut self) -> (id: Option<u64>)
        ensures
            final(self)@ == rotated(old(self)@).0,
            match id {
                Some(reserved) => rotated(old(self)@).1 == Some(reserved as nat),
                None => rotated(old(self)@).1 is None,
            },
    {
        proof {
            use_type_invariant(&*self);
        }
        if self.issued < u64::MAX {
            let id: u64 = self.issued + 1;
            *self = SegmentLedger { issued: id, published: self.published };
            Some(id)
        } else {
            None
        }
    }

    /// Records that the file of segment `id` is in its place in the serving
    /// directory, and returns the segment to delete in exchange.
    ///
    /// Segments are published in the order of their ids. An id that is not
    /// next in turn is refused and the ledger stays as it was.
    pub fn publish(&mut self, id: u64) -> (evict: Result<Option<u64>, PublishError>)
        ensures
            match evict {
                Ok(target) => {
                    &&& state_at(old(self)@.issued, old(self)@.published, id as nat)
                        == SegmentState::Pending
                    &&& id == old(self)@.published + 1
                    &&& final(self)@.published == id
                    &&& final(self)@.issued == old(self)@.issued
                    &&& match target {
                        Some(gone) => evicted_by(id as nat) == Some(gone as nat),
                        None => evicted_by(id as nat) is None,
                    }
                },
                Err(error) => {
                    &&& final(self)@ == old(self)@
                    &&& error == PublishError::NotReserved <==> state_at(
                        old(self)@.issued,
                        old(self)@.published,
                        id as nat,
                    ) == SegmentState::Unissued
                    &&& error == PublishError::AlreadyPublished <==> id != 0 && id <= old(
                        self,
                    )@.published
                    &&& error == PublishError::OutOfTurn <==> old(self)@.published + 1 < id
                        <= old(self)@.issued
                },
            },
            evict is Ok <==> id == old(self)@.published + 1 && id <= old(self)@.issued,
    {
        proof {
            use_type_invariant(&*self);
        }
        if id == 0 || id > self.issued {
            Err(PublishError::NotReserved)
        } else if id <= self.published {
            Err(PublishError::AlreadyPublished)
        } else if id - 1 > self.published {
            Err(PublishError::OutOfTurn)
        } else {
            *self = SegmentLedger { issued: self.issued, published: id };
            Ok(eviction_target(id))
        }
    }

    /// The segment to play now: the newest one that is ready, once there is
    /// one. A reserved id is never given out before it is published.
    pub fn current(&self) -> (id: Option<u64>)
        ensures
            self@.published == 0 ==> id is None,
            self@.published > 0 ==> id == Some(self@.published as u64),
            id matches Some(newest) ==> state_at(self@.issued, self@.published, newest as nat)
                == SegmentState::Ready,
    {
        proof {
            use_type_invariant(self);
        }
        if self.published == 0 {
            None
        } else {
            Some(self.published)
        }
    }

    /// Where `id` stands in its life.
    pub fn state_of(&self, id: u64) -> (state: SegmentState)
        ensures
            state == state_at(self@.issued, self@.published, id as nat),
            state == SegmentState::Ready <==> ready_ids(self@.published).contains(id as nat),
    {
        proof {
            use_type_invariant(self);
        }
        if id == 0 || id > self.issued {
            SegmentState::Unissued
        } else if id > self.published {
            SegmentState::Pending
        } else if self.published - id < RETENTION_WINDOW {
            SegmentState::Ready
        } else {
            SegmentState::Evicted
        }
    }
}

/// Rotation after rotation, the ids that come out rise by one each, from
/// the id behind the last one taken: none is skipped and none comes twice.
/// This holds as long as the ids last.
pub proof fn lemma_ids_are_dense(state: LedgerState, calls: nat)
    requires
        state.issued + calls <= u64::MAX,
    ensures
        rotated_times(state, calls).0.issued == state.issued + calls,
        rotated_times(state, calls).0.published == state.published,
        rotated_times(state, calls).1.len() == calls,
        forall|k: int|
            0 <= k < calls ==> #[trigger] rotated_times(state, calls).1[k] == Some(
                (state.issued + 1 + k) as nat,
            ),
    decreases calls,
{
    if calls > 0 {
        lemma_ids_are_dense(state, (calls - 1) as nat);
    }
}

/// Retention: after the segments `1..=n` have been published in turn, the
/// serving directory holds the last `RETENTION_WINDOW` of them and nothing
/// else, which is all of them while there are no more than that.
pub proof fn lemma_retention(n: nat)
    ensures
        directory_after(n) == ready_ids(n),
        directory_after(n).finite(),
        n <= RETENTION_WINDOW ==> directory_after(n).len() == n,
        n >= RETENTION_WINDOW ==> directory_after(n).len() == RETENTION_WINDOW,
    decreases n,
{
    if n > 0 {
        let before = (n - 1) as nat;
        lemma_retention(before);
        assert(directory_after(n) =~= ready_ids(n));
        // the new id was not there before, and the id it evicts was
        assert(!directory_after(before).contains(n));
        if n > RETENTION_WINDOW {
            assert(directory_after(before).contains((n - RETENTION_WINDOW) as nat));
        }
    }
}

} // verus!
