//! Saving the defaults of new tracks once the track that they came with has been created.
//!
//! The add-track dialog can make its choices the defaults for later tracks. Those defaults are
//! remembered under the request identity of the track creation; they are saved once the
//! application confirms the creation, forgotten when it fails, and become the effective
//! defaults once the settings accept them.
use std::collections::BTreeMap;

use vstd::prelude::*;

use crate::id_set::{strictly_ascending, IdSet};
use crate::settings::{NewTrackConfiguration, TrackProcessorTypeId};

verus! {

/// How the settings answered a save of track defaults.
#[derive(Clone, Copy, Debug, PartialEq, Eq, Structural)]
pub enum TrackDefaultSaveResult {
    Accepted,
    Retry,
    Failed,
}

/// New-track defaults written over the settings of a given revision.
#[derive(Clone, Debug, PartialEq, Eq)]
pub struct TrackDefaultsDraft {
    pub base_revision: u64,
    pub defaults: NewTrackConfiguration,
}

impl TrackDefaultsDraft {
    /// A copy of this draft.
    pub fn duplicate(&self) -> (r: Self)
        ensures
            r == *self,
    {
        let processor = match &self.defaults.processor {
            Some(p) => Some(TrackProcessorTypeId(p.0.clone())),
            None => None,
        };
        TrackDefaultsDraft {
            base_revision: self.base_revision,
            defaults: NewTrackConfiguration {
                mode: self.defaults.mode,
                audio_channels: self.defaults.audio_channels,
                midi: self.defaults.midi,
                dry_midi: self.defaults.dry_midi,
                processor,
                recording_adjustment: self.defaults.recording_adjustment,
                recording_frames: self.defaults.recording_frames,
                processor_adjustment: self.defaults.processor_adjustment,
                processor_frames: self.defaults.processor_frames,
            },
        }
    }
}

impl TrackDefaultsDraft {
    /// The same defaults written over the settings of `revision`.
    pub fn rebased_to(&self, revision: u64) -> (r: Self)
        ensures
            r == rebased(*self, revision),
    {
        let copy = self.duplicate();
        TrackDefaultsDraft { base_revision: revision, defaults: copy.defaults }
    }
}

/// The same defaults written over the active settings.
pub open spec fn rebased(draft: TrackDefaultsDraft, active_revision: u64) -> TrackDefaultsDraft {
    TrackDefaultsDraft { base_revision: active_revision, defaults: draft.defaults }
}

/// The outcome of a track creation that the application reports.
#[derive(Clone, Copy, Debug, PartialEq, Eq, Structural)]
pub struct TrackCreationResult {
    pub request_id: u64,
    pub success: bool,
}

/// The request identities of creation results.
pub open spec fn result_ids(results: Seq<TrackCreationResult>) -> Set<u64> {
    results.map_values(|r: TrackCreationResult| r.request_id).to_set()
}

/// Identities that a new request must not take: those of reported creations and of
/// remembered defaults.
pub open spec fn taken_ids(results: Seq<TrackCreationResult>, pending: Map<u64, TrackDefaultsDraft>) -> Set<
    u64,
> {
    result_ids(results).union(pending.dom())
}

/// The identity `steps` after `start`, counting on from the largest one to 0.
pub open spec fn cyclic(start: u64, steps: int) -> u64 {
    if start + steps <= u64::MAX {
        (start + steps) as u64
    } else {
        (start + steps - 0x1_0000_0000_0000_0000) as u64
    }
}

/// `id` is the first identity from `start` on, counting cyclically, that is not taken.
pub open spec fn first_free_from(start: u64, taken: Set<u64>, id: u64) -> bool {
    exists|k: int|
        0 <= k <= u64::MAX && #[trigger] cyclic(start, k) == id && !taken.contains(id) && forall|j: int|
            0 <= j < k ==> taken.contains(#[trigger] cyclic(start, j))
}

/// The identities tried in the first `steps` steps from `start`.
spec fn tried(start: u64, steps: int) -> Set<u64> {
    Set::new(|x: u64| exists|j: int| 0 <= j < steps && #[trigger] cyclic(start, j) == x)
}

proof fn lemma_tried_count(start: u64, steps: int)
    requires
        0 <= steps <= u64::MAX + 1,
    ensures
        tried(start, steps).finite(),
        tried(start, steps).len() == steps,
    decreases steps,
{
    if steps == 0 {
        assert(tried(start, 0) =~= Set::<u64>::empty());
    } else {
        lemma_tried_count(start, steps - 1);
        let last = cyclic(start, steps - 1);
        assert(tried(start, steps) =~= tried(start, steps - 1).insert(last));
        if tried(start, steps - 1).contains(last) {
            let j = choose|j: int| 0 <= j < steps - 1 && #[trigger] cyclic(start, j) == last;
            assert(cyclic(start, j) == cyclic(start, steps - 1));
        }
    }
}

proof fn lemma_taken_bound(results: Seq<TrackCreationResult>, pending: Map<u64, TrackDefaultsDraft>)
    requires
        pending.dom().finite(),
    ensures
        taken_ids(results, pending).finite(),
        taken_ids(results, pending).len() <= results.len() + pending.dom().len(),
{
    let ids = results.map_values(|r: TrackCreationResult| r.request_id);
    ids.lemma_cardinality_of_set();
    vstd::seq_lib::seq_to_set_is_finite(ids);
    vstd::set_lib::lemma_len_union(ids.to_set(), pending.dom());
    vstd::set_lib::lemma_set_union_finite_iff(ids.to_set(), pending.dom());
}

/// The remembered and confirmed requests after the creation results: a created track
/// confirms its defaults, a failed creation forgets them; results of requests without
/// remembered defaults change nothing.
pub open spec fn apply_results(
    pending: Map<u64, TrackDefaultsDraft>,
    confirmed: Set<u64>,
    results: Seq<TrackCreationResult>,
) -> (Map<u64, TrackDefaultsDraft>, Set<u64>)
    decreases results.len(),
{
    if results.len() == 0 {
        (pending, confirmed)
    } else {
        let (p, c) = apply_results(pending, confirmed, results.drop_last());
        let result = results.last();
        if !p.contains_key(result.request_id) {
            (p, c)
        } else if result.success {
            (p, c.insert(result.request_id))
        } else {
            (p.remove(result.request_id), c.remove(result.request_id))
        }
    }
}

pub open spec fn save_ids(saves: Seq<SaveTrackDefaults>) -> Seq<u64> {
    saves.map_values(|s: SaveTrackDefaults| s.request_id)
}

/// `m` is the largest element of `s`.
pub open spec fn greatest(s: Set<u64>, m: u64) -> bool {
    s.contains(m) && forall|x: u64| s.contains(x) ==> x <= m
}

/// The defaults that new tracks start from: of all accepted saves and all confirmed
/// remembered defaults, those of the latest request (the accepted ones when a request is
/// both), written over the active settings; none when there are none.
pub open spec fn effective_defaults(
    accepted: Map<u64, TrackDefaultsDraft>,
    confirmed: Set<u64>,
    pending: Map<u64, TrackDefaultsDraft>,
    active_revision: u64,
) -> Option<TrackDefaultsDraft> {
    let candidates = accepted.dom().union(confirmed.intersect(pending.dom()));
    if exists|m: u64| greatest(candidates, m) {
        let m = choose|m: u64| greatest(candidates, m);
        Some(rebased(if accepted.contains_key(m) { accepted[m] } else { pending[m] }, active_revision))
    } else {
        None
    }
}

/// A request to save track defaults.
#[derive(Clone, Debug, PartialEq, Eq)]
pub struct SaveTrackDefaults {
    pub request_id: u64,
    pub draft: TrackDefaultsDraft,
}

/// The defaults waiting for their track, waiting to be saved, and saved.
#[derive(Debug)]
pub struct TrackDefaultSaves {
    next_request_id: u64,
    pending: BTreeMap<u64, TrackDefaultsDraft>,
    confirmed: IdSet,
    accepted: BTreeMap<u64, TrackDefaultsDraft>,
    accepted_ids: IdSet,
}

impl TrackDefaultSaves {
    /// The identity that the next request tries first.
    pub closed spec fn next_request_id(self) -> u64 {
        self.next_request_id
    }

    /// Defaults remembered per request, until their save is accepted or fails.
    pub closed spec fn pending(self) -> Map<u64, TrackDefaultsDraft> {
        self.pending@
    }

    /// Requests whose track was created, so that their defaults are to be saved.
    pub closed spec fn confirmed(self) -> Set<u64> {
        self.confirmed@
    }

    /// Defaults that the settings accepted, per request.
    pub closed spec fn accepted(self) -> Map<u64, TrackDefaultsDraft> {
        self.accepted@
    }

    /// The accepted requests, listed in ascending order.
    pub closed spec fn wf(self) -> bool {
        &&& self.accepted_ids@ == self.accepted@.dom()
        &&& self.pending@.dom().finite()
        &&& self.confirmed@.subset_of(self.pending@.dom())
    }

    /// Only remembered defaults are confirmed.
    pub proof fn lemma_confirmed_are_pending(self)
        requires
            self.wf(),
        ensures
            self.confirmed().subset_of(self.pending().dom()),
    {
    }

    /// Nothing remembered; the first request tries identity 1.
    pub fn new() -> (r: Self)
        ensures
            r.wf(),
            r.next_request_id() == 1,
            r.pending() == Map::<u64, TrackDefaultsDraft>::empty(),
            r.confirmed() == Set::<u64>::empty(),
            r.accepted() == Map::<u64, TrackDefaultsDraft>::empty(),
    {
        let r = TrackDefaultSaves {
            next_request_id: 1,
            pending: BTreeMap::new(),
            confirmed: IdSet::new(),
            accepted: BTreeMap::new(),
            accepted_ids: IdSet::new(),
        };
        assert(r.accepted@.dom() =~= Set::<u64>::empty());
        r
    }

    /// Whether a new request may not take `id`.
    fn request_id_taken(&self, results: &Vec<TrackCreationResult>, id: u64) -> (r: bool)
        ensures
            r == taken_ids(results@, self.pending@).contains(id),
    {
        let ghost ids = results@.map_values(|r: TrackCreationResult| r.request_id);
        let mut i: usize = 0;
        while i < results.len()
            invariant
                i <= results@.len(),
                ids == results@.map_values(|r: TrackCreationResult| r.request_id),
                forall|k: int| 0 <= k < i ==> ids[k] != id,
            decreases results@.len() - i,
        {
            if results[i].request_id == id {
                assert(ids[i as int] == id);
                assert(ids.to_set().contains(id));
                return true;
            }
            i = i + 1;
        }
        assert(!ids.contains(id));
        self.pending.contains_key(&id)
    }

    /// Remembers the defaults of a new track request under a fresh identity and returns it: the
    /// first identity from the next one on, counting on cyclically, that no reported creation
    /// and no remembered defaults use. The next request starts after it.
    pub fn register_defaults(&mut self, results: &Vec<TrackCreationResult>, draft: TrackDefaultsDraft) -> (r:
        u64)
        requires
            old(self).wf(),
            results@.len() + old(self).pending().dom().len() <= u64::MAX,
        ensures
            final(self).wf(),
            first_free_from(old(self).next_request_id(), taken_ids(results@, old(self).pending()), r),
            !taken_ids(results@, old(self).pending()).contains(r),
            final(self).next_request_id() == cyclic(r, 1),
            final(self).pending() == old(self).pending().insert(r, draft),
            final(self).confirmed() == old(self).confirmed(),
            final(self).accepted() == old(self).accepted(),
    {
        let ghost taken = taken_ids(results@, self.pending@);
        let ghost start = self.next_request_id;
        let ghost mut steps: int = 0;
        proof {
            lemma_taken_bound(results@, self.pending@);
        }
        while self.request_id_taken(results, self.next_request_id)
            invariant
                taken == taken_ids(results@, self.pending@),
                taken.finite(),
                taken.len() <= u64::MAX,
                self.pending@ == old(self).pending@,
                self.confirmed@ == old(self).confirmed@,
                self.accepted@ == old(self).accepted@,
                self.accepted_ids@ == old(self).accepted_ids@,
                0 <= steps <= taken.len(),
                self.next_request_id == cyclic(start, steps),
                forall|j: int| 0 <= j < steps ==> taken.contains(#[trigger] cyclic(start, j)),
            decreases taken.len() - steps,
        {
            proof {
                assert(taken.contains(cyclic(start, steps)));
                lemma_tried_count(start, steps + 1);
                assert(tried(start, steps + 1).subset_of(taken));
                vstd::set_lib::lemma_len_subset(tried(start, steps + 1), taken);
            }
            self.next_request_id = self.next_request_id.wrapping_add(1);
            proof {
                steps = steps + 1;
            }
        }
        let request_id = self.next_request_id;
        proof {
            assert(cyclic(start, steps) == request_id);
        }
        self.next_request_id = request_id.wrapping_add(1);
        self.pending.insert(request_id, draft);
        request_id
    }

    /// Takes in the creation results (see `apply_results`), then, unless the settings are being
    /// saved or need recovery, writes the defaults of every confirmed request over the active
    /// settings and asks to save them, in ascending order of request.
    pub fn resolve_saves(
        &mut self,
        results: &Vec<TrackCreationResult>,
        saving: bool,
        recovery_required: bool,
        active_revision: u64,
    ) -> (r: Vec<SaveTrackDefaults>)
        requires
            old(self).wf(),
        ensures
            final(self).wf(),
            final(self).next_request_id() == old(self).next_request_id(),
            final(self).accepted() == old(self).accepted(),
            ({
                let (p, c) = apply_results(old(self).pending(), old(self).confirmed(), results@);
                &&& final(self).confirmed() == c
                &&& if saving || recovery_required {
                    final(self).pending() == p && r@.len() == 0
                } else {
                    &&& final(self).pending().dom() == p.dom()
                    &&& forall|k: u64| #[trigger] p.contains_key(k) ==> final(self).pending()[k] == if c.contains(k) {
                        rebased(p[k], active_revision)
                    } else {
                        p[k]
                    }
                    &&& strictly_ascending(save_ids(r@))
                    &&& save_ids(r@).to_set() == c.intersect(p.dom())
                    &&& forall|i: int| 0 <= i < r@.len() ==> #[trigger] r@[i].draft == rebased(
                        p[r@[i].request_id],
                        active_revision,
                    )
                }
            }),
    {
        let mut i: usize = 0;
        while i < results.len()
            invariant
                i <= results@.len(),
                self.wf(),
                self.next_request_id == old(self).next_request_id,
                self.accepted@ == old(self).accepted@,
                self.accepted_ids@ == old(self).accepted_ids@,
                (self.pending@, self.confirmed@) == apply_results(
                    old(self).pending(),
                    old(self).confirmed(),
                    results@.take(i as int),
                ),
            decreases results@.len() - i,
        {
            proof {
                assert(results@.take(i as int + 1).drop_last() =~= results@.take(i as int));
            }
            let result = results[i];
            if self.pending.contains_key(&result.request_id) {
                if result.success {
                    self.confirmed.insert(result.request_id);
                } else {
                    self.pending.remove(&result.request_id);
                    self.confirmed.remove(result.request_id);
                }
            }
            i = i + 1;
        }
        proof {
            assert(results@.take(i as int) =~= results@);
        }
        let mut saves: Vec<SaveTrackDefaults> = Vec::new();
        if saving || recovery_required {
            return saves;
        }
        let ghost p = self.pending@;
        let ghost c = self.confirmed@;
        let ids = self.confirmed.to_vec();
        let mut j: usize = 0;
        while j < ids.len()
            invariant
                j <= ids@.len(),
                strictly_ascending(ids@),
                ids@.to_set() == c,
                self.wf(),
                self.next_request_id == old(self).next_request_id,
                self.accepted@ == old(self).accepted@,
                self.accepted_ids@ == old(self).accepted_ids@,
                self.confirmed@ == c,
                self.pending@.dom() == p.dom(),
                forall|k: u64| #[trigger] p.contains_key(k) ==> self.pending@[k] == if ids@.take(
                    j as int,
                ).contains(k) {
                    rebased(p[k], active_revision)
                } else {
                    p[k]
                },
                strictly_ascending(save_ids(saves@)),
                forall|n: int| 0 <= n < saves@.len() ==> ids@.take(j as int).contains(#[trigger] save_ids(saves@)[n]),
                save_ids(saves@).to_set() == ids@.take(j as int).to_set().intersect(p.dom()),
                forall|n: int| 0 <= n < saves@.len() ==> p.contains_key(#[trigger] save_ids(saves@)[n]),
                forall|n: int| 0 <= n < saves@.len() ==> #[trigger] saves@[n].draft == rebased(
                    p[saves@[n].request_id],
                    active_revision,
                ),
            decreases ids@.len() - j,
        {
            let id = ids[j];
            let ghost before = saves@;
            proof {
                assert(ids@.take(j as int + 1) =~= ids@.take(j as int).push(id));
                ids@.take(j as int).lemma_push_to_set_commute(id);
                assert(!ids@.take(j as int).contains(id)) by {
                    if ids@.take(j as int).contains(id) {
                        let m = choose|m: int| 0 <= m < j && ids@.take(j as int)[m] == id;
                        assert(ids@[m] < ids@[j as int]);
                    }
                }
            }
            match self.pending.get(&id) {
                Some(draft) => {
                    let fresh = draft.rebased_to(active_revision);
                    let saved = fresh.duplicate();
                    self.pending.insert(id, fresh);
                    saves.push(SaveTrackDefaults { request_id: id, draft: saved });
                    proof {
                        assert(save_ids(saves@) =~= save_ids(before).push(id));
                        assert(ids@.take(j as int + 1)[j as int] == id);
                        assert forall|x: u64| ids@.take(j as int).contains(x) implies ids@.take(j as int + 1).contains(x) by {
                            let m = choose|m: int| 0 <= m < j && ids@.take(j as int)[m] == x;
                            assert(ids@.take(j as int + 1)[m] == x);
                        }
                        save_ids(before).lemma_push_to_set_commute(id);
                        assert forall|n: int| 0 <= n < before.len() implies save_ids(before)[n] < id by {
                            let x = save_ids(before)[n];
                            assert(ids@.take(j as int).contains(x));
                            let m = choose|m: int| 0 <= m < j && ids@.take(j as int)[m] == x;
                            assert(ids@[m] < ids@[j as int]);
                        }
                    }
                },
                None => {
                    proof {
                        assert(save_ids(saves@) =~= save_ids(before));
                    }
                },
            }
            proof {
                assert forall|x: u64| ids@.take(j as int).contains(x) implies ids@.take(j as int + 1).contains(x) by {
                    let m = choose|m: int| 0 <= m < j && ids@.take(j as int)[m] == x;
                    assert(ids@.take(j as int + 1)[m] == x);
                }
                assert forall|k: u64| ids@.take(j as int + 1).contains(k) <==> (ids@.take(j as int).contains(k) || k == id) by {
                    if ids@.take(j as int + 1).contains(k) {
                        let m = choose|m: int| 0 <= m < j + 1 && #[trigger] ids@.take(j as int + 1)[m] == k;
                        if m < j {
                            assert(ids@.take(j as int)[m] == k);
                        }
                    }
                    if k == id {
                        assert(ids@.take(j as int + 1)[j as int] == id);
                    }
                }
            }
            j = j + 1;
            proof {
                assert(save_ids(saves@).to_set() =~= ids@.take(j as int).to_set().intersect(p.dom()));
            }
        }
        proof {
            assert(ids@.take(j as int) =~= ids@);
            assert(self.pending@.dom() =~= p.dom());
        }
        saves
    }

    /// The defaults that new tracks start from (see `effective_defaults`); none means the
    /// active settings as they are.
    pub fn effective_defaults(&self, active_revision: u64) -> (r: Option<TrackDefaultsDraft>)
        requires
            self.wf(),
        ensures
            r == effective_defaults(self.accepted(), self.confirmed(), self.pending(), active_revision),
    {
        let ghost a = self.accepted@.dom();
        let ghost p = self.pending@;
        let accepted_ids = self.accepted_ids.to_vec();
        let mut selected: Option<(u64, bool)> = None;
        if accepted_ids.len() > 0 {
            let last = accepted_ids[accepted_ids.len() - 1];
            proof {
                let n = accepted_ids@.len() - 1;
                assert(accepted_ids@.contains(last));
                assert forall|x: u64| a.contains(x) implies x <= last by {
                    let m = choose|m: int| 0 <= m < accepted_ids@.len() && accepted_ids@[m] == x;
                    if m < n {
                        assert(accepted_ids@[m] < accepted_ids@[n]);
                    }
                }
            }
            selected = Some((last, true));
        } else {
            assert(a =~= Set::<u64>::empty()) by {
                assert forall|x: u64| !a.contains(x) by {
                    if a.contains(x) {
                        assert(accepted_ids@.contains(x));
                    }
                }
            }
        }
        let ids = self.confirmed.to_vec();
        let mut j: usize = 0;
        while j < ids.len()
            invariant
                j <= ids@.len(),
                strictly_ascending(ids@),
                ids@.to_set() == self.confirmed@,
                a == self.accepted@.dom(),
                p == self.pending@,
                ({
                    let candidates = a.union(ids@.take(j as int).to_set().intersect(p.dom()));
                    match selected {
                        None => candidates == Set::<u64>::empty(),
                        Some((m, from_accepted)) => greatest(candidates, m) && from_accepted == a.contains(m),
                    }
                }),
            decreases ids@.len() - j,
        {
            let id = ids[j];
            let ghost before = a.union(ids@.take(j as int).to_set().intersect(p.dom()));
            let ghost after = a.union(ids@.take(j as int + 1).to_set().intersect(p.dom()));
            proof {
                assert(ids@.take(j as int + 1) =~= ids@.take(j as int).push(id));
                ids@.take(j as int).lemma_push_to_set_commute(id);
                if p.contains_key(id) {
                    assert(after =~= before.insert(id));
                } else {
                    assert(after =~= before);
                }
            }
            if self.pending.contains_key(&id) {
                match selected {
                    None => {
                        selected = Some((id, false));
                        proof {
                            assert(before =~= Set::<u64>::empty());
                            if a.contains(id) {
                                assert(before.contains(id));
                            }
                            assert(greatest(after, id));
                        }
                    },
                    Some((m, from_accepted)) => {
                        if id > m {
                            selected = Some((id, false));
                            proof {
                                if a.contains(id) {
                                    assert(before.contains(id));
                                }
                                assert(greatest(after, id));
                            }
                        } else {
                            proof {
                                assert(greatest(after, m));
                            }
                        }
                    },
                }
            }
            j = j + 1;
        }
        proof {
            assert(ids@.take(j as int) =~= ids@);
        }
        match selected {
            None => {
                proof {
                    let candidates = a.union(self.confirmed@.intersect(p.dom()));
                    assert(!exists|m: u64| greatest(candidates, m));
                }
                None
            },
            Some((m, from_accepted)) => {
                let ghost candidates = a.union(self.confirmed@.intersect(p.dom()));
                proof {
                    let chosen = choose|x: u64| greatest(candidates, x);
                    assert(greatest(candidates, chosen));
                    assert(chosen <= m && m <= chosen);
                }
                if from_accepted {
                    match self.accepted.get(&m) {
                        Some(draft) => Some(draft.rebased_to(active_revision)),
                        None => None,
                    }
                } else {
                    match self.pending.get(&m) {
                        Some(draft) => Some(draft.rebased_to(active_revision)),
                        None => None,
                    }
                }
            },
        }
    }

    /// Forgets accepted defaults that were written over settings other than the active ones.
    pub fn reconcile_accepted(&mut self, active_revision: u64)
        requires
            old(self).wf(),
        ensures
            final(self).wf(),
            final(self).next_request_id() == old(self).next_request_id(),
            final(self).pending() == old(self).pending(),
            final(self).confirmed() == old(self).confirmed(),
            forall|k: u64| #[trigger] final(self).accepted().contains_key(k) <==> (old(self).accepted().contains_key(k)
                && old(self).accepted()[k].base_revision == active_revision),
            forall|k: u64| #[trigger] final(self).accepted().contains_key(k) ==> final(self).accepted()[k] == old(
                self,
            ).accepted()[k],
    {
        let ids = self.accepted_ids.to_vec();
        let mut j: usize = 0;
        while j < ids.len()
            invariant
                j <= ids@.len(),
                ids@.to_set() == old(self).accepted@.dom(),
                self.wf(),
                self.next_request_id == old(self).next_request_id,
                self.pending@ == old(self).pending@,
                self.confirmed@ == old(self).confirmed@,
                forall|k: u64| #[trigger] self.accepted@.contains_key(k) <==> (old(self).accepted@.contains_key(k)
                    && (ids@.take(j as int).contains(k) ==> old(self).accepted@[k].base_revision == active_revision)),
                forall|k: u64| #[trigger] self.accepted@.contains_key(k) ==> self.accepted@[k] == old(self).accepted@[k],
            decreases ids@.len() - j,
        {
            let id = ids[j];
            let stale = match self.accepted.get(&id) {
                Some(draft) => draft.base_revision != active_revision,
                None => false,
            };
            if stale {
                self.accepted.remove(&id);
                self.accepted_ids.remove(id);
            }
            proof {
                assert forall|k: u64| ids@.take(j as int + 1).contains(k) <==> (ids@.take(j as int).contains(k) || k == id) by {
                    if ids@.take(j as int + 1).contains(k) {
                        let m = choose|m: int| 0 <= m < j + 1 && #[trigger] ids@.take(j as int + 1)[m] == k;
                        if m < j {
                            assert(ids@.take(j as int)[m] == k);
                        }
                    }
                    if ids@.take(j as int).contains(k) {
                        let m = choose|m: int| 0 <= m < j && #[trigger] ids@.take(j as int)[m] == k;
                        assert(ids@.take(j as int + 1)[m] == k);
                    }
                    if k == id {
                        assert(ids@.take(j as int + 1)[j as int] == id);
                    }
                }
                assert(self.accepted_ids@ =~= self.accepted@.dom());
            }
            j = j + 1;
        }
        proof {
            assert(ids@.take(j as int) =~= ids@);
        }
    }

    /// The settings answered the save of request `request_id`: an accepted save moves its
    /// defaults to the accepted ones, a failed one forgets them everywhere, and a save to retry
    /// changes nothing.
    pub fn notify_save_result(&mut self, request_id: u64, result: TrackDefaultSaveResult)
        requires
            old(self).wf(),
        ensures
            final(self).wf(),
            final(self).next_request_id() == old(self).next_request_id(),
            match result {
                TrackDefaultSaveResult::Accepted => {
                    &&& final(self).pending() == old(self).pending().remove(request_id)
                    &&& final(self).confirmed() == old(self).confirmed().remove(request_id)
                    &&& final(self).accepted() == if old(self).pending().contains_key(request_id) {
                        old(self).accepted().insert(request_id, old(self).pending()[request_id])
                    } else {
                        old(self).accepted()
                    }
                },
                TrackDefaultSaveResult::Retry => {
                    &&& final(self).pending() == old(self).pending()
                    &&& final(self).confirmed() == old(self).confirmed()
                    &&& final(self).accepted() == old(self).accepted()
                },
                TrackDefaultSaveResult::Failed => {
                    &&& final(self).pending() == old(self).pending().remove(request_id)
                    &&& final(self).confirmed() == old(self).confirmed().remove(request_id)
                    &&& final(self).accepted() == old(self).accepted().remove(request_id)
                },
            },
    {
        match result {
            TrackDefaultSaveResult::Accepted => {
                match self.pending.remove(&request_id) {
                    Some(draft) => {
                        self.accepted.insert(request_id, draft);
                        self.accepted_ids.insert(request_id);
                    },
                    None => {},
                }
                self.confirmed.remove(request_id);
            },
            TrackDefaultSaveResult::Retry => {},
            TrackDefaultSaveResult::Failed => {
                self.pending.remove(&request_id);
                self.confirmed.remove(request_id);
                self.accepted.remove(&request_id);
                self.accepted_ids.remove(request_id);
            },
        }
        proof {
            assert(self.accepted_ids@ =~= self.accepted@.dom());
        }
    }
}

/// Once the save of the latest defaults is accepted, they are the defaults that new tracks
/// start from.
pub proof fn lemma_accepted_save_becomes_effective(
    accepted: Map<u64, TrackDefaultsDraft>,
    confirmed: Set<u64>,
    pending: Map<u64, TrackDefaultsDraft>,
    request_id: u64,
    active_revision: u64,
)
    requires
        pending.contains_key(request_id),
        forall|x: u64| accepted.contains_key(x) ==> x <= request_id,
        forall|x: u64| confirmed.contains(x) && pending.contains_key(x) ==> x <= request_id,
    ensures
        effective_defaults(
            accepted.insert(request_id, pending[request_id]),
            confirmed.remove(request_id),
            pending.remove(request_id),
            active_revision,
        ) == Some(rebased(pending[request_id], active_revision)),
{
    let a = accepted.insert(request_id, pending[request_id]);
    let p = pending.remove(request_id);
    let candidates = a.dom().union(confirmed.remove(request_id).intersect(p.dom()));
    assert(greatest(candidates, request_id));
    let m = choose|m: u64| greatest(candidates, m);
    assert(m == request_id);
}

/// A reported failure of a track creation discards the defaults remembered for it, unless a
/// later result reports on the same request: they are neither remembered nor confirmed, so
/// they are never saved.
pub proof fn lemma_failed_creation_discards_defaults(
    pending: Map<u64, TrackDefaultsDraft>,
    confirmed: Set<u64>,
    results: Seq<TrackCreationResult>,
    k: int,
)
    requires
        confirmed.subset_of(pending.dom()),
        0 <= k < results.len(),
        !results[k].success,
        forall|j: int| k < j < results.len() ==> (#[trigger] results[j]).request_id != results[k].request_id,
    ensures
        !apply_results(pending, confirmed, results).0.contains_key(results[k].request_id),
        !apply_results(pending, confirmed, results).1.contains(results[k].request_id),
    decreases results.len(),
{
    lemma_results_keep_confirmed_pending(pending, confirmed, results.drop_last());
    if k < results.len() - 1 {
        lemma_failed_creation_discards_defaults(pending, confirmed, results.drop_last(), k);
        assert(results.last() == results[results.len() - 1]);
    }
}

proof fn lemma_results_keep_confirmed_pending(
    pending: Map<u64, TrackDefaultsDraft>,
    confirmed: Set<u64>,
    results: Seq<TrackCreationResult>,
)
    requires
        confirmed.subset_of(pending.dom()),
    ensures
        apply_results(pending, confirmed, results).1.subset_of(apply_results(pending, confirmed, results).0.dom()),
    decreases results.len(),
{
    if results.len() > 0 {
        lemma_results_keep_confirmed_pending(pending, confirmed, results.drop_last());
    }
}

} // verus!
