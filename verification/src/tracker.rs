//! Track lifecycle manager.
//!
//! The external matcher owns the track table and assigns every track its
//! identity; this module keeps an overlay of domain metadata (class name,
//! confidence, registration and last-seen times) keyed by those identities.
//! Once per frame, after matching, `match_objects` ingests the matcher's
//! table, registers or refreshes metadata for every matched detection, and
//! purges metadata whose identity vanished from the table — the metadata key
//! set is always a subset of the track table's key set afterwards.

use vstd::prelude::*;

use crate::clock::{now_unix, UNIX_TIME_BOUND};
use crate::detection::Detections;
use crate::events::{EventBBox, EventPOI};

verus! {

/// One row of the externally-owned track table, as observed after matching:
/// the identity the matcher assigned, the current box and center in frame
/// pixels, and how many consecutive frames the track went unmatched.
#[derive(Clone, Copy, Debug, PartialEq, Eq, Structural)]
pub struct TrackObs {
    pub id: u128,
    pub bbox: EventBBox,
    pub center: EventPOI,
    pub no_match_times: usize,
}

/// Domain metadata attached to one track identity. `register_unix_tm` is set
/// at first observation and never changes; re-observation refreshes only the
/// `updated_*` fields. The relative fields hold stream time in milliseconds.
#[derive(Debug)]
pub struct ObjectExtra {
    pub class_name: String,
    pub confidence: u32,
    pub register_unix_tm: i64,
    pub register_relative_second: u64,
    pub updated_unix_tm: i64,
    pub updated_relative_second: u64,
}

/// Timestamps fit the wall-clock range, so lifetime arithmetic cannot
/// overflow.
pub open spec fn extra_wf(e: ObjectExtra) -> bool {
    &&& -UNIX_TIME_BOUND <= e.register_unix_tm <= UNIX_TIME_BOUND
    &&& -UNIX_TIME_BOUND <= e.updated_unix_tm <= UNIX_TIME_BOUND
}

/// Seconds between first and most recent observation.
pub open spec fn spec_lifetime(e: ObjectExtra) -> int {
    if e.updated_unix_tm >= e.register_unix_tm {
        e.updated_unix_tm - e.register_unix_tm
    } else {
        e.register_unix_tm - e.updated_unix_tm
    }
}

impl ObjectExtra {
    pub fn get_classname(&self) -> (r: String)
        ensures
            r@ == self.class_name@,
    {
        self.class_name.clone()
    }

    pub fn get_confidence(&self) -> (r: u32)
        ensures
            r == self.confidence,
    {
        self.confidence
    }

    pub fn get_lifetime(&self) -> (r: i64)
        requires
            extra_wf(*self),
        ensures
            r == spec_lifetime(*self),
    {
        let d = self.updated_unix_tm - self.register_unix_tm;
        if d < 0 {
            -d
        } else {
            d
        }
    }

    pub fn get_register_time(&self) -> (r: i64)
        ensures
            r == self.register_unix_tm,
    {
        self.register_unix_tm
    }
}

/// A metadata entry: one identity and its attached metadata.
#[derive(Debug)]
pub struct ExtraEntry {
    pub id: u128,
    pub extra: ObjectExtra,
}

pub open spec fn unique_extra_ids(s: Seq<ExtraEntry>) -> bool {
    forall|i: int, j: int| 0 <= i < j < s.len() ==> s[i].id != s[j].id
}

pub open spec fn unique_obs_ids(s: Seq<TrackObs>) -> bool {
    forall|i: int, j: int| 0 <= i < j < s.len() ==> s[i].id != s[j].id
}

pub open spec fn has_extra(s: Seq<ExtraEntry>, id: u128) -> bool {
    exists|i: int| 0 <= i < s.len() && s[i].id == id
}

pub open spec fn obs_contains(s: Seq<TrackObs>, id: u128) -> bool {
    exists|i: int| 0 <= i < s.len() && s[i].id == id
}

/// The metadata attached to `id`: the first matching entry.
pub open spec fn find_extra(s: Seq<ExtraEntry>, id: u128) -> Option<ObjectExtra>
    decreases s.len(),
{
    if s.len() == 0 {
        None
    } else if s[0].id == id {
        Some(s[0].extra)
    } else {
        find_extra(s.drop_first(), id)
    }
}

/// `find_extra` finds an entry exactly when one exists, and in a
/// duplicate-free table it returns the metadata of whichever entry holds the
/// identity.
pub proof fn lemma_find_extra(s: Seq<ExtraEntry>, id: u128)
    ensures
        (find_extra(s, id) is Some) <==> has_extra(s, id),
        unique_extra_ids(s) ==> forall|i: int|
            0 <= i < s.len() && (#[trigger] s[i]).id == id ==> find_extra(s, id) == Some(
                s[i].extra,
            ),
    decreases s.len(),
{
    if s.len() > 0 {
        let tail = s.drop_first();
        lemma_find_extra(tail, id);
        assert(forall|j: int| 0 <= j < tail.len() ==> #[trigger] tail[j] == s[j + 1]);
        if s[0].id != id {
            assert(has_extra(s, id) ==> has_extra(tail, id)) by {
                if has_extra(s, id) {
                    let w = choose|i: int| 0 <= i < s.len() && s[i].id == id;
                    assert(tail[w - 1].id == id);
                }
            }
            assert(has_extra(tail, id) ==> has_extra(s, id)) by {
                if has_extra(tail, id) {
                    let w = choose|i: int| 0 <= i < tail.len() && tail[i].id == id;
                    assert(s[w + 1].id == id);
                }
            }
            if unique_extra_ids(s) {
                assert(unique_extra_ids(tail));
                assert forall|i: int|
                    0 <= i < s.len() && (#[trigger] s[i]).id == id implies find_extra(s, id)
                    == Some(s[i].extra) by {
                    assert(i >= 1);
                    assert(tail[i - 1] == s[i]);
                }
            }
        } else {
            assert(has_extra(s, id)) by {
                assert(s[0].id == id);
            }
            if unique_extra_ids(s) {
                assert forall|i: int|
                    0 <= i < s.len() && (#[trigger] s[i]).id == id implies find_extra(s, id)
                    == Some(s[i].extra) by {
                    if i > 0 {
                        assert(s[0].id != s[i].id);
                    }
                }
            }
        }
    }
}

/// Index of the first occurrence of `id`, or -1 when absent.
pub open spec fn first_index(ids: Seq<u128>, id: u128) -> int
    decreases ids.len(),
{
    if ids.len() == 0 {
        -1
    } else if ids[0] == id {
        0
    } else {
        let r = first_index(ids.drop_first(), id);
        if r < 0 {
            -1
        } else {
            r + 1
        }
    }
}

pub proof fn lemma_first_index(ids: Seq<u128>, id: u128)
    ensures
        ids.contains(id) ==> {
            let k = first_index(ids, id);
            &&& 0 <= k < ids.len()
            &&& ids[k] == id
            &&& forall|j: int| 0 <= j < k ==> ids[j] != id
        },
        !ids.contains(id) ==> first_index(ids, id) == -1,
    decreases ids.len(),
{
    if ids.len() > 0 {
        if ids[0] != id {
            lemma_first_index(ids.drop_first(), id);
            assert(forall|j: int|
                0 <= j < ids.len() - 1 ==> #[trigger] ids.drop_first()[j] == ids[j + 1]);
            assert(ids.contains(id) ==> ids.drop_first().contains(id)) by {
                if ids.contains(id) {
                    let w = choose|i: int| 0 <= i < ids.len() && ids[i] == id;
                    assert(ids.drop_first()[w - 1] == id);
                }
            }
            assert(ids.drop_first().contains(id) ==> ids.contains(id)) by {
                if ids.drop_first().contains(id) {
                    let w = choose|i: int|
                        0 <= i < ids.drop_first().len() && ids.drop_first()[i] == id;
                    assert(ids[w + 1] == id);
                }
            }
            if ids.contains(id) {
                let k = first_index(ids, id);
                let kd = first_index(ids.drop_first(), id);
                assert(k == kd + 1);
                assert(forall|j: int| 0 <= j < kd ==> ids.drop_first()[j] != id);
                assert forall|j: int| 1 <= j < k implies ids[j] != id by {
                    assert(ids.drop_first()[j - 1] == ids[j]);
                    assert(ids.drop_first()[j - 1] != id);
                }
            }
        } else {
            assert(ids.contains(id)) by {
                assert(ids[0] == id);
            }
        }
    }
}

/// Metadata refreshed on re-observation: only the `updated_*` fields move;
/// class, confidence and registration stay as first recorded.
pub open spec fn extra_updated(e0: ObjectExtra, e1: ObjectExtra, now: int, rel: u64) -> bool {
    &&& e1.class_name@ == e0.class_name@
    &&& e1.confidence == e0.confidence
    &&& e1.register_unix_tm == e0.register_unix_tm
    &&& e1.register_relative_second == e0.register_relative_second
    &&& e1.updated_unix_tm == now
    &&& e1.updated_relative_second == rel
}

/// Metadata as first recorded for a brand-new identity.
pub open spec fn extra_fresh(
    e: ObjectExtra,
    class_name: Seq<char>,
    confidence: u32,
    now: int,
    rel: u64,
) -> bool {
    &&& e.class_name@ == class_name
    &&& e.confidence == confidence
    &&& e.register_unix_tm == now
    &&& e.register_relative_second == rel
    &&& e.updated_unix_tm == now
    &&& e.updated_relative_second == rel
}

/// Full relation between the manager's state before and after one
/// reconciliation at wall-clock time `now`.
pub open spec fn reconciled(
    t0: Tracker,
    t1: Tracker,
    observations: Seq<TrackObs>,
    assigned: Seq<u128>,
    class_names: Seq<String>,
    confidences: Seq<u32>,
    rel: u64,
    now: int,
) -> bool {
    &&& t1.objects@ == observations
    // an identity holds metadata afterwards exactly when it is in the track
    // table and either already held metadata or was matched this frame
    &&& forall|id: u128| #[trigger]
        has_extra(t1.objects_extra@, id) <==> (obs_contains(observations, id) && (has_extra(
            t0.objects_extra@,
            id,
        ) || assigned.contains(id)))
    // surviving entries: refreshed when re-observed, untouched otherwise
    &&& forall|i: int, j: int|
        #![trigger t0.objects_extra@[i], t1.objects_extra@[j]]
        0 <= i < t0.objects_extra@.len() && 0 <= j < t1.objects_extra@.len()
            && t0.objects_extra@[i].id == t1.objects_extra@[j].id ==> (if assigned.contains(
            t0.objects_extra@[i].id,
        ) {
            extra_updated(t0.objects_extra@[i].extra, t1.objects_extra@[j].extra, now, rel)
        } else {
            t1.objects_extra@[j].extra == t0.objects_extra@[i].extra
        })
    // brand-new entries carry the matched detection's class and confidence
    // and both timestamps set to now
    &&& forall|j: int|
        0 <= j < t1.objects_extra@.len() && !has_extra(
            t0.objects_extra@,
            #[trigger] t1.objects_extra@[j].id,
        ) ==> {
            let k = first_index(assigned, t1.objects_extra@[j].id);
            &&& assigned.contains(t1.objects_extra@[j].id)
            &&& 0 <= k < class_names.len()
            &&& k < confidences.len()
            &&& extra_fresh(
                t1.objects_extra@[j].extra,
                class_names[k]@,
                confidences[k],
                now,
                rel,
            )
        }
}

/// The track lifecycle manager: a snapshot of the external track table and
/// the metadata overlay keyed by track identity.
#[derive(Debug)]
pub struct Tracker {
    pub objects: Vec<TrackObs>,
    pub objects_extra: Vec<ExtraEntry>,
}

impl Tracker {
    /// Both tables hold each identity at most once, every metadata identity
    /// is present in the track table, and all timestamps are in clock range.
    pub open spec fn wf(self) -> bool {
        &&& unique_obs_ids(self.objects@)
        &&& unique_extra_ids(self.objects_extra@)
        &&& forall|j: int|
            0 <= j < self.objects_extra@.len() ==> obs_contains(
                self.objects@,
                #[trigger] self.objects_extra@[j].id,
            )
        &&& forall|j: int|
            0 <= j < self.objects_extra@.len() ==> extra_wf(
                #[trigger] self.objects_extra@[j].extra,
            )
    }

    pub fn new() -> (r: Tracker)
        ensures
            r.objects@.len() == 0,
            r.objects_extra@.len() == 0,
            r.wf(),
    {
        Tracker { objects: Vec::new(), objects_extra: Vec::new() }
    }

    /// Ingests the matcher's updated track table and reconciles the metadata
    /// overlay against it, stamping times from the wall clock.
    ///
    /// `assigned_ids[k]` is the identity the matcher assigned to detection
    /// `k`; class and confidence for a new identity come from its first
    /// matched detection.
    pub fn match_objects(
        &mut self,
        observations: Vec<TrackObs>,
        assigned_ids: &Vec<u128>,
        detections: &Detections,
        current_relative_second: u64,
    )
        requires
            old(self).wf(),
            unique_obs_ids(observations@),
            assigned_ids@.len() == detections.blobs@.len(),
            detections.class_names@.len() == detections.blobs@.len(),
            detections.confidences@.len() == detections.blobs@.len(),
        ensures
            final(self).wf(),
            exists|now: int|
                -UNIX_TIME_BOUND <= now <= UNIX_TIME_BOUND && reconciled(
                    *old(self),
                    *final(self),
                    observations@,
                    assigned_ids@,
                    detections.class_names@,
                    detections.confidences@,
                    current_relative_second,
                    now,
                ),
    {
        let now = now_unix();
        self.reconcile_at(observations, assigned_ids, detections, current_relative_second, now);
    }

    /// The reconciliation step at a given wall-clock time: update or insert
    /// metadata for every matched detection, then purge every entry whose
    /// identity is no longer in the track table.
    pub fn reconcile_at(
        &mut self,
        observations: Vec<TrackObs>,
        assigned_ids: &Vec<u128>,
        detections: &Detections,
        current_relative_second: u64,
        now: i64,
    )
        requires
            old(self).wf(),
            unique_obs_ids(observations@),
            assigned_ids@.len() == detections.blobs@.len(),
            detections.class_names@.len() == detections.blobs@.len(),
            detections.confidences@.len() == detections.blobs@.len(),
            -UNIX_TIME_BOUND <= now <= UNIX_TIME_BOUND,
        ensures
            final(self).wf(),
            reconciled(
                *old(self),
                *final(self),
                observations@,
                assigned_ids@,
                detections.class_names@,
                detections.confidences@,
                current_relative_second,
                now as int,
            ),
    {
        let ghost extras0 = self.objects_extra@;
        let ghost assigned = assigned_ids@;
        let ghost obs0 = observations@;
        self.objects = observations;

        let n = assigned_ids.len();
        let mut idx: usize = 0;
        while idx < n
            invariant
                self.objects@ == obs0,
                n == assigned.len(),
                idx <= n,
                assigned == assigned_ids@,
                detections.class_names@.len() == n,
                detections.confidences@.len() >= n,
                -UNIX_TIME_BOUND <= now <= UNIX_TIME_BOUND,
                unique_extra_ids(extras0),
                forall|j: int| 0 <= j < extras0.len() ==> extra_wf(#[trigger] extras0[j].extra),
                unique_extra_ids(self.objects_extra@),
                forall|j: int|
                    0 <= j < self.objects_extra@.len() ==> extra_wf(
                        #[trigger] self.objects_extra@[j].extra,
                    ),
                forall|id: u128| #[trigger]
                    has_extra(self.objects_extra@, id) <==> (has_extra(extras0, id)
                        || assigned.take(idx as int).contains(id)),
                forall|i: int, j: int|
                    #![trigger extras0[i], self.objects_extra@[j]]
                    0 <= i < extras0.len() && 0 <= j < self.objects_extra@.len()
                        && extras0[i].id == self.objects_extra@[j].id ==> (if assigned.take(
                        idx as int,
                    ).contains(extras0[i].id) {
                        extra_updated(
                            extras0[i].extra,
                            self.objects_extra@[j].extra,
                            now as int,
                            current_relative_second,
                        )
                    } else {
                        self.objects_extra@[j].extra == extras0[i].extra
                    }),
                forall|j: int|
                    0 <= j < self.objects_extra@.len() && !has_extra(
                        extras0,
                        #[trigger] self.objects_extra@[j].id,
                    ) ==> {
                        let k = first_index(assigned, self.objects_extra@[j].id);
                        &&& assigned.take(idx as int).contains(self.objects_extra@[j].id)
                        &&& 0 <= k < idx
                        &&& extra_fresh(
                            self.objects_extra@[j].extra,
                            detections.class_names@[k]@,
                            detections.confidences@[k],
                            now as int,
                            current_relative_second,
                        )
                    },
            decreases n - idx,
        {
            let id = assigned_ids[idx];
            let ghost pre = self.objects_extra@;
            proof {
                assert(assigned.take(idx + 1 as int) =~= assigned.take(idx as int).push(
                    assigned[idx as int],
                ));
                assert forall|x: u128| #[trigger]
                    assigned.take(idx + 1 as int).contains(x) <==> (assigned.take(
                        idx as int,
                    ).contains(x) || x == id) by {
                    let p = assigned.take(idx as int);
                    let q = assigned.take(idx + 1 as int);
                    if q.contains(x) {
                        let w = choose|i: int| 0 <= i < q.len() && q[i] == x;
                        if w < idx {
                            assert(p[w] == x);
                        }
                    }
                    if p.contains(x) {
                        let w = choose|i: int| 0 <= i < p.len() && p[i] == x;
                        assert(q[w] == x);
                    }
                    if x == id {
                        assert(q[idx as int] == x);
                    }
                }
            }
            match find_entry(&self.objects_extra, id) {
                Some(pos) => {
                    let mut e = self.objects_extra.remove(pos);
                    e.extra.updated_unix_tm = now;
                    e.extra.updated_relative_second = current_relative_second;
                    self.objects_extra.insert(pos, e);
                    proof {
                        assert(self.objects_extra@ =~= pre.update(
                            pos as int,
                            self.objects_extra@[pos as int],
                        ));
                        assert forall|id2: u128| #[trigger]
                            has_extra(self.objects_extra@, id2) <==> has_extra(pre, id2) by {
                            let cur = self.objects_extra@;
                            assert(forall|i: int|
                                0 <= i < pre.len() ==> #[trigger] cur[i].id == pre[i].id);
                            if has_extra(cur, id2) {
                                let w = choose|i: int| 0 <= i < cur.len() && cur[i].id == id2;
                                assert(pre[w].id == id2);
                            }
                            if has_extra(pre, id2) {
                                let w = choose|i: int| 0 <= i < pre.len() && pre[i].id == id2;
                                assert(cur[w].id == id2);
                            }
                        }
                        if !has_extra(extras0, id) {
                            lemma_first_index(assigned, id);
                        }
                    }
                },
                None => {
                    let classname = detections.class_names[idx].clone();
                    let confidence = detections.confidences[idx];
                    self.objects_extra.push(
                        ExtraEntry {
                            id,
                            extra: ObjectExtra {
                                class_name: classname,
                                confidence,
                                register_unix_tm: now,
                                register_relative_second: current_relative_second,
                                updated_unix_tm: now,
                                updated_relative_second: current_relative_second,
                            },
                        },
                    );
                    proof {
                        // `id` was absent, so its first occurrence in the
                        // assigned list is this very index
                        assert(!assigned.take(idx as int).contains(id));
                        lemma_first_index(assigned, id);
                        assert(assigned[idx as int] == id);
                        assert(assigned.contains(id));
                        let k = first_index(assigned, id);
                        assert(forall|j: int| 0 <= j < k ==> assigned[j] != id);
                        if k < idx {
                            assert(assigned.take(idx as int)[k] == id);
                            assert(false);
                        }
                        if k > idx {
                            assert(assigned[idx as int] != id);
                            assert(false);
                        }
                        assert(k == idx);
                        assert(forall|id2: u128| #[trigger]
                            has_extra(self.objects_extra@, id2) <==> (has_extra(pre, id2) || id2
                                == id)) by {
                            assert(forall|i: int|
                                0 <= i < pre.len() ==> self.objects_extra@[i] == pre[i]);
                            assert(self.objects_extra@[pre.len() as int].id == id);
                        }
                    }
                },
            }
            idx = idx + 1;
        }
        proof {
            assert(assigned.take(n as int) =~= assigned);
        }

        // purge entries whose identity vanished from the track table
        let ghost cur1 = self.objects_extra@;
        let mut kept: Vec<ExtraEntry> = Vec::new();
        let ghost mut processed: int = 0;
        while self.objects_extra.len() > 0
            invariant
                self.objects@ == obs0,
                0 <= processed <= cur1.len(),
                self.objects_extra@ =~= cur1.subrange(processed, cur1.len() as int),
                unique_extra_ids(cur1),
                forall|j: int| 0 <= j < cur1.len() ==> extra_wf(#[trigger] cur1[j].extra),
                unique_extra_ids(kept@),
                forall|j: int|
                    0 <= j < kept@.len() ==> exists|i: int|
                        0 <= i < processed && cur1[i] == #[trigger] kept@[j],
                forall|i: int|
                    0 <= i < processed && obs_contains(self.objects@, #[trigger] cur1[i].id)
                        ==> has_extra(kept@, cur1[i].id),
                forall|j: int|
                    0 <= j < kept@.len() ==> obs_contains(self.objects@, #[trigger] kept@[j].id),
            decreases self.objects_extra@.len(),
        {
            let e = self.objects_extra.remove(0);
            let ghost kept0 = kept@;
            proof {
                assert(e == cur1[processed]);
                assert(self.objects_extra@ =~= cur1.subrange(processed + 1, cur1.len() as int));
            }
            if contains_obs(&self.objects, e.id) {
                kept.push(e);
                proof {
                    // the pushed entry's identity cannot repeat one already
                    // kept: every kept entry sits at an earlier position of
                    // the (duplicate-free) pre-purge table
                    assert forall|j: int| 0 <= j < kept0.len() implies kept0[j].id
                        != cur1[processed].id by {
                        let i = choose|i: int| 0 <= i < processed && cur1[i] == kept0[j];
                        assert(cur1[i].id != cur1[processed].id);
                    }
                    assert(forall|j: int|
                        0 <= j < kept0.len() ==> #[trigger] kept@[j] == kept0[j]);
                    assert(kept@[kept0.len() as int] == cur1[processed]);
                }
            }
            proof {
                processed = processed + 1;
                assert forall|i: int|
                    0 <= i < processed && obs_contains(self.objects@, #[trigger] cur1[i].id)
                        implies has_extra(kept@, cur1[i].id) by {
                    if i + 1 == processed {
                        assert(kept@[kept@.len() - 1] == cur1[i]);
                    } else {
                        assert(has_extra(kept0, cur1[i].id));
                        let j = choose|j: int| 0 <= j < kept0.len() && kept0[j].id == cur1[i].id;
                        assert(kept@[j].id == cur1[i].id);
                    }
                }
            }
        }
        self.objects_extra = kept;
        proof {
            assert(processed == cur1.len());
            let ef = self.objects_extra@;
            // carry the reconcile-phase facts through the purge: every kept
            // entry is one of the pre-purge entries
            assert forall|id: u128| #[trigger]
                has_extra(ef, id) <==> (obs_contains(self.objects@, id) && (has_extra(extras0, id)
                    || assigned.contains(id))) by {
                if has_extra(ef, id) {
                    let j = choose|j: int| 0 <= j < ef.len() && ef[j].id == id;
                    let i = choose|i: int| 0 <= i < cur1.len() && cur1[i] == ef[j];
                    assert(has_extra(cur1, id));
                }
                if obs_contains(self.objects@, id) && (has_extra(extras0, id) || assigned.contains(
                    id,
                )) {
                    assert(has_extra(cur1, id));
                    let i = choose|i: int| 0 <= i < cur1.len() && cur1[i].id == id;
                    assert(has_extra(ef, id));
                }
            }
            assert forall|i: int, j: int|
                #![trigger extras0[i], ef[j]]
                0 <= i < extras0.len() && 0 <= j < ef.len() && extras0[i].id
                    == ef[j].id implies (if assigned.contains(extras0[i].id) {
                extra_updated(
                    extras0[i].extra,
                    ef[j].extra,
                    now as int,
                    current_relative_second,
                )
            } else {
                ef[j].extra == extras0[i].extra
            }) by {
                let w = choose|w: int| 0 <= w < cur1.len() && cur1[w] == ef[j];
                assert(cur1[w].id == extras0[i].id);
            }
            assert forall|j: int|
                0 <= j < ef.len() && !has_extra(extras0, #[trigger] ef[j].id) implies {
                let k = first_index(assigned, ef[j].id);
                &&& assigned.contains(ef[j].id)
                &&& 0 <= k < detections.class_names@.len()
                &&& k < detections.confidences@.len()
                &&& extra_fresh(
                    ef[j].extra,
                    detections.class_names@[k]@,
                    detections.confidences@[k],
                    now as int,
                    current_relative_second,
                )
            } by {
                let w = choose|w: int| 0 <= w < cur1.len() && cur1[w] == ef[j];
                assert(!has_extra(extras0, cur1[w].id));
            }
            assert forall|j: int| 0 <= j < ef.len() implies extra_wf(#[trigger] ef[j].extra) by {
                let w = choose|w: int| 0 <= w < cur1.len() && cur1[w] == ef[j];
                assert(extra_wf(cur1[w].extra));
            }
        }
    }
}

/// Index of the entry holding `id`, if any.
pub(crate) fn find_entry(v: &Vec<ExtraEntry>, id: u128) -> (r: Option<usize>)
    ensures
        r matches Some(i) ==> 0 <= i < v@.len() && v@[i as int].id == id,
        r is None ==> !has_extra(v@, id),
{
    let mut i: usize = 0;
    while i < v.len()
        invariant
            i <= v@.len(),
            forall|j: int| 0 <= j < i ==> v@[j].id != id,
        decreases v@.len() - i,
    {
        if v[i].id == id {
            return Some(i);
        }
        i = i + 1;
    }
    None
}

/// Whether the track table holds the identity.
pub fn contains_obs(v: &Vec<TrackObs>, id: u128) -> (r: bool)
    ensures
        r == obs_contains(v@, id),
{
    let mut i: usize = 0;
    while i < v.len()
        invariant
            i <= v@.len(),
            forall|j: int| 0 <= j < i ==> v@[j].id != id,
        decreases v@.len() - i,
    {
        if v[i].id == id {
            return true;
        }
        i = i + 1;
    }
    false
}

} // verus!
