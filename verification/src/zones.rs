//! Zone engine: the core dwell-event state machine.
//!
//! Each zone is a polygon with a private set of registered track identities.
//! Once per frame the engine walks the track table: a visible track with
//! metadata whose lifetime strictly exceeds the minimum threshold and whose
//! center lies inside the polygon either produces exactly one event (and
//! becomes registered), or — when already registered and past the maximum
//! lifetime — re-arms: its metadata entry and registration are dropped so the
//! identity is treated as brand-new on its next observation, with no event on
//! the re-arm itself. Identities that vanished from the track table are
//! unregistered before the walk.

use vstd::prelude::*;

use crate::clock::{now_unix, UNIX_TIME_BOUND};
use crate::events::{uuid_hyphenated, uuid_string, EventBBox, EventInfo, EventPOI};
use crate::geometry::{quad_contains, spec_contains, Quad, Vertex};
use crate::tracker::{
    extra_wf, find_extra, has_extra, obs_contains, spec_lifetime, unique_extra_ids, ExtraEntry,
    ObjectExtra, TrackObs, Tracker,
};

verus! {

pub open spec fn unique_u128(s: Seq<u128>) -> bool {
    forall|i: int, j: int| 0 <= i < j < s.len() ==> s[i] != s[j]
}

/// The track is believed currently visible: at most one missed frame.
pub open spec fn track_visible(o: TrackObs) -> bool {
    o.no_match_times <= 1
}

/// The track's center lies strictly inside the polygon.
pub open spec fn track_in_zone(poly: Quad, o: TrackObs) -> bool {
    spec_contains(poly, Vertex { x: o.center.x, y: o.center.y })
}

/// The track is visible, carries metadata, and has dwelt strictly longer
/// than the minimum lifetime.
pub open spec fn track_eligible(extras: Seq<ExtraEntry>, min_lifetime: int, o: TrackObs) -> bool {
    &&& track_visible(o)
    &&& find_extra(extras, o.id) matches Some(e) && spec_lifetime(e) > min_lifetime
}

/// The walk emits an event for this track: eligible, inside the polygon, and
/// not yet registered with the zone.
pub open spec fn emits(
    poly: Quad,
    reg: Seq<u128>,
    extras: Seq<ExtraEntry>,
    min_lifetime: int,
    o: TrackObs,
) -> bool {
    &&& track_eligible(extras, min_lifetime, o)
    &&& track_in_zone(poly, o)
    &&& !reg.contains(o.id)
}

/// The walk re-arms this track: eligible, inside the polygon, already
/// registered, and past the maximum lifetime.
pub open spec fn rearms(
    poly: Quad,
    reg: Seq<u128>,
    extras: Seq<ExtraEntry>,
    min_lifetime: int,
    max_lifetime: int,
    o: TrackObs,
) -> bool {
    &&& track_eligible(extras, min_lifetime, o)
    &&& track_in_zone(poly, o)
    &&& reg.contains(o.id)
    &&& find_extra(extras, o.id) matches Some(e) && spec_lifetime(e) > max_lifetime
}

/// Some track among `objs` with this identity produces an event.
pub open spec fn emitted_in(
    objs: Seq<TrackObs>,
    poly: Quad,
    reg: Seq<u128>,
    extras: Seq<ExtraEntry>,
    min_lifetime: int,
    id: u128,
) -> bool {
    exists|k: int|
        0 <= k < objs.len() && objs[k].id == id && emits(poly, reg, extras, min_lifetime, objs[k])
}

/// Some track among `objs` with this identity re-arms.
pub open spec fn rearmed_in(
    objs: Seq<TrackObs>,
    poly: Quad,
    reg: Seq<u128>,
    extras: Seq<ExtraEntry>,
    min_lifetime: int,
    max_lifetime: int,
    id: u128,
) -> bool {
    exists|k: int|
        0 <= k < objs.len() && objs[k].id == id && rearms(
            poly,
            reg,
            extras,
            min_lifetime,
            max_lifetime,
            objs[k],
        )
}

/// Everything an event records, at the specification level. The event id is
/// not part of it: ids are freshly drawn at random.
pub struct EventCore {
    pub event_registered_at: i64,
    pub object_id: Seq<char>,
    pub object_registered_at: i64,
    pub object_lifetime: int,
    pub object_bbox: EventBBox,
    pub object_poi: EventPOI,
    pub object_classname: Seq<char>,
    pub object_confidence: u32,
    pub zone_id: Seq<char>,
    pub equipment_id: Option<Seq<char>>,
    pub image: Option<Seq<u8>>,
}

pub open spec fn opt_str_view(s: Option<String>) -> Option<Seq<char>> {
    match s {
        Some(x) => Some(x@),
        None => None,
    }
}

pub open spec fn opt_frame_view(f: Option<&Vec<u8>>) -> Option<Seq<u8>> {
    match f {
        Some(x) => Some(x@),
        None => None,
    }
}

/// The event recorded for track `o` with metadata `e`.
pub open spec fn core_of(
    o: TrackObs,
    e: ObjectExtra,
    now: i64,
    zone_id: Seq<char>,
    equipment_id: Option<Seq<char>>,
    image: Option<Seq<u8>>,
) -> EventCore {
    EventCore {
        event_registered_at: now,
        object_id: uuid_hyphenated(o.id),
        object_registered_at: e.register_unix_tm,
        object_lifetime: spec_lifetime(e),
        object_bbox: o.bbox,
        object_poi: o.center,
        object_classname: e.class_name@,
        object_confidence: e.confidence,
        zone_id: zone_id,
        equipment_id: equipment_id,
        image: image,
    }
}

/// An executable event carries exactly the given record.
pub open spec fn matches_core(ev: EventInfo, c: EventCore) -> bool {
    &&& ev.event_registered_at == c.event_registered_at
    &&& ev.object_id@ == c.object_id
    &&& ev.object_registered_at == c.object_registered_at
    &&& ev.object_lifetime == c.object_lifetime
    &&& ev.object_bbox == c.object_bbox
    &&& ev.object_poi == c.object_poi
    &&& ev.object_classname@ == c.object_classname
    &&& ev.object_confidence == c.object_confidence
    &&& ev.zone_id@ == c.zone_id
    &&& opt_str_view(ev.equipment_id) == c.equipment_id
    &&& match c.image {
        Some(s) => ev.event_image matches Some(v) && v@ == s,
        None => ev.event_image is None,
    }
}

/// The events one walk of `objs` produces, in table order, decided against
/// the state at the start of the walk.
pub open spec fn spec_zone_events(
    objs: Seq<TrackObs>,
    poly: Quad,
    reg: Seq<u128>,
    extras: Seq<ExtraEntry>,
    min_lifetime: int,
    now: i64,
    zone_id: Seq<char>,
    equipment_id: Option<Seq<char>>,
    image: Option<Seq<u8>>,
) -> Seq<EventCore>
    decreases objs.len(),
{
    if objs.len() == 0 {
        Seq::empty()
    } else {
        spec_zone_events(
            objs.drop_last(),
            poly,
            reg,
            extras,
            min_lifetime,
            now,
            zone_id,
            equipment_id,
            image,
        ) + if emits(poly, reg, extras, min_lifetime, objs.last()) {
            seq![
                core_of(
                    objs.last(),
                    find_extra(extras, objs.last().id).unwrap(),
                    now,
                    zone_id,
                    equipment_id,
                    image,
                ),
            ]
        } else {
            Seq::empty()
        }
    }
}

/// The full effect of one zone walk on the zone's registered set, the
/// metadata table, and the produced events.
pub open spec fn zone_step(
    z0: Zone,
    z1: Zone,
    t0: Tracker,
    t1: Tracker,
    events: Seq<EventInfo>,
    min_lifetime: int,
    max_lifetime: int,
    equipment_id: Option<Seq<char>>,
    image: Option<Seq<u8>>,
    now: i64,
) -> bool {
    let objs = t0.objects@;
    let reg0 = z0.objects_registered@;
    let extras0 = t0.objects_extra@;
    let cores = spec_zone_events(
        objs,
        z0.polygon,
        reg0,
        extras0,
        min_lifetime,
        now,
        z0.id@,
        equipment_id,
        image,
    );
    &&& z1.id@ == z0.id@
    &&& z1.polygon == z0.polygon
    &&& z1.color == z0.color
    &&& t1.objects@ == t0.objects@
    // the registered set afterwards: still-present registrations that did
    // not re-arm, plus every track an event was emitted for
    &&& forall|id: u128| #[trigger]
        z1.objects_registered@.contains(id) <==> ((reg0.contains(id) && obs_contains(objs, id)
            && !rearmed_in(objs, z0.polygon, reg0, extras0, min_lifetime, max_lifetime, id))
            || emitted_in(objs, z0.polygon, reg0, extras0, min_lifetime, id))
    // metadata afterwards: exactly the entries that did not re-arm, unchanged
    &&& forall|id: u128| #[trigger]
        has_extra(t1.objects_extra@, id) <==> (has_extra(extras0, id) && !rearmed_in(
            objs,
            z0.polygon,
            reg0,
            extras0,
            min_lifetime,
            max_lifetime,
            id,
        ))
    &&& forall|i: int, j: int|
        #![trigger extras0[i], t1.objects_extra@[j]]
        0 <= i < extras0.len() && 0 <= j < t1.objects_extra@.len() && extras0[i].id
            == t1.objects_extra@[j].id ==> t1.objects_extra@[j].extra == extras0[i].extra
    // the events, in table order
    &&& events.len() == cores.len()
    &&& forall|k: int| 0 <= k < events.len() ==> matches_core(#[trigger] events[k], cores[k])
}

/// A polygonal zone with its registered-track set.
#[derive(Debug)]
pub struct Zone {
    pub id: String,
    pub color: [u16; 3],
    pub polygon: Quad,
    pub objects_registered: Vec<u128>,
}

impl Zone {
    /// The registered set holds each identity at most once.
    pub open spec fn wf(self) -> bool {
        unique_u128(self.objects_registered@)
    }

    /// Builds a zone from four polygon vertices (in order; the polygon is
    /// closed back to the first vertex) and an optional RGB display color,
    /// black when absent.
    pub fn new(id: String, coordinates: [[i32; 2]; 4], color_rgb: Option<[u16; 3]>) -> (r: Zone)
        ensures
            r.id@ == id@,
            r.polygon.v0 == (Vertex { x: coordinates[0][0], y: coordinates[0][1] }),
            r.polygon.v1 == (Vertex { x: coordinates[1][0], y: coordinates[1][1] }),
            r.polygon.v2 == (Vertex { x: coordinates[2][0], y: coordinates[2][1] }),
            r.polygon.v3 == (Vertex { x: coordinates[3][0], y: coordinates[3][1] }),
            color_rgb matches Some(c) ==> r.color == c,
            color_rgb is None ==> r.color == [0u16, 0u16, 0u16],
            r.objects_registered@.len() == 0,
            r.wf(),
    {
        let polygon = Quad {
            v0: Vertex { x: coordinates[0][0], y: coordinates[0][1] },
            v1: Vertex { x: coordinates[1][0], y: coordinates[1][1] },
            v2: Vertex { x: coordinates[2][0], y: coordinates[2][1] },
            v3: Vertex { x: coordinates[3][0], y: coordinates[3][1] },
        };
        let color = match color_rgb {
            Some(c) => c,
            None => [0u16, 0u16, 0u16],
        };
        Zone { id, color, polygon, objects_registered: Vec::new() }
    }

    /// The zone used when the configuration declares none: the whole frame
    /// with a five-pixel margin, drawn red.
    pub fn default_whole_frame_zone(frame_width: i32, frame_height: i32) -> (r: Zone)
        requires
            0 <= frame_width,
            0 <= frame_height,
        ensures
            r.id@ == "whole_image"@,
            r.polygon.v0 == (Vertex { x: 5, y: 5 }),
            r.polygon.v1 == (Vertex { x: (frame_width - 5) as i32, y: 5 }),
            r.polygon.v2 == (Vertex {
                x: (frame_width - 5) as i32,
                y: (frame_height - 5) as i32,
            }),
            r.polygon.v3 == (Vertex { x: 5, y: (frame_height - 5) as i32 }),
            r.color == [0u16, 0u16, 255u16],
            r.objects_registered@.len() == 0,
            r.wf(),
    {
        Zone::new(
            "whole_image".to_owned(),
            [
                [5, 5],
                [frame_width - 5, 5],
                [frame_width - 5, frame_height - 5],
                [5, frame_height - 5],
            ],
            Some([0, 0, 255]),
        )
    }

    /// Strict containment of a point in this zone's polygon.
    pub fn contains_point(&self, x: i32, y: i32) -> (r: bool)
        ensures
            r == spec_contains(self.polygon, Vertex { x, y }),
    {
        quad_contains(&self.polygon, Vertex { x, y })
    }

    /// One walk of the track table for this zone, stamping event times from
    /// the wall clock.
    pub fn process_tracker(
        &mut self,
        tracker: &mut Tracker,
        min_lifetime_seconds: i64,
        max_lifetime_seconds: i64,
        app_id: Option<String>,
        frame: Option<&Vec<u8>>,
    ) -> (events: Vec<EventInfo>)
        requires
            old(self).wf(),
            old(tracker).wf(),
        ensures
            final(self).wf(),
            final(tracker).wf(),
            exists|now: i64|
                -UNIX_TIME_BOUND <= now <= UNIX_TIME_BOUND && zone_step(
                    *old(self),
                    *final(self),
                    *old(tracker),
                    *final(tracker),
                    events@,
                    min_lifetime_seconds as int,
                    max_lifetime_seconds as int,
                    opt_str_view(app_id),
                    opt_frame_view(frame),
                    now,
                ),
    {
        let now = now_unix();
        self.process_tracker_at(
            tracker,
            min_lifetime_seconds,
            max_lifetime_seconds,
            app_id,
            frame,
            now,
        )
    }

    /// One walk of the track table for this zone at a given wall-clock time.
    pub fn process_tracker_at(
        &mut self,
        tracker: &mut Tracker,
        min_lifetime_seconds: i64,
        max_lifetime_seconds: i64,
        app_id: Option<String>,
        frame: Option<&Vec<u8>>,
        now: i64,
    ) -> (events: Vec<EventInfo>)
        requires
            old(self).wf(),
            old(tracker).wf(),
        ensures
            final(self).wf(),
            final(tracker).wf(),
            zone_step(
                *old(self),
                *final(self),
                *old(tracker),
                *final(tracker),
                events@,
                min_lifetime_seconds as int,
                max_lifetime_seconds as int,
                opt_str_view(app_id),
                opt_frame_view(frame),
                now,
            ),
    {
        let ghost objs = tracker.objects@;
        let ghost extras0 = tracker.objects_extra@;
        let ghost reg0 = self.objects_registered@;
        let ghost poly = self.polygon;
        let ghost minl = min_lifetime_seconds as int;
        let ghost maxl = max_lifetime_seconds as int;
        let ghost equipment = opt_str_view(app_id);
        let ghost image = opt_frame_view(frame);
        let ghost zid = self.id@;

        // unregister identities that vanished from the track table
        let mut kept: Vec<u128> = Vec::new();
        let mut p: usize = 0;
        while p < self.objects_registered.len()
            invariant
                p <= reg0.len(),
                self.objects_registered@ == reg0,
                tracker.objects@ == objs,
                unique_u128(reg0),
                unique_u128(kept@),
                forall|j: int|
                    0 <= j < kept@.len() ==> exists|i: int| 0 <= i < p && reg0[i] == #[trigger] kept@[j],
                forall|x: u128| #[trigger]
                    kept@.contains(x) <==> (exists|i: int| 0 <= i < p && reg0[i] == x)
                        && obs_contains(objs, x),
            decreases reg0.len() - p,
        {
            let id = self.objects_registered[p];
            let ghost kept0 = kept@;
            if crate::tracker::contains_obs(&tracker.objects, id) {
                kept.push(id);
                proof {
                    assert forall|j: int| 0 <= j < kept0.len() implies kept0[j] != id by {
                        let i = choose|i: int| 0 <= i < p && reg0[i] == kept0[j];
                        assert(reg0[i] != reg0[p as int]);
                    }
                    assert(forall|j: int| 0 <= j < kept0.len() ==> #[trigger] kept@[j] == kept0[j]);
                    assert(kept@[kept0.len() as int] == id);
                }
            }
            proof {
                assert forall|x: u128| #[trigger]
                    kept@.contains(x) <==> (exists|i: int| 0 <= i < p + 1 && reg0[i] == x)
                        && obs_contains(objs, x) by {
                    if kept@.contains(x) {
                        let j = choose|j: int| 0 <= j < kept@.len() && kept@[j] == x;
                        if j < kept0.len() {
                            assert(kept0.contains(x)) by {
                                assert(kept0[j] == x);
                            }
                        }
                    }
                    if (exists|i: int| 0 <= i < p + 1 && reg0[i] == x) && obs_contains(objs, x) {
                        let i = choose|i: int| 0 <= i < p + 1 && reg0[i] == x;
                        if i < p {
                            assert(kept0.contains(x));
                            let j = choose|j: int| 0 <= j < kept0.len() && kept0[j] == x;
                            assert(kept@[j] == x);
                        } else {
                            assert(kept@[kept@.len() - 1] == x);
                        }
                    }
                }
            }
            p = p + 1;
        }
        self.objects_registered = kept;
        proof {
            assert forall|x: u128| #[trigger]
                self.objects_registered@.contains(x) <==> reg0.contains(x) && obs_contains(
                    objs,
                    x,
                ) by {
                if reg0.contains(x) {
                    let i = choose|i: int| 0 <= i < reg0.len() && reg0[i] == x;
                }
            }
        }

        // walk the track table
        let mut events: Vec<EventInfo> = Vec::new();
        let mut i: usize = 0;
        while i < tracker.objects.len()
            invariant
                i <= objs.len(),
                tracker.objects@ == objs,
                self.id@ == zid,
                self.polygon == poly,
                self.color == old(self).color,
                unique_u128(self.objects_registered@),
                unique_extra_ids(tracker.objects_extra@),
                forall|j: int|
                    0 <= j < tracker.objects_extra@.len() ==> extra_wf(
                        #[trigger] tracker.objects_extra@[j].extra,
                    ),
                forall|j: int|
                    0 <= j < tracker.objects_extra@.len() ==> obs_contains(
                        objs,
                        #[trigger] tracker.objects_extra@[j].id,
                    ),
                unique_extra_ids(extras0),
                unique_u128(reg0),
                forall|i0: int, j0: int| 0 <= i0 < j0 < objs.len() ==> objs[i0].id != objs[j0].id,
                forall|j: int| 0 <= j < extras0.len() ==> extra_wf(#[trigger] extras0[j].extra),
                forall|j: int|
                    0 <= j < extras0.len() ==> obs_contains(objs, #[trigger] extras0[j].id),
                minl == min_lifetime_seconds as int,
                maxl == max_lifetime_seconds as int,
                equipment == opt_str_view(app_id),
                image == opt_frame_view(frame),
                forall|id: u128| #[trigger]
                    has_extra(tracker.objects_extra@, id) <==> (has_extra(extras0, id)
                        && !rearmed_in(objs.take(i as int), poly, reg0, extras0, minl, maxl, id)),
                forall|i0: int, j0: int|
                    #![trigger extras0[i0], tracker.objects_extra@[j0]]
                    0 <= i0 < extras0.len() && 0 <= j0 < tracker.objects_extra@.len()
                        && extras0[i0].id == tracker.objects_extra@[j0].id
                        ==> tracker.objects_extra@[j0].extra == extras0[i0].extra,
                forall|id: u128| #[trigger]
                    self.objects_registered@.contains(id) <==> ((reg0.contains(id) && obs_contains(
                        objs,
                        id,
                    ) && !rearmed_in(objs.take(i as int), poly, reg0, extras0, minl, maxl, id))
                        || emitted_in(objs.take(i as int), poly, reg0, extras0, minl, id)),
                events@.len() == spec_zone_events(
                    objs.take(i as int),
                    poly,
                    reg0,
                    extras0,
                    minl,
                    now,
                    zid,
                    equipment,
                    image,
                ).len(),
                forall|k: int|
                    0 <= k < events@.len() ==> matches_core(
                        #[trigger] events@[k],
                        spec_zone_events(
                            objs.take(i as int),
                            poly,
                            reg0,
                            extras0,
                            minl,
                            now,
                            zid,
                            equipment,
                            image,
                        )[k],
                    ),
            decreases objs.len() - i,
        {
            let o = tracker.objects[i];
            let ghost prefix = objs.take(i as int);
            let ghost prefix1 = objs.take(i + 1 as int);
            proof {
                assert(prefix1.drop_last() =~= prefix);
                assert(prefix1.last() == o);
                // this track's identity appears nowhere earlier in the table,
                // so the walk so far has not touched it
                assert forall|k: int| 0 <= k < prefix.len() implies prefix[k].id != o.id by {
                    assert(objs[k].id != objs[i as int].id);
                }
                assert(!rearmed_in(prefix, poly, reg0, extras0, minl, maxl, o.id));
                assert(!emitted_in(prefix, poly, reg0, extras0, minl, o.id));
                assert(obs_contains(objs, o.id)) by {
                    assert(objs[i as int].id == o.id);
                }
            }
            let ghost pre_extras = tracker.objects_extra@;
            let ghost pre_reg = self.objects_registered@;
            let ghost pre_events_len = events@.len();

            let ghost pre_events = events@;
            let ghost this_emits = emits(poly, reg0, extras0, minl, o);
            let ghost this_rearms = rearms(poly, reg0, extras0, minl, maxl, o);

            if o.no_match_times <= 1 {
                match crate::tracker::find_entry(&tracker.objects_extra, o.id) {
                    Some(pos) => {
                        proof {
                            crate::tracker::lemma_find_extra(tracker.objects_extra@, o.id);
                            crate::tracker::lemma_find_extra(extras0, o.id);
                            assert(has_extra(tracker.objects_extra@, o.id)) by {
                                assert(tracker.objects_extra@[pos as int].id == o.id);
                            }
                            assert(has_extra(extras0, o.id));
                            let w = choose|w: int|
                                0 <= w < extras0.len() && extras0[w].id == o.id;
                            assert(extras0[w].id == tracker.objects_extra@[pos as int].id);
                            assert(tracker.objects_extra@[pos as int].extra == extras0[w].extra);
                            assert(find_extra(extras0, o.id) == Some(extras0[w].extra));
                            assert(find_extra(tracker.objects_extra@, o.id) == Some(
                                tracker.objects_extra@[pos as int].extra,
                            ));
                        }
                        let lifetime = tracker.objects_extra[pos].extra.get_lifetime();
                        if lifetime > min_lifetime_seconds {
                            if self.contains_point(o.center.x, o.center.y) {
                                if contains_id(&self.objects_registered, o.id) {
                                    proof {
                                        assert(reg0.contains(o.id));
                                        assert(!this_emits);
                                    }
                                    if lifetime > max_lifetime_seconds {
                                        proof {
                                            assert(this_rearms);
                                        }
                                        // re-arm: drop metadata and registration
                                        let _ = tracker.objects_extra.remove(pos);
                                        remove_id(&mut self.objects_registered, o.id);
                                        proof {
                                            assert forall|id: u128| #[trigger]
                                                has_extra(tracker.objects_extra@, id)
                                                    <==> (has_extra(pre_extras, id) && id
                                                    != o.id) by {
                                                let cur = tracker.objects_extra@;
                                                if has_extra(cur, id) {
                                                    let w = choose|w: int|
                                                        0 <= w < cur.len() && cur[w].id == id;
                                                    if w < pos {
                                                        assert(pre_extras[w].id == id);
                                                    } else {
                                                        assert(pre_extras[w + 1].id == id);
                                                    }
                                                    assert(has_extra(pre_extras, id));
                                                    if id == o.id {
                                                        if w < pos {
                                                            assert(pre_extras[w].id
                                                                != pre_extras[pos as int].id);
                                                        } else {
                                                            assert(pre_extras[w + 1].id
                                                                != pre_extras[pos as int].id);
                                                        }
                                                        assert(false);
                                                    }
                                                }
                                                if has_extra(pre_extras, id) && id != o.id {
                                                    let w = choose|w: int|
                                                        0 <= w < pre_extras.len()
                                                            && pre_extras[w].id == id;
                                                    if w < pos {
                                                        assert(cur[w].id == id);
                                                    } else {
                                                        assert(w != pos);
                                                        assert(cur[w - 1].id == id);
                                                    }
                                                }
                                            }
                                            assert(forall|j0: int|
                                                0 <= j0 < tracker.objects_extra@.len()
                                                    ==> #[trigger] tracker.objects_extra@[j0] == (
                                                if j0 < pos as int {
                                                    pre_extras[j0]
                                                } else {
                                                    pre_extras[j0 + 1]
                                                }));
                                            assert(unique_extra_ids(tracker.objects_extra@)) by {
                                                assert forall|a: int, b: int|
                                                    0 <= a < b < tracker.objects_extra@.len()
                                                        implies tracker.objects_extra@[a].id
                                                        != tracker.objects_extra@[b].id by {
                                                    let a0: int = if a < pos as int {
                                                        a
                                                    } else {
                                                        a + 1
                                                    };
                                                    let b0: int = if b < pos as int {
                                                        b
                                                    } else {
                                                        b + 1
                                                    };
                                                    assert(tracker.objects_extra@[a]
                                                        == pre_extras[a0]);
                                                    assert(tracker.objects_extra@[b]
                                                        == pre_extras[b0]);
                                                }
                                            }
                                        }
                                    }
                                    // already registered, not yet re-armed: no event
                                } else {
                                    proof {
                                        assert(!reg0.contains(o.id));
                                        assert(this_emits);
                                        assert(!this_rearms);
                                    }
                                    let e_register_time =
                                        tracker.objects_extra[pos].extra.get_register_time();
                                    let e_classname =
                                        tracker.objects_extra[pos].extra.get_classname();
                                    let e_confidence =
                                        tracker.objects_extra[pos].extra.get_confidence();
                                    self.objects_registered.push(o.id);
                                    let ev = EventInfo::new(
                                        now,
                                        frame,
                                        uuid_string(o.id),
                                        e_register_time,
                                        lifetime,
                                        o.bbox,
                                        o.center,
                                        e_classname,
                                        e_confidence,
                                        clone_string(&self.id),
                                        clone_opt_string(&app_id),
                                    );
                                    events.push(ev);
                                    proof {
                                        assert(matches_core(
                                            events@[pre_events_len as int],
                                            core_of(
                                                o,
                                                find_extra(extras0, o.id).unwrap(),
                                                now,
                                                zid,
                                                equipment,
                                                image,
                                            ),
                                        ));
                                        assert(forall|j: int|
                                            0 <= j < pre_reg.len() ==> #[trigger] self
                                                .objects_registered@[j] == pre_reg[j]);
                                        assert(self.objects_registered@[pre_reg.len() as int]
                                            == o.id);
                                        assert(unique_u128(self.objects_registered@)) by {
                                            assert(!pre_reg.contains(o.id));
                                            assert forall|a: int, b: int|
                                                0 <= a < b < self.objects_registered@.len()
                                                    implies self.objects_registered@[a]
                                                    != self.objects_registered@[b] by {
                                                if b == pre_reg.len() {
                                                    assert(pre_reg[a] == self
                                                        .objects_registered@[a]);
                                                    if pre_reg[a] == o.id {
                                                        assert(pre_reg.contains(o.id));
                                                    }
                                                }
                                            }
                                        }
                                        assert forall|x: u128| #[trigger]
                                            self.objects_registered@.contains(x) <==> (
                                        pre_reg.contains(x) || x == o.id) by {
                                            let cur = self.objects_registered@;
                                            if cur.contains(x) {
                                                let w = choose|w: int|
                                                    0 <= w < cur.len() && cur[w] == x;
                                                if w < pre_reg.len() {
                                                    assert(pre_reg[w] == x);
                                                }
                                            }
                                            if pre_reg.contains(x) {
                                                let w = choose|w: int|
                                                    0 <= w < pre_reg.len() && pre_reg[w] == x;
                                                assert(cur[w] == x);
                                            }
                                            if x == o.id {
                                                assert(cur[pre_reg.len() as int] == x);
                                            }
                                        }
                                    }
                                }
                            }
                        }
                    },
                    None => {
                        proof {
                            crate::tracker::lemma_find_extra(tracker.objects_extra@, o.id);
                            crate::tracker::lemma_find_extra(extras0, o.id);
                            assert(!has_extra(tracker.objects_extra@, o.id));
                            assert(!has_extra(extras0, o.id));
                            assert(!this_emits);
                            assert(!this_rearms);
                        }
                    },
                }
            } else {
                proof {
                    assert(!this_emits);
                    assert(!this_rearms);
                }
            }

            proof {
                // per-identity predicates over the grown prefix
                assert forall|id: u128|
                    rearmed_in(prefix1, poly, reg0, extras0, minl, maxl, id) <==> (rearmed_in(
                        prefix,
                        poly,
                        reg0,
                        extras0,
                        minl,
                        maxl,
                        id,
                    ) || (id == o.id && this_rearms)) by {
                    if rearmed_in(prefix1, poly, reg0, extras0, minl, maxl, id) {
                        let k = choose|k: int|
                            0 <= k < prefix1.len() && prefix1[k].id == id && rearms(
                                poly,
                                reg0,
                                extras0,
                                minl,
                                maxl,
                                prefix1[k],
                            );
                        if k < prefix.len() {
                            assert(prefix[k] == prefix1[k]);
                            assert(rearmed_in(prefix, poly, reg0, extras0, minl, maxl, id));
                        } else {
                            assert(prefix1[k] == o);
                        }
                    }
                    if rearmed_in(prefix, poly, reg0, extras0, minl, maxl, id) {
                        let k = choose|k: int|
                            0 <= k < prefix.len() && prefix[k].id == id && rearms(
                                poly,
                                reg0,
                                extras0,
                                minl,
                                maxl,
                                prefix[k],
                            );
                        assert(prefix1[k] == prefix[k]);
                    }
                    if id == o.id && this_rearms {
                        assert(prefix1[prefix1.len() - 1] == o);
                    }
                }
                assert forall|id: u128|
                    emitted_in(prefix1, poly, reg0, extras0, minl, id) <==> (emitted_in(
                        prefix,
                        poly,
                        reg0,
                        extras0,
                        minl,
                        id,
                    ) || (id == o.id && this_emits)) by {
                    if emitted_in(prefix1, poly, reg0, extras0, minl, id) {
                        let k = choose|k: int|
                            0 <= k < prefix1.len() && prefix1[k].id == id && emits(
                                poly,
                                reg0,
                                extras0,
                                minl,
                                prefix1[k],
                            );
                        if k < prefix.len() {
                            assert(prefix[k] == prefix1[k]);
                            assert(emitted_in(prefix, poly, reg0, extras0, minl, id));
                        } else {
                            assert(prefix1[k] == o);
                        }
                    }
                    if emitted_in(prefix, poly, reg0, extras0, minl, id) {
                        let k = choose|k: int|
                            0 <= k < prefix.len() && prefix[k].id == id && emits(
                                poly,
                                reg0,
                                extras0,
                                minl,
                                prefix[k],
                            );
                        assert(prefix1[k] == prefix[k]);
                    }
                    if id == o.id && this_emits {
                        assert(prefix1[prefix1.len() - 1] == o);
                    }
                }
                // the produced events over the grown prefix
                let cores = spec_zone_events(
                    prefix,
                    poly,
                    reg0,
                    extras0,
                    minl,
                    now,
                    zid,
                    equipment,
                    image,
                );
                let cores1 = spec_zone_events(
                    prefix1,
                    poly,
                    reg0,
                    extras0,
                    minl,
                    now,
                    zid,
                    equipment,
                    image,
                );
                assert(prefix1.drop_last() == prefix);
                if this_emits {
                    assert(cores1 =~= cores.push(
                        core_of(o, find_extra(extras0, o.id).unwrap(), now, zid, equipment, image),
                    ));
                    assert(events@.len() == pre_events.len() + 1);
                    assert(forall|k: int|
                        0 <= k < pre_events.len() ==> #[trigger] events@[k] == pre_events[k]);
                } else {
                    assert(cores1 =~= cores);
                    assert(events@ == pre_events);
                }
                assert(events@.len() == cores1.len());
                assert forall|k: int| 0 <= k < events@.len() implies matches_core(
                    #[trigger] events@[k],
                    cores1[k],
                ) by {
                    if k < pre_events.len() {
                        assert(events@[k] == pre_events[k]);
                        assert(cores1[k] == cores[k]);
                        assert(matches_core(pre_events[k], cores[k]));
                    }
                }
            }
            i = i + 1;
        }
        proof {
            assert(objs.take(objs.len() as int) =~= objs);
        }
        events
    }
}

/// Whether the registered set holds the identity.
fn contains_id(v: &Vec<u128>, id: u128) -> (r: bool)
    ensures
        r == v@.contains(id),
{
    let mut i: usize = 0;
    while i < v.len()
        invariant
            i <= v@.len(),
            forall|j: int| 0 <= j < i ==> v@[j] != id,
        decreases v@.len() - i,
    {
        if v[i] == id {
            proof {
                assert(v@[i as int] == id);
            }
            return true;
        }
        i = i + 1;
    }
    false
}

/// Removes the identity from the (duplicate-free) registered set.
fn remove_id(v: &mut Vec<u128>, id: u128)
    requires
        unique_u128(old(v)@),
        old(v)@.contains(id),
    ensures
        unique_u128(final(v)@),
        forall|x: u128| #[trigger] final(v)@.contains(x) <==> (old(v)@.contains(x) && x != id),
{
    let ghost v0 = v@;
    let mut i: usize = 0;
    while i < v.len()
        invariant
            v@ == v0,
            v0 == old(v)@,
            unique_u128(v0),
            v0.contains(id),
            i <= v0.len(),
            forall|j: int| 0 <= j < i ==> v0[j] != id,
        decreases v0.len() - i,
    {
        if v[i] == id {
            v.remove(i);
            proof {
                assert forall|x: u128| #[trigger]
                    v@.contains(x) <==> (v0.contains(x) && x != id) by {
                    if v@.contains(x) {
                        let w = choose|w: int| 0 <= w < v@.len() && v@[w] == x;
                        if w < i {
                            assert(v0[w] == x);
                        } else {
                            assert(v0[w + 1] == x);
                        }
                        if x == id {
                            if w < i {
                                assert(v0[w] != id);
                            } else {
                                assert(v0[w + 1] != v0[i as int]);
                            }
                            assert(false);
                        }
                    }
                    if v0.contains(x) && x != id {
                        let w = choose|w: int| 0 <= w < v0.len() && v0[w] == x;
                        if w < i {
                            assert(v@[w] == x);
                        } else {
                            assert(w != i);
                            assert(v@[w - 1] == x);
                        }
                    }
                }
                assert(unique_u128(v@)) by {
                    assert forall|a: int, b: int|
                        0 <= a < b < v@.len() implies v@[a] != v@[b] by {
                        let a0: int = if a < i { a } else { a + 1 };
                        let b0: int = if b < i { b } else { b + 1 };
                        assert(v@[a] == v0[a0]);
                        assert(v@[b] == v0[b0]);
                    }
                }
            }
            return ;
        }
        i = i + 1;
    }
    proof {
        let w = choose|w: int| 0 <= w < v0.len() && v0[w] == id;
        assert(v0[w] != id);
        assert(false);
    }
}

fn clone_string(s: &String) -> (r: String)
    ensures
        r@ == s@,
{
    s.clone()
}

fn clone_opt_string(s: &Option<String>) -> (r: Option<String>)
    ensures
        opt_str_view(r) == opt_str_view(*s),
{
    match s {
        Some(x) => Some(x.clone()),
        None => None,
    }
}

} // verus!
