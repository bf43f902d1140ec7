//! The engine's laws: properties of reconciliation and the zone walk,
//! stated over the specification functions the executable contracts use and
//! proved once and for all.

use vstd::prelude::*;

use crate::events::{hex_char, nibble, uuid_hyphenated, EventInfo};
use crate::geometry::Quad;
use crate::tracker::{
    find_extra, has_extra, lemma_find_extra, obs_contains, reconciled, spec_lifetime,
    unique_extra_ids, unique_obs_ids, ExtraEntry, TrackObs, Tracker,
};
use crate::zones::{
    core_of, emits, emitted_in, rearmed_in, rearms, spec_zone_events, track_in_zone,
    track_visible, zone_step, EventCore, Zone,
};

verus! {

/// How many tracks among `objs` with this identity produce an event.
pub open spec fn count_emits_for(
    objs: Seq<TrackObs>,
    poly: Quad,
    reg: Seq<u128>,
    extras: Seq<ExtraEntry>,
    min_lifetime: int,
    id: u128,
) -> int
    decreases objs.len(),
{
    if objs.len() == 0 {
        0
    } else {
        count_emits_for(objs.drop_last(), poly, reg, extras, min_lifetime, id) + (
        if objs.last().id == id && emits(poly, reg, extras, min_lifetime, objs.last()) {
            1int
        } else {
            0int
        })
    }
}

/// How many event records carry this object id.
pub open spec fn count_cores_for(cores: Seq<EventCore>, object_id: Seq<char>) -> int
    decreases cores.len(),
{
    if cores.len() == 0 {
        0
    } else {
        count_cores_for(cores.drop_last(), object_id) + (if cores.last().object_id == object_id {
            1int
        } else {
            0int
        })
    }
}

/// Distinct 128-bit values have distinct hyphenated renderings: the 32 hex
/// digits recover every bit of the value.
pub proof fn lemma_uuid_hyphenated_injective(a: u128, b: u128)
    requires
        uuid_hyphenated(a) == uuid_hyphenated(b),
    ensures
        a == b,
{
    assert forall|i: int| 0 <= i < 32 implies nibble(a, i) == nibble(b, i) by {
        let j: int = if i < 8 {
            i
        } else if i < 12 {
            i + 1
        } else if i < 16 {
            i + 2
        } else if i < 20 {
            i + 3
        } else {
            i + 4
        };
        assert(0 <= j < 36);
        assert(uuid_hyphenated(a)[j] == uuid_hyphenated(b)[j]);
        assert(uuid_hyphenated(a)[j] == crate::events::hyphenated_char(a, j));
        assert(uuid_hyphenated(b)[j] == crate::events::hyphenated_char(b, j));
        assert(crate::events::hyphenated_digit_index(j) == i);
        let na = nibble(a, i);
        let nb = nibble(b, i);
        assert(0 <= na < 16 && 0 <= nb < 16) by {
            let s: u128 = (124 - 4 * i) as u128;
            assert((a >> s) & 0xf < 16) by (bit_vector);
            assert((b >> s) & 0xf < 16) by (bit_vector);
        }
        assert(hex_char(na) == hex_char(nb));
        assert(na == nb);
    }
    assert(nibble(a, 0) == nibble(b, 0));
    assert(nibble(a, 1) == nibble(b, 1));
    assert(nibble(a, 2) == nibble(b, 2));
    assert(nibble(a, 3) == nibble(b, 3));
    assert(nibble(a, 4) == nibble(b, 4));
    assert(nibble(a, 5) == nibble(b, 5));
    assert(nibble(a, 6) == nibble(b, 6));
    assert(nibble(a, 7) == nibble(b, 7));
    assert(nibble(a, 8) == nibble(b, 8));
    assert(nibble(a, 9) == nibble(b, 9));
    assert(nibble(a, 10) == nibble(b, 10));
    assert(nibble(a, 11) == nibble(b, 11));
    assert(nibble(a, 12) == nibble(b, 12));
    assert(nibble(a, 13) == nibble(b, 13));
    assert(nibble(a, 14) == nibble(b, 14));
    assert(nibble(a, 15) == nibble(b, 15));
    assert(nibble(a, 16) == nibble(b, 16));
    assert(nibble(a, 17) == nibble(b, 17));
    assert(nibble(a, 18) == nibble(b, 18));
    assert(nibble(a, 19) == nibble(b, 19));
    assert(nibble(a, 20) == nibble(b, 20));
    assert(nibble(a, 21) == nibble(b, 21));
    assert(nibble(a, 22) == nibble(b, 22));
    assert(nibble(a, 23) == nibble(b, 23));
    assert(nibble(a, 24) == nibble(b, 24));
    assert(nibble(a, 25) == nibble(b, 25));
    assert(nibble(a, 26) == nibble(b, 26));
    assert(nibble(a, 27) == nibble(b, 27));
    assert(nibble(a, 28) == nibble(b, 28));
    assert(nibble(a, 29) == nibble(b, 29));
    assert(nibble(a, 30) == nibble(b, 30));
    assert(nibble(a, 31) == nibble(b, 31));
    assert(a == b) by (bit_vector)
        requires
            (a >> 124) & 0xf == (b >> 124) & 0xf,
            (a >> 120) & 0xf == (b >> 120) & 0xf,
            (a >> 116) & 0xf == (b >> 116) & 0xf,
            (a >> 112) & 0xf == (b >> 112) & 0xf,
            (a >> 108) & 0xf == (b >> 108) & 0xf,
            (a >> 104) & 0xf == (b >> 104) & 0xf,
            (a >> 100) & 0xf == (b >> 100) & 0xf,
            (a >> 96) & 0xf == (b >> 96) & 0xf,
            (a >> 92) & 0xf == (b >> 92) & 0xf,
            (a >> 88) & 0xf == (b >> 88) & 0xf,
            (a >> 84) & 0xf == (b >> 84) & 0xf,
            (a >> 80) & 0xf == (b >> 80) & 0xf,
            (a >> 76) & 0xf == (b >> 76) & 0xf,
            (a >> 72) & 0xf == (b >> 72) & 0xf,
            (a >> 68) & 0xf == (b >> 68) & 0xf,
            (a >> 64) & 0xf == (b >> 64) & 0xf,
            (a >> 60) & 0xf == (b >> 60) & 0xf,
            (a >> 56) & 0xf == (b >> 56) & 0xf,
            (a >> 52) & 0xf == (b >> 52) & 0xf,
            (a >> 48) & 0xf == (b >> 48) & 0xf,
            (a >> 44) & 0xf == (b >> 44) & 0xf,
            (a >> 40) & 0xf == (b >> 40) & 0xf,
            (a >> 36) & 0xf == (b >> 36) & 0xf,
            (a >> 32) & 0xf == (b >> 32) & 0xf,
            (a >> 28) & 0xf == (b >> 28) & 0xf,
            (a >> 24) & 0xf == (b >> 24) & 0xf,
            (a >> 20) & 0xf == (b >> 20) & 0xf,
            (a >> 16) & 0xf == (b >> 16) & 0xf,
            (a >> 12) & 0xf == (b >> 12) & 0xf,
            (a >> 8) & 0xf == (b >> 8) & 0xf,
            (a >> 4) & 0xf == (b >> 4) & 0xf,
            (a >> 0) & 0xf == (b >> 0) & 0xf,
    ;
}

proof fn lemma_count_emits_zero(
    objs: Seq<TrackObs>,
    poly: Quad,
    reg: Seq<u128>,
    extras: Seq<ExtraEntry>,
    min_lifetime: int,
    id: u128,
)
    requires
        forall|k: int| 0 <= k < objs.len() ==> (#[trigger] objs[k]).id != id,
    ensures
        count_emits_for(objs, poly, reg, extras, min_lifetime, id) == 0,
    decreases objs.len(),
{
    if objs.len() > 0 {
        lemma_count_emits_zero(objs.drop_last(), poly, reg, extras, min_lifetime, id);
    }
}

proof fn lemma_count_emits_le_one(
    objs: Seq<TrackObs>,
    poly: Quad,
    reg: Seq<u128>,
    extras: Seq<ExtraEntry>,
    min_lifetime: int,
    id: u128,
)
    requires
        unique_obs_ids(objs),
    ensures
        count_emits_for(objs, poly, reg, extras, min_lifetime, id) <= 1,
    decreases objs.len(),
{
    if objs.len() > 0 {
        let front = objs.drop_last();
        assert(unique_obs_ids(front)) by {
            assert(forall|k: int| 0 <= k < front.len() ==> #[trigger] front[k] == objs[k]);
        }
        lemma_count_emits_le_one(front, poly, reg, extras, min_lifetime, id);
        if objs.last().id == id {
            assert forall|k: int| 0 <= k < front.len() implies (#[trigger] front[k]).id != id by {
                assert(objs[k].id != objs[objs.len() - 1].id);
            }
            lemma_count_emits_zero(front, poly, reg, extras, min_lifetime, id);
        }
    }
}

proof fn lemma_count_emits_pos(
    objs: Seq<TrackObs>,
    poly: Quad,
    reg: Seq<u128>,
    extras: Seq<ExtraEntry>,
    min_lifetime: int,
    id: u128,
)
    requires
        emitted_in(objs, poly, reg, extras, min_lifetime, id),
        unique_obs_ids(objs),
    ensures
        count_emits_for(objs, poly, reg, extras, min_lifetime, id) == 1,
    decreases objs.len(),
{
    lemma_count_emits_le_one(objs, poly, reg, extras, min_lifetime, id);
    let k = choose|k: int|
        0 <= k < objs.len() && objs[k].id == id && emits(poly, reg, extras, min_lifetime, objs[k]);
    if k == objs.len() - 1 {
        assert(count_emits_for(objs.drop_last(), poly, reg, extras, min_lifetime, id) >= 0) by {
            lemma_count_emits_nonneg(objs.drop_last(), poly, reg, extras, min_lifetime, id);
        }
    } else {
        let front = objs.drop_last();
        assert(front[k] == objs[k]);
        assert(emitted_in(front, poly, reg, extras, min_lifetime, id));
        assert(unique_obs_ids(front)) by {
            assert(forall|j: int| 0 <= j < front.len() ==> #[trigger] front[j] == objs[j]);
        }
        lemma_count_emits_pos(front, poly, reg, extras, min_lifetime, id);
        assert(objs.last().id != id) by {
            assert(objs[k].id != objs[objs.len() - 1].id);
        }
    }
}

proof fn lemma_count_emits_nonneg(
    objs: Seq<TrackObs>,
    poly: Quad,
    reg: Seq<u128>,
    extras: Seq<ExtraEntry>,
    min_lifetime: int,
    id: u128,
)
    ensures
        count_emits_for(objs, poly, reg, extras, min_lifetime, id) >= 0,
    decreases objs.len(),
{
    if objs.len() > 0 {
        lemma_count_emits_nonneg(objs.drop_last(), poly, reg, extras, min_lifetime, id);
    }
}

/// The events of one walk, counted per track: exactly as many events carry a
/// track's rendered id as there are emitting table entries with that
/// identity.
pub proof fn lemma_zone_events_count(
    objs: Seq<TrackObs>,
    poly: Quad,
    reg: Seq<u128>,
    extras: Seq<ExtraEntry>,
    min_lifetime: int,
    now: i64,
    zone_id: Seq<char>,
    equipment_id: Option<Seq<char>>,
    image: Option<Seq<u8>>,
    id: u128,
)
    ensures
        count_cores_for(
            spec_zone_events(
                objs,
                poly,
                reg,
                extras,
                min_lifetime,
                now,
                zone_id,
                equipment_id,
                image,
            ),
            uuid_hyphenated(id),
        ) == count_emits_for(objs, poly, reg, extras, min_lifetime, id),
    decreases objs.len(),
{
    if objs.len() > 0 {
        lemma_zone_events_count(
            objs.drop_last(),
            poly,
            reg,
            extras,
            min_lifetime,
            now,
            zone_id,
            equipment_id,
            image,
            id,
        );
        let front_cores = spec_zone_events(
            objs.drop_last(),
            poly,
            reg,
            extras,
            min_lifetime,
            now,
            zone_id,
            equipment_id,
            image,
        );
        let cores = spec_zone_events(
            objs,
            poly,
            reg,
            extras,
            min_lifetime,
            now,
            zone_id,
            equipment_id,
            image,
        );
        let o = objs.last();
        if emits(poly, reg, extras, min_lifetime, o) {
            let c = core_of(o, find_extra(extras, o.id).unwrap(), now, zone_id, equipment_id,
                image);
            assert(cores =~= front_cores.push(c));
            assert(cores.drop_last() =~= front_cores);
            if o.id == id {
                assert(c.object_id == uuid_hyphenated(id));
            } else {
                assert(c.object_id != uuid_hyphenated(id)) by {
                    if c.object_id == uuid_hyphenated(id) {
                        lemma_uuid_hyphenated_injective(o.id, id);
                    }
                }
            }
        } else {
            assert(cores =~= front_cores);
        }
    }
}

/// Metadata subset invariant: every identity in the metadata table is present
/// in the external track table.
pub proof fn lemma_metadata_subset(t: Tracker)
    requires
        t.wf(),
    ensures
        forall|id: u128| #[trigger]
            has_extra(t.objects_extra@, id) ==> obs_contains(t.objects@, id),
{
    assert forall|id: u128| #[trigger]
        has_extra(t.objects_extra@, id) implies obs_contains(t.objects@, id) by {
        let j = choose|j: int| 0 <= j < t.objects_extra@.len() && t.objects_extra@[j].id == id;
        assert(obs_contains(t.objects@, t.objects_extra@[j].id));
    }
}

/// Purge on disappearance: an identity that vanished from the track table
/// holds no metadata after reconciliation, and is not registered with a zone
/// after its walk.
pub proof fn lemma_purge_on_disappearance(
    t0: Tracker,
    t1: Tracker,
    observations: Seq<TrackObs>,
    assigned: Seq<u128>,
    class_names: Seq<String>,
    confidences: Seq<u32>,
    rel: u64,
    now: int,
    z0: Zone,
    z1: Zone,
    t2: Tracker,
    t3: Tracker,
    events: Seq<EventInfo>,
    min_lifetime: int,
    max_lifetime: int,
    equipment_id: Option<Seq<char>>,
    image: Option<Seq<u8>>,
    znow: i64,
    id: u128,
)
    requires
        reconciled(t0, t1, observations, assigned, class_names, confidences, rel, now),
        !obs_contains(observations, id),
        zone_step(
            z0,
            z1,
            t2,
            t3,
            events,
            min_lifetime,
            max_lifetime,
            equipment_id,
            image,
            znow,
        ),
        !obs_contains(t2.objects@, id),
    ensures
        !has_extra(t1.objects_extra@, id),
        !z1.objects_registered@.contains(id),
{
    if emitted_in(t2.objects@, z0.polygon, z0.objects_registered@, t2.objects_extra@,
        min_lifetime, id) {
        let k = choose|k: int|
            0 <= k < t2.objects@.len() && t2.objects@[k].id == id && emits(
                z0.polygon,
                z0.objects_registered@,
                t2.objects_extra@,
                min_lifetime,
                t2.objects@[k],
            );
        assert(obs_contains(t2.objects@, id));
    }
}

/// At most one event per (track, zone) in one walk: the produced events carry
/// a given track's id at most once.
pub proof fn lemma_at_most_one_event_per_cycle(
    objs: Seq<TrackObs>,
    poly: Quad,
    reg: Seq<u128>,
    extras: Seq<ExtraEntry>,
    min_lifetime: int,
    now: i64,
    zone_id: Seq<char>,
    equipment_id: Option<Seq<char>>,
    image: Option<Seq<u8>>,
    id: u128,
)
    requires
        unique_obs_ids(objs),
    ensures
        count_cores_for(
            spec_zone_events(
                objs,
                poly,
                reg,
                extras,
                min_lifetime,
                now,
                zone_id,
                equipment_id,
                image,
            ),
            uuid_hyphenated(id),
        ) <= 1,
{
    lemma_zone_events_count(objs, poly, reg, extras, min_lifetime, now, zone_id, equipment_id,
        image, id);
    lemma_count_emits_le_one(objs, poly, reg, extras, min_lifetime, id);
}

/// A track already registered with a zone produces no further event in that
/// zone: re-reporting waits for the re-arm rule.
pub proof fn lemma_no_event_while_registered(
    objs: Seq<TrackObs>,
    poly: Quad,
    reg: Seq<u128>,
    extras: Seq<ExtraEntry>,
    min_lifetime: int,
    now: i64,
    zone_id: Seq<char>,
    equipment_id: Option<Seq<char>>,
    image: Option<Seq<u8>>,
    id: u128,
)
    requires
        reg.contains(id),
    ensures
        !emitted_in(objs, poly, reg, extras, min_lifetime, id),
        count_cores_for(
            spec_zone_events(
                objs,
                poly,
                reg,
                extras,
                min_lifetime,
                now,
                zone_id,
                equipment_id,
                image,
            ),
            uuid_hyphenated(id),
        ) == 0,
{
    assert forall|k: int|
        0 <= k < objs.len() implies !((#[trigger] objs[k]).id == id && emits(
        poly,
        reg,
        extras,
        min_lifetime,
        objs[k],
    )) by {
        if objs[k].id == id {
            assert(reg.contains(objs[k].id));
        }
    }
    lemma_zone_events_count(objs, poly, reg, extras, min_lifetime, now, zone_id, equipment_id,
        image, id);
    lemma_count_emits_zero_when_none(objs, poly, reg, extras, min_lifetime, id);
}

proof fn lemma_count_emits_zero_when_none(
    objs: Seq<TrackObs>,
    poly: Quad,
    reg: Seq<u128>,
    extras: Seq<ExtraEntry>,
    min_lifetime: int,
    id: u128,
)
    requires
        forall|k: int|
            0 <= k < objs.len() ==> !((#[trigger] objs[k]).id == id && emits(
                poly,
                reg,
                extras,
                min_lifetime,
                objs[k],
            )),
    ensures
        count_emits_for(objs, poly, reg, extras, min_lifetime, id) == 0,
    decreases objs.len(),
{
    if objs.len() > 0 {
        lemma_count_emits_zero_when_none(objs.drop_last(), poly, reg, extras, min_lifetime, id);
    }
}

/// Re-arm resets identity: a registered track past the maximum lifetime
/// loses its metadata and registration in the walk, the walk emits no event
/// for it, and the next reconciliation that observes and matches the identity
/// registers it as brand-new, with both timestamps set to that moment.
pub proof fn lemma_rearm_resets_identity(
    z0: Zone,
    z1: Zone,
    t0: Tracker,
    t1: Tracker,
    events: Seq<EventInfo>,
    min_lifetime: int,
    max_lifetime: int,
    equipment_id: Option<Seq<char>>,
    image: Option<Seq<u8>>,
    now: i64,
    observations: Seq<TrackObs>,
    assigned: Seq<u128>,
    class_names: Seq<String>,
    confidences: Seq<u32>,
    rel: u64,
    now2: int,
    t2: Tracker,
    id: u128,
)
    requires
        zone_step(z0, z1, t0, t1, events, min_lifetime, max_lifetime, equipment_id, image, now),
        unique_obs_ids(t0.objects@),
        rearmed_in(
            t0.objects@,
            z0.polygon,
            z0.objects_registered@,
            t0.objects_extra@,
            min_lifetime,
            max_lifetime,
            id,
        ),
        reconciled(t1, t2, observations, assigned, class_names, confidences, rel, now2),
        obs_contains(observations, id),
        assigned.contains(id),
    ensures
        !has_extra(t1.objects_extra@, id),
        !z1.objects_registered@.contains(id),
        !emitted_in(
            t0.objects@,
            z0.polygon,
            z0.objects_registered@,
            t0.objects_extra@,
            min_lifetime,
            id,
        ),
        count_cores_for(
            spec_zone_events(
                t0.objects@,
                z0.polygon,
                z0.objects_registered@,
                t0.objects_extra@,
                min_lifetime,
                now,
                z0.id@,
                equipment_id,
                image,
            ),
            uuid_hyphenated(id),
        ) == 0,
        has_extra(t2.objects_extra@, id),
        forall|j: int|
            0 <= j < t2.objects_extra@.len() && (#[trigger] t2.objects_extra@[j]).id == id ==> {
                &&& t2.objects_extra@[j].extra.register_unix_tm == now2
                &&& t2.objects_extra@[j].extra.updated_unix_tm == now2
                &&& t2.objects_extra@[j].extra.register_relative_second == rel
            },
{
    let objs = t0.objects@;
    let reg0 = z0.objects_registered@;
    let extras0 = t0.objects_extra@;
    // an identity cannot both emit and re-arm in one walk
    if emitted_in(objs, z0.polygon, reg0, extras0, min_lifetime, id) {
        let ke = choose|k: int|
            0 <= k < objs.len() && objs[k].id == id && emits(
                z0.polygon,
                reg0,
                extras0,
                min_lifetime,
                objs[k],
            );
        let kr = choose|k: int|
            0 <= k < objs.len() && objs[k].id == id && rearms(
                z0.polygon,
                reg0,
                extras0,
                min_lifetime,
                max_lifetime,
                objs[k],
            );
        assert(false);
    }
    assert forall|k: int|
        0 <= k < objs.len() implies !((#[trigger] objs[k]).id == id && emits(
        z0.polygon,
        reg0,
        extras0,
        min_lifetime,
        objs[k],
    )) by {
        if objs[k].id == id && emits(z0.polygon, reg0, extras0, min_lifetime, objs[k]) {
            assert(emitted_in(objs, z0.polygon, reg0, extras0, min_lifetime, id));
        }
    }
    lemma_zone_events_count(objs, z0.polygon, reg0, extras0, min_lifetime, now, z0.id@,
        equipment_id, image, id);
    lemma_count_emits_zero_when_none(objs, z0.polygon, reg0, extras0, min_lifetime, id);
    assert forall|j: int|
        0 <= j < t2.objects_extra@.len() && (#[trigger] t2.objects_extra@[j]).id == id implies {
        &&& t2.objects_extra@[j].extra.register_unix_tm == now2
        &&& t2.objects_extra@[j].extra.updated_unix_tm == now2
        &&& t2.objects_extra@[j].extra.register_relative_second == rel
    } by {
        assert(!has_extra(t1.objects_extra@, t2.objects_extra@[j].id));
    }
}

/// Zone independence: a track qualifying in two zones in the same frame
/// produces one event in each walk, each walk deciding against its own
/// registered set; processing the first zone does not disturb the second.
pub proof fn lemma_zone_independence(
    za0: Zone,
    za1: Zone,
    zb0: Zone,
    t0: Tracker,
    t1: Tracker,
    events_a: Seq<EventInfo>,
    min_lifetime: int,
    max_lifetime: int,
    equipment_id: Option<Seq<char>>,
    image: Option<Seq<u8>>,
    now: i64,
    o: TrackObs,
)
    requires
        zone_step(
            za0,
            za1,
            t0,
            t1,
            events_a,
            min_lifetime,
            max_lifetime,
            equipment_id,
            image,
            now,
        ),
        unique_obs_ids(t0.objects@),
        unique_extra_ids(t0.objects_extra@),
        unique_extra_ids(t1.objects_extra@),
        t0.objects@.contains(o),
        emits(za0.polygon, za0.objects_registered@, t0.objects_extra@, min_lifetime, o),
        emits(zb0.polygon, zb0.objects_registered@, t0.objects_extra@, min_lifetime, o),
    ensures
        emitted_in(
            t0.objects@,
            za0.polygon,
            za0.objects_registered@,
            t0.objects_extra@,
            min_lifetime,
            o.id,
        ),
        emitted_in(
            t1.objects@,
            zb0.polygon,
            zb0.objects_registered@,
            t1.objects_extra@,
            min_lifetime,
            o.id,
        ),
{
    let objs = t0.objects@;
    let k0 = choose|k: int| 0 <= k < objs.len() && objs[k] == o;
    assert(emitted_in(objs, za0.polygon, za0.objects_registered@, t0.objects_extra@,
        min_lifetime, o.id)) by {
        assert(objs[k0].id == o.id && emits(za0.polygon, za0.objects_registered@,
            t0.objects_extra@, min_lifetime, objs[k0]));
    }
    // the first walk did not re-arm this identity: it was not registered there
    assert(!rearmed_in(objs, za0.polygon, za0.objects_registered@, t0.objects_extra@,
        min_lifetime, max_lifetime, o.id)) by {
        if rearmed_in(objs, za0.polygon, za0.objects_registered@, t0.objects_extra@,
            min_lifetime, max_lifetime, o.id) {
            let k = choose|k: int|
                0 <= k < objs.len() && objs[k].id == o.id && rearms(
                    za0.polygon,
                    za0.objects_registered@,
                    t0.objects_extra@,
                    min_lifetime,
                    max_lifetime,
                    objs[k],
                );
            assert(za0.objects_registered@.contains(objs[k].id));
        }
    }
    assert(has_extra(t1.objects_extra@, o.id) == has_extra(t0.objects_extra@, o.id));
    // the surviving metadata entry is unchanged, so the second zone sees the
    // same lifetime
    lemma_find_extra(t0.objects_extra@, o.id);
    lemma_find_extra(t1.objects_extra@, o.id);
    assert(has_extra(t0.objects_extra@, o.id));
    let w0 = choose|w: int|
        0 <= w < t0.objects_extra@.len() && t0.objects_extra@[w].id == o.id;
    let w1 = choose|w: int|
        0 <= w < t1.objects_extra@.len() && t1.objects_extra@[w].id == o.id;
    assert(t1.objects_extra@[w1].extra == t0.objects_extra@[w0].extra) by {
        assert(t0.objects_extra@[w0].id == t1.objects_extra@[w1].id);
    }
    assert(find_extra(t0.objects_extra@, o.id) == Some(t0.objects_extra@[w0].extra));
    assert(find_extra(t1.objects_extra@, o.id) == Some(t1.objects_extra@[w1].extra));
    assert(emits(zb0.polygon, zb0.objects_registered@, t1.objects_extra@, min_lifetime, o));
    assert(t1.objects@ == objs);
    assert(emitted_in(t1.objects@, zb0.polygon, zb0.objects_registered@, t1.objects_extra@,
        min_lifetime, o.id)) by {
        assert(t1.objects@[k0].id == o.id && emits(zb0.polygon, zb0.objects_registered@,
            t1.objects_extra@, min_lifetime, t1.objects@[k0]));
    }
}

/// Dwell threshold boundary: a lifetime of exactly the minimum does not yet
/// qualify (strictly greater is required); one second past the minimum does.
pub proof fn lemma_dwell_threshold_boundary(
    poly: Quad,
    reg: Seq<u128>,
    extras: Seq<ExtraEntry>,
    min_lifetime: int,
    max_lifetime: int,
    o: TrackObs,
)
    ensures
        (find_extra(extras, o.id) matches Some(e) && spec_lifetime(e) == min_lifetime) ==> (
        !emits(poly, reg, extras, min_lifetime, o) && !rearms(
            poly,
            reg,
            extras,
            min_lifetime,
            max_lifetime,
            o,
        )),
        (find_extra(extras, o.id) matches Some(e) && spec_lifetime(e) == min_lifetime + 1
            && track_visible(o) && track_in_zone(poly, o) && !reg.contains(o.id)) ==> emits(
            poly,
            reg,
            extras,
            min_lifetime,
            o,
        ),
{
}

/// Every event of one walk carries that zone's id.
pub proof fn lemma_events_carry_zone_id(
    objs: Seq<TrackObs>,
    poly: Quad,
    reg: Seq<u128>,
    extras: Seq<ExtraEntry>,
    min_lifetime: int,
    now: i64,
    zone_id: Seq<char>,
    equipment_id: Option<Seq<char>>,
    image: Option<Seq<u8>>,
)
    ensures
        forall|k: int|
            0 <= k < spec_zone_events(
                objs,
                poly,
                reg,
                extras,
                min_lifetime,
                now,
                zone_id,
                equipment_id,
                image,
            ).len() ==> spec_zone_events(
                objs,
                poly,
                reg,
                extras,
                min_lifetime,
                now,
                zone_id,
                equipment_id,
                image,
            )[k].zone_id == zone_id,
    decreases objs.len(),
{
    if objs.len() > 0 {
        lemma_events_carry_zone_id(objs.drop_last(), poly, reg, extras, min_lifetime, now,
            zone_id, equipment_id, image);
    }
}

/// A registered track that stays in the table and does not re-arm remains
/// registered through the walk and produces no event: together with
/// `lemma_at_most_one_event_per_cycle` this is the one-event-per-registration
/// -cycle rule.
pub proof fn lemma_registered_until_rearm(
    z0: Zone,
    z1: Zone,
    t0: Tracker,
    t1: Tracker,
    events: Seq<EventInfo>,
    min_lifetime: int,
    max_lifetime: int,
    equipment_id: Option<Seq<char>>,
    image: Option<Seq<u8>>,
    now: i64,
    id: u128,
)
    requires
        zone_step(z0, z1, t0, t1, events, min_lifetime, max_lifetime, equipment_id, image, now),
        z0.objects_registered@.contains(id),
        obs_contains(t0.objects@, id),
        !rearmed_in(
            t0.objects@,
            z0.polygon,
            z0.objects_registered@,
            t0.objects_extra@,
            min_lifetime,
            max_lifetime,
            id,
        ),
    ensures
        z1.objects_registered@.contains(id),
        count_cores_for(
            spec_zone_events(
                t0.objects@,
                z0.polygon,
                z0.objects_registered@,
                t0.objects_extra@,
                min_lifetime,
                now,
                z0.id@,
                equipment_id,
                image,
            ),
            uuid_hyphenated(id),
        ) == 0,
{
    lemma_no_event_while_registered(
        t0.objects@,
        z0.polygon,
        z0.objects_registered@,
        t0.objects_extra@,
        min_lifetime,
        now,
        z0.id@,
        equipment_id,
        image,
        id,
    );
}

/// An emitted track is registered with the zone after the walk.
pub proof fn lemma_event_registers(
    z0: Zone,
    z1: Zone,
    t0: Tracker,
    t1: Tracker,
    events: Seq<EventInfo>,
    min_lifetime: int,
    max_lifetime: int,
    equipment_id: Option<Seq<char>>,
    image: Option<Seq<u8>>,
    now: i64,
    id: u128,
)
    requires
        zone_step(z0, z1, t0, t1, events, min_lifetime, max_lifetime, equipment_id, image, now),
        emitted_in(
            t0.objects@,
            z0.polygon,
            z0.objects_registered@,
            t0.objects_extra@,
            min_lifetime,
            id,
        ),
    ensures
        z1.objects_registered@.contains(id),
{
}

} // verus!
