//! What streaming does to the set of live chunks, cycle after cycle.
//!
//! Only origins matter here. One cycle keeps the live chunks that are
//! desired, drops the others and adds the nearest missing ones
//! ([`next_live`], [`lemma_cycle_live_origins`]). Around an observer that
//! stays where it is, the missing chunks are worked off from the front of
//! their order ([`lemma_missing_after_cycle`]), so that after enough cycles the
//! live chunks are exactly the desired ones ([`lemma_converges`]) and stay so
//! ([`lemma_settled_is_fixed`]).
use vstd::prelude::*;
use crate::chunk::ChunkView;
use crate::coord::Coord;
use crate::density::{Density, MAX_RESOLUTION};
use crate::order::{
    ascending_near,
    desired_origin,
    in_desired,
    is_spawn_order,
    lemma_desired_fits,
    lemma_spawn_order_exists,
    lemma_spawn_order_unique,
    lemma_streamable_in_reach,
    min,
    nearer,
    origin_of,
    spawn_order,
    streamable,
};
use crate::settings::TerrainCellEvent;
use crate::streaming::{after_events, origins, swept, ManagerView};

verus! {

/// The live origins after one cycle: those that were live and are desired,
/// and those of the first `budget` missing chunks.
pub open spec fn next_live(
    live: Set<Coord>,
    center: Coord,
    radius: int,
    resolution: int,
    budget: int,
) -> Set<Coord> {
    Set::new(
        |o: Coord|
            (live.contains(o) && desired_origin(center, radius, resolution, o)) || exists|t: int|
                0 <= t < min(budget, spawn_order(center, radius, resolution, live).len() as int)
                    && origin_of(
                    #[trigger] spawn_order(center, radius, resolution, live)[t],
                    resolution,
                ) == o,
    )
}

/// The live origins after a number of cycles around the same center.
pub open spec fn live_after(
    live: Set<Coord>,
    center: Coord,
    radius: int,
    resolution: int,
    budget: int,
    cycles: nat,
) -> Set<Coord>
    decreases cycles,
{
    if cycles == 0 {
        live
    } else {
        next_live(
            live_after(live, center, radius, resolution, budget, (cycles - 1) as nat),
            center,
            radius,
            resolution,
            budget,
        )
    }
}

/// Whether the live origins are exactly the desired ones.
pub open spec fn settled(live: Set<Coord>, center: Coord, radius: int, resolution: int) -> bool {
    forall|o: Coord| live.contains(o) <==> desired_origin(center, radius, resolution, o)
}

proof fn lemma_same_origin_same_chunk(
    center: Coord,
    radius: int,
    resolution: int,
    a: Coord,
    b: Coord,
)
    requires
        1 <= resolution <= MAX_RESOLUTION,
        streamable(center, radius, resolution),
        in_desired(center, radius, a),
        in_desired(center, radius, b),
        origin_of(a, resolution) == origin_of(b, resolution),
    ensures
        a == b,
{
    lemma_desired_fits(center, radius, resolution, a);
    lemma_desired_fits(center, radius, resolution, b);
    assert(a.x == b.x && a.y == b.y && a.z == b.z) by (nonlinear_arith)
        requires
            1 <= resolution,
            a.x * resolution == b.x * resolution,
            a.y * resolution == b.y * resolution,
            a.z * resolution == b.z * resolution,
    ;
}

/// After a cycle the missing chunks are those that were missing before,
/// without the ones that the cycle made: the order of making loses its front.
pub proof fn lemma_missing_after_cycle(
    live: Set<Coord>,
    center: Coord,
    radius: int,
    resolution: int,
    budget: int,
)
    requires
        1 <= resolution <= MAX_RESOLUTION,
        0 <= radius,
        streamable(center, radius, resolution),
        0 <= budget,
    ensures
        spawn_order(
            center,
            radius,
            resolution,
            next_live(live, center, radius, resolution, budget),
        ) == spawn_order(center, radius, resolution, live).skip(
            min(budget, spawn_order(center, radius, resolution, live).len() as int),
        ),
        forall|o: Coord|
            next_live(live, center, radius, resolution, budget).contains(o) ==> desired_origin(
                center,
                radius,
                resolution,
                o,
            ),
{
    lemma_streamable_in_reach(center, radius, resolution);
    let order = spawn_order(center, radius, resolution, live);
    lemma_spawn_order_exists(center, radius, resolution, live);
    let count = min(budget, order.len() as int);
    let next = next_live(live, center, radius, resolution, budget);
    let rest = order.skip(count);
    assert forall|o: Coord| next.contains(o) implies desired_origin(center, radius, resolution, o) by {
        if !(live.contains(o) && desired_origin(center, radius, resolution, o)) {
            let t = choose|t: int|
                0 <= t < count && origin_of(#[trigger] order[t], resolution) == o;
            assert(order.contains(order[t]));
            assert(in_desired(center, radius, order[t]));
        }
    }
    assert(ascending_near(center, rest)) by {
        assert forall|p: int, q: int| 0 <= p < q < rest.len() implies nearer(
            center,
            #[trigger] rest[p],
            #[trigger] rest[q],
        ) by {
            assert(nearer(center, order[count + p], order[count + q]));
        }
    }
    assert forall|g: Coord| #[trigger]
        rest.contains(g) <==> in_desired(center, radius, g) && !next.contains(
            origin_of(g, resolution),
        ) by {
        let o = origin_of(g, resolution);
        if rest.contains(g) {
            let i = choose|i: int| 0 <= i < rest.len() && rest[i] == g;
            assert(order[count + i] == g);
            assert(order.contains(g));
            if next.contains(o) {
                let t = choose|t: int|
                    0 <= t < count && origin_of(#[trigger] order[t], resolution) == o;
                assert(order.contains(order[t]));
                lemma_same_origin_same_chunk(center, radius, resolution, order[t], g);
                assert(nearer(center, order[t], order[count + i]));
                assert(false);
            }
        }
        if in_desired(center, radius, g) && !next.contains(o) {
            assert(desired_origin(center, radius, resolution, o));
            assert(!live.contains(o));
            assert(order.contains(g));
            let j = choose|j: int| 0 <= j < order.len() && order[j] == g;
            if j < count {
                assert(origin_of(order[j], resolution) == o);
                assert(false);
            }
            assert(rest[j - count] == g);
        }
    }
    assert(is_spawn_order(rest, center, radius, resolution, next));
    lemma_spawn_order_unique(rest, center, radius, resolution, next);
}

/// Once the live chunks are exactly the desired ones, nothing is missing and
/// a cycle changes nothing.
pub proof fn lemma_settled_is_fixed(
    live: Set<Coord>,
    center: Coord,
    radius: int,
    resolution: int,
    budget: int,
)
    requires
        1 <= resolution <= MAX_RESOLUTION,
        0 <= radius,
        streamable(center, radius, resolution),
        settled(live, center, radius, resolution),
    ensures
        spawn_order(center, radius, resolution, live).len() == 0,
        next_live(live, center, radius, resolution, budget) == live,
{
    lemma_streamable_in_reach(center, radius, resolution);
    let order = spawn_order(center, radius, resolution, live);
    lemma_spawn_order_exists(center, radius, resolution, live);
    if order.len() > 0 {
        assert(order.contains(order[0]));
        assert(desired_origin(center, radius, resolution, origin_of(order[0], resolution)));
        assert(false);
    }
    assert(next_live(live, center, radius, resolution, budget) =~= live);
}

proof fn lemma_missing_after_cycles(
    live: Set<Coord>,
    center: Coord,
    radius: int,
    resolution: int,
    budget: int,
    cycles: nat,
)
    requires
        1 <= resolution <= MAX_RESOLUTION,
        0 <= radius,
        streamable(center, radius, resolution),
        0 <= budget,
    ensures
        spawn_order(
            center,
            radius,
            resolution,
            live_after(live, center, radius, resolution, budget, cycles),
        ) == spawn_order(center, radius, resolution, live).skip(
            min(cycles * budget, spawn_order(center, radius, resolution, live).len() as int),
        ),
        cycles >= 1 ==> forall|o: Coord|
            live_after(live, center, radius, resolution, budget, cycles).contains(o)
                ==> desired_origin(center, radius, resolution, o),
    decreases cycles,
{
    let order = spawn_order(center, radius, resolution, live);
    if cycles == 0 {
        assert(0 * budget == 0) by (nonlinear_arith);
        assert(order.skip(0) =~= order);
    } else {
        let before = live_after(live, center, radius, resolution, budget, (cycles - 1) as nat);
        lemma_missing_after_cycles(live, center, radius, resolution, budget, (cycles - 1) as nat);
        lemma_missing_after_cycle(before, center, radius, resolution, budget);
        let done = min((cycles - 1) * budget, order.len() as int);
        assert(cycles * budget == (cycles - 1) * budget + budget) by (nonlinear_arith);
        assert(0 <= (cycles - 1) * budget) by (nonlinear_arith)
            requires
                cycles >= 1,
                budget >= 0,
        ;
        let left = order.skip(done);
        let step = min(budget, left.len() as int);
        assert(left.skip(step) =~= order.skip(min(cycles * budget, order.len() as int)));
    }
}

/// Around an observer that stays where it is, the live chunks become exactly
/// the desired ones: after at least one cycle, and as many cycles as it takes
/// to make the chunks that were missing at the given budget.
pub proof fn lemma_converges(
    live: Set<Coord>,
    center: Coord,
    radius: int,
    resolution: int,
    budget: int,
    cycles: nat,
)
    requires
        1 <= resolution <= MAX_RESOLUTION,
        0 <= radius,
        streamable(center, radius, resolution),
        1 <= budget,
        1 <= cycles,
        spawn_order(center, radius, resolution, live).len() <= cycles * budget,
    ensures
        settled(
            live_after(live, center, radius, resolution, budget, cycles),
            center,
            radius,
            resolution,
        ),
{
    let order = spawn_order(center, radius, resolution, live);
    let end = live_after(live, center, radius, resolution, budget, cycles);
    lemma_streamable_in_reach(center, radius, resolution);
    lemma_missing_after_cycles(live, center, radius, resolution, budget, cycles);
    lemma_spawn_order_exists(center, radius, resolution, end);
    let missing = spawn_order(center, radius, resolution, end);
    assert(missing.len() == 0);
    assert forall|o: Coord| end.contains(o) <==> desired_origin(center, radius, resolution, o) by {
        if desired_origin(center, radius, resolution, o) && !end.contains(o) {
            let g = choose|g: Coord|
                in_desired(center, radius, g) && #[trigger] origin_of(g, resolution) == o;
            assert(missing.contains(g));
            assert(false);
        }
    }
}

/// The origins that a sweep leaves are those of the chunks that were not
/// marked for removal, and none of the chunks it leaves is marked.
pub proof fn lemma_swept_origins(chunks: Seq<ChunkView>, iso: Density)
    ensures
        forall|o: Coord|
            origins(swept(chunks, iso)).contains(o) <==> exists|i: int|
                0 <= i < chunks.len() && !(#[trigger] chunks[i]).pending_destroy
                    && chunks[i].origin() == o,
        forall|j: int|
            0 <= j < swept(chunks, iso).len() ==> !(#[trigger] swept(chunks, iso)[j]).pending_destroy,
    decreases chunks.len(),
{
    let out = swept(chunks, iso);
    if chunks.len() == 0 {
        assert forall|o: Coord| origins(out).contains(o) <==> exists|i: int|
            0 <= i < chunks.len() && !(#[trigger] chunks[i]).pending_destroy && chunks[i].origin()
                == o by {
            if origins(out).contains(o) {
                let j = choose|j: int| 0 <= j < out.len() && (#[trigger] out[j]).origin() == o;
            }
        }
    } else {
        let front = chunks.drop_last();
        let last = chunks.last();
        let rest = swept(front, iso);
        lemma_swept_origins(front, iso);
        assert forall|o: Coord| origins(out).contains(o) <==> exists|i: int|
            0 <= i < chunks.len() && !(#[trigger] chunks[i]).pending_destroy && chunks[i].origin()
                == o by {
            if origins(out).contains(o) {
                let j = choose|j: int| 0 <= j < out.len() && (#[trigger] out[j]).origin() == o;
                if j < rest.len() {
                    assert(rest[j].origin() == o);
                    assert(origins(rest).contains(o));
                    let i = choose|i: int|
                        0 <= i < front.len() && !(#[trigger] front[i]).pending_destroy
                            && front[i].origin() == o;
                    assert(!chunks[i].pending_destroy && chunks[i].origin() == o);
                } else {
                    assert(!chunks[chunks.len() - 1].pending_destroy && chunks[chunks.len()
                        - 1].origin() == o);
                }
            }
            if exists|i: int|
                0 <= i < chunks.len() && !(#[trigger] chunks[i]).pending_destroy
                    && chunks[i].origin() == o {
                let i = choose|i: int|
                    0 <= i < chunks.len() && !(#[trigger] chunks[i]).pending_destroy
                        && chunks[i].origin() == o;
                if i < front.len() {
                    assert(!front[i].pending_destroy && front[i].origin() == o);
                    assert(origins(rest).contains(o));
                    let j = choose|j: int| 0 <= j < rest.len() && (#[trigger] rest[j]).origin() == o;
                    assert(out[j].origin() == o);
                } else {
                    assert(out[out.len() - 1].origin() == o);
                }
            }
        }
        assert forall|j: int| 0 <= j < out.len() implies !(#[trigger] out[j]).pending_destroy by {
            if j < rest.len() {
                assert(!rest[j].pending_destroy);
            }
        }
    }
}

/// Edits change neither where a chunk is nor whether it is marked for
/// removal.
pub proof fn lemma_events_keep_place(chunks: Seq<ChunkView>, events: Seq<TerrainCellEvent>)
    ensures
        after_events(chunks, events).len() == chunks.len(),
        forall|i: int|
            0 <= i < chunks.len() ==> (#[trigger] after_events(chunks, events)[i]).origin()
                == chunks[i].origin() && after_events(chunks, events)[i].pending_destroy
                == chunks[i].pending_destroy,
    decreases events.len(),
{
    if events.len() > 0 {
        lemma_events_keep_place(chunks, events.drop_last());
        let before = after_events(chunks, events.drop_last());
        assert forall|i: int| 0 <= i < chunks.len() implies (#[trigger] after_events(
            chunks,
            events,
        )[i]).origin() == chunks[i].origin() && after_events(chunks, events)[i].pending_destroy
            == chunks[i].pending_destroy by {
            assert(before[i].origin() == chunks[i].origin());
            assert(after_events(chunks, events)[i] == before[i].edited(
                events.last().world_pos,
                events.last().value,
            ));
        }
    }
}

/// Whether `after` is what [`crate::streaming::StreamingManager::spawn_around_player`]
/// makes of `before`, as far as origins and marks go.
pub open spec fn spawn_step(before: ManagerView, after: ManagerView, observer: Coord) -> bool {
    &&& after.settings == before.settings
    &&& after.chunks.len() == before.chunks.len() + before.spawn_count(observer)
    &&& forall|i: int|
        0 <= i < before.chunks.len() ==> #[trigger] after.chunks[i] == before.reconciled(observer, i)
    &&& forall|i: int|
        before.chunks.len() <= i < after.chunks.len() ==> (#[trigger] after.chunks[i]).origin()
            == origin_of(
            before.missing(observer)[i - before.chunks.len()],
            before.settings.resolution as int,
        ) && !after.chunks[i].pending_destroy
}

/// One whole cycle, started with no chunk marked for removal, takes the live
/// origins to [`next_live`] of them, and again leaves no chunk marked.
pub proof fn lemma_cycle_live_origins(
    before: ManagerView,
    spawned: ManagerView,
    events: Seq<TerrainCellEvent>,
    observer: Coord,
)
    requires
        before.wf(),
        before.can_stream_at(observer),
        forall|i: int| 0 <= i < before.chunks.len() ==> !(#[trigger] before.chunks[i]).pending_destroy,
        spawn_step(before, spawned, observer),
    ensures
        origins(swept(after_events(spawned.chunks, events), before.settings.iso_level))
            == next_live(
            before.live_origins(),
            before.center(observer),
            before.settings.spawn_radius as int,
            before.settings.resolution as int,
            before.settings.max_spawns_per_cycle as int,
        ),
        forall|j: int|
            0 <= j < swept(after_events(spawned.chunks, events), before.settings.iso_level).len()
                ==> !(#[trigger] swept(
                after_events(spawned.chunks, events),
                before.settings.iso_level,
            )[j]).pending_destroy,
{
    let iso = before.settings.iso_level;
    let center = before.center(observer);
    let radius = before.settings.spawn_radius as int;
    let resolution = before.settings.resolution as int;
    let budget = before.settings.max_spawns_per_cycle as int;
    let live = before.live_origins();
    let order = before.missing(observer);
    let count = before.spawn_count(observer);
    let base = before.chunks.len() as int;
    let edited = after_events(spawned.chunks, events);
    let out = swept(edited, iso);
    let next = next_live(live, center, radius, resolution, budget);
    lemma_events_keep_place(spawned.chunks, events);
    lemma_swept_origins(edited, iso);
    assert forall|o: Coord| origins(out).contains(o) <==> next.contains(o) by {
        if origins(out).contains(o) {
            let i = choose|i: int|
                0 <= i < edited.len() && !(#[trigger] edited[i]).pending_destroy
                    && edited[i].origin() == o;
            assert(spawned.chunks[i].origin() == o && !spawned.chunks[i].pending_destroy);
            if i < base {
                assert(spawned.chunks[i] == before.reconciled(observer, i));
                assert(before.chunks[i].origin() == o);
                assert(live.contains(o));
                assert(desired_origin(center, radius, resolution, o));
            } else {
                assert(origin_of(order[i - base], resolution) == o);
            }
        }
        if next.contains(o) {
            if live.contains(o) && desired_origin(center, radius, resolution, o) {
                let i = choose|i: int|
                    0 <= i < before.chunks.len() && (#[trigger] before.chunks[i]).origin() == o;
                assert(spawned.chunks[i] == before.reconciled(observer, i));
                assert(!edited[i].pending_destroy && edited[i].origin() == o);
            } else {
                let t = choose|t: int|
                    0 <= t < count && origin_of(#[trigger] order[t], resolution) == o;
                assert(spawned.chunks[base + t].origin() == o);
                assert(!edited[base + t].pending_destroy && edited[base + t].origin() == o);
            }
        }
    }
    assert(origins(out) =~= next);
}

} // verus!
