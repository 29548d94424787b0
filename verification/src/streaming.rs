//! The streaming manager: the live chunks, and the three steps of a cycle.
//!
//! A cycle is [`StreamingManager::spawn_around_player`], then
//! [`StreamingManager::read_terrain_events`], then
//! [`StreamingManager::update_chunks`]. The first marks the chunks that are no
//! longer desired and makes the nearest missing ones, the second applies the
//! edits, the third removes the marked chunks and rebuilds the dirty ones.
//! What the third step asks of the render and collision stores comes back as
//! a [`CycleOutput`]; the stores' answers are handed in with
//! [`StreamingManager::install_resources`].
use vstd::prelude::*;
use crate::chunk::{
    lemma_edit_keeps_shape,
    Chunk,
    ChunkView,
    ColliderHandle,
    ColliderReply,
    RebuildError,
    RebuildStatus,
    RenderHandle,
    RenderReply,
};
use crate::convergence::{lemma_cycle_live_origins, next_live, spawn_step};
use crate::coord::Coord;
use crate::density::{covers, sampled_from, Density, DensityField};
use crate::order::{
    ascending_lex,
    chunk_of,
    desired_chunks,
    desired_origin,
    in_desired,
    is_spawn_order,
    is_streamable,
    lemma_desired_fits,
    lemma_remove_contains,
    lemma_spawn_order_unique,
    lemma_streamable_in_reach,
    lex_less,
    min,
    origin_of,
    origin_of_chunk,
    player_chunk,
    sort_nearest_first,
    spawn_order,
    streamable,
};
use crate::settings::{TerrainCellEvent, TerrainSettings};

verus! {

/// What one run of [`StreamingManager::update_chunks`] asks of the stores.
pub struct CycleOutput {
    /// Render handles to release, in the order of the chunks that held them.
    pub release_render: Vec<RenderHandle>,
    /// Collider handles to release, in the order of the chunks that held
    /// them.
    pub release_colliders: Vec<ColliderHandle>,
    /// Origins of the chunks that have a new mesh and await resources for it.
    pub uploads: Vec<Coord>,
}

/// The origins of a sequence of chunks.
pub open spec fn origins(chunks: Seq<ChunkView>) -> Set<Coord> {
    Set::new(|o: Coord| exists|i: int| 0 <= i < chunks.len() && #[trigger] chunks[i].origin() == o)
}

/// The chunks that stay after a sweep, each rebuilt if it was dirty, in their
/// old order.
pub open spec fn swept(chunks: Seq<ChunkView>, iso: Density) -> Seq<ChunkView>
    decreases chunks.len(),
{
    if chunks.len() == 0 {
        Seq::empty()
    } else if chunks.last().pending_destroy {
        swept(chunks.drop_last(), iso)
    } else {
        swept(chunks.drop_last(), iso).push(chunks.last().rebuilt(iso))
    }
}

/// The render handle that a chunk gives up in a sweep: the one it holds, if
/// it is removed or rebuilt.
pub open spec fn render_given_up(c: ChunkView, iso: Density) -> Option<RenderHandle> {
    if c.pending_destroy {
        c.render
    } else {
        c.rebuild_request(iso).release_render
    }
}

/// The collider handle that a chunk gives up in a sweep.
pub open spec fn collider_given_up(c: ChunkView, iso: Density) -> Option<ColliderHandle> {
    if c.pending_destroy {
        c.collider
    } else {
        c.rebuild_request(iso).release_collider
    }
}

/// The render handles that a sweep releases, chunk after chunk.
pub open spec fn render_releases(chunks: Seq<ChunkView>, iso: Density) -> Seq<RenderHandle>
    decreases chunks.len(),
{
    if chunks.len() == 0 {
        Seq::empty()
    } else {
        match render_given_up(chunks.last(), iso) {
            Some(h) => render_releases(chunks.drop_last(), iso).push(h),
            None => render_releases(chunks.drop_last(), iso),
        }
    }
}

/// The collider handles that a sweep releases, chunk after chunk.
pub open spec fn collider_releases(chunks: Seq<ChunkView>, iso: Density) -> Seq<ColliderHandle>
    decreases chunks.len(),
{
    if chunks.len() == 0 {
        Seq::empty()
    } else {
        match collider_given_up(chunks.last(), iso) {
            Some(h) => collider_releases(chunks.drop_last(), iso).push(h),
            None => collider_releases(chunks.drop_last(), iso),
        }
    }
}

/// The origins of the chunks that a sweep leaves with a new, non-empty mesh.
pub open spec fn uploads(chunks: Seq<ChunkView>, iso: Density) -> Seq<Coord>
    decreases chunks.len(),
{
    if chunks.len() == 0 {
        Seq::empty()
    } else if !chunks.last().pending_destroy && chunks.last().rebuild_request(iso).upload {
        uploads(chunks.drop_last(), iso).push(chunks.last().origin())
    } else {
        uploads(chunks.drop_last(), iso)
    }
}

/// The chunks after one edit: each chunk that holds the point takes the new
/// value and becomes dirty.
pub open spec fn after_event(chunks: Seq<ChunkView>, event: TerrainCellEvent) -> Seq<ChunkView> {
    Seq::new(chunks.len(), |i: int| chunks[i].edited(event.world_pos, event.value))
}

/// The chunks after a queue of edits, applied first to last.
pub open spec fn after_events(chunks: Seq<ChunkView>, events: Seq<TerrainCellEvent>) -> Seq<
    ChunkView,
>
    decreases events.len(),
{
    if events.len() == 0 {
        chunks
    } else {
        after_event(after_events(chunks, events.drop_last()), events.last())
    }
}

/// Whether `c` is a chunk as it is right after being made at `origin`: dirty,
/// with nothing cached, and with every sample taken from `noise`.
pub open spec fn spawned_as<F: Fn(i32, i32, i32) -> Density>(
    c: ChunkView,
    origin: Coord,
    resolution: int,
    noise: &F,
) -> bool {
    &&& c == ChunkView::fresh(c.field)
    &&& c.field.wf()
    &&& c.field.origin == origin
    &&& c.field.resolution == resolution
    &&& sampled_from(c.field, noise)
}

/// The mathematical content of a [`StreamingManager`].
pub struct ManagerView {
    pub settings: TerrainSettings,
    /// The live chunks, oldest first.
    pub chunks: Seq<ChunkView>,
}

impl ManagerView {
    /// What holds of every manager: its settings are valid, every chunk is
    /// well formed and has the configured resolution, and no two chunks share
    /// an origin.
    pub open spec fn wf(self) -> bool {
        &&& self.settings.valid()
        &&& forall|i: int|
            0 <= i < self.chunks.len() ==> (#[trigger] self.chunks[i]).wf()
                && self.chunks[i].field.resolution == self.settings.resolution
        &&& forall|i: int, j: int|
            0 <= i < j < self.chunks.len() ==> (#[trigger] self.chunks[i]).origin() != (
            #[trigger] self.chunks[j]).origin()
    }

    /// The origins of the live chunks.
    pub open spec fn live_origins(self) -> Set<Coord> {
        origins(self.chunks)
    }

    /// The grid coordinate of the chunk that holds the observer.
    pub open spec fn center(self, observer: Coord) -> Coord {
        chunk_of(observer, self.settings.resolution as int)
    }

    /// Whether all chunks desired around the observer can exist.
    pub open spec fn can_stream_at(self, observer: Coord) -> bool {
        streamable(
            self.center(observer),
            self.settings.spawn_radius as int,
            self.settings.resolution as int,
        )
    }

    /// Whether a chunk rooted at `origin` is desired.
    pub open spec fn desires(self, observer: Coord, origin: Coord) -> bool {
        desired_origin(
            self.center(observer),
            self.settings.spawn_radius as int,
            self.settings.resolution as int,
            origin,
        )
    }

    /// The missing chunks, as grid coordinates, in the order of making.
    pub open spec fn missing(self, observer: Coord) -> Seq<Coord> {
        spawn_order(
            self.center(observer),
            self.settings.spawn_radius as int,
            self.settings.resolution as int,
            self.live_origins(),
        )
    }

    /// How many chunks one cycle makes: all missing ones, up to the budget.
    pub open spec fn spawn_count(self, observer: Coord) -> int {
        min(self.settings.max_spawns_per_cycle as int, self.missing(observer).len() as int)
    }

    /// Live chunk `i` after the diff against the desired chunks: marked for
    /// removal unless it is desired.
    pub open spec fn reconciled(self, observer: Coord, i: int) -> ChunkView {
        if self.desires(observer, self.chunks[i].origin()) {
            self.chunks[i]
        } else {
            self.chunks[i].marked()
        }
    }
}

/// Whether `after` is what [`StreamingManager::spawn_around_player`] makes of
/// `before`: the chunks that were live come first, each marked for removal
/// unless it is desired; behind them come the new chunks, made from `noise`
/// at the origins of the first missing chunks, as many as the budget allows.
pub open spec fn spawned_by<F: Fn(i32, i32, i32) -> Density>(
    before: ManagerView,
    after: ManagerView,
    observer: Coord,
    noise: &F,
) -> bool {
    &&& after.settings == before.settings
    &&& after.chunks.len() == before.chunks.len() + before.spawn_count(observer)
    &&& forall|i: int|
        0 <= i < before.chunks.len() ==> #[trigger] after.chunks[i] == before.reconciled(observer, i)
    &&& forall|i: int|
        before.chunks.len() <= i < after.chunks.len() ==> spawned_as(
            #[trigger] after.chunks[i],
            origin_of(
                before.missing(observer)[i - before.chunks.len()],
                before.settings.resolution as int,
            ),
            before.settings.resolution as int,
            noise,
        )
}

/// The live chunks and the settings they are streamed with.
pub struct StreamingManager {
    settings: TerrainSettings,
    chunks: Vec<Chunk>,
}

impl View for StreamingManager {
    type V = ManagerView;

    closed spec fn view(&self) -> ManagerView {
        ManagerView {
            settings: self.settings,
            chunks: Seq::new(self.chunks@.len(), |i: int| self.chunks@[i]@),
        }
    }
}

proof fn lemma_ascending_lex_distinct(s: Seq<Coord>)
    requires
        ascending_lex(s),
    ensures
        s.no_duplicates(),
{
    assert forall|i: int, j: int| 0 <= i < s.len() && 0 <= j < s.len() && i != j implies s[i]
        != s[j] by {
        if i < j {
            assert(lex_less(s[i], s[j]));
        } else {
            assert(lex_less(s[j], s[i]));
        }
    }
}

impl StreamingManager {
    /// The invariant of the type. Every constructor establishes it and every
    /// method keeps it.
    pub open spec fn wf(&self) -> bool {
        self@.wf()
    }

    /// A manager without chunks, or nothing if the settings cannot be used.
    pub fn new(settings: TerrainSettings) -> (manager: Option<StreamingManager>)
        ensures
            manager is Some == settings.valid(),
            manager matches Some(m) ==> m.wf() && m@.settings == settings && m@.chunks.len() == 0,
    {
        if settings.is_valid() {
            Some(StreamingManager { settings, chunks: Vec::new() })
        } else {
            None
        }
    }

    /// The settings that the manager was made with.
    pub fn settings(&self) -> (settings: TerrainSettings)
        ensures
            settings == self@.settings,
    {
        self.settings
    }

    /// The number of live chunks.
    pub fn chunk_count(&self) -> (n: usize)
        ensures
            n == self@.chunks.len(),
    {
        self.chunks.len()
    }

    /// Live chunk `i`, oldest first.
    pub fn chunk(&self, i: usize) -> (chunk: &Chunk)
        requires
            i < self@.chunks.len(),
        ensures
            chunk@ == self@.chunks[i as int],
    {
        &self.chunks[i]
    }

    /// Finds the live chunk rooted at `origin`.
    pub fn find_chunk(&self, origin: Coord) -> (found: Option<usize>)
        requires
            self.wf(),
        ensures
            found matches Some(i) ==> i < self@.chunks.len() && self@.chunks[i as int].origin()
                == origin,
            found is None ==> !self@.live_origins().contains(origin),
    {
        let mut i: usize = 0;
        while i < self.chunks.len()
            invariant
                i <= self.chunks@.len(),
                forall|j: int| 0 <= j < i ==> (#[trigger] self.chunks@[j])@.origin() != origin,
            decreases self.chunks@.len() - i,
        {
            if self.chunks[i].origin() == origin {
                return Some(i);
            }
            i += 1;
        }
        proof {
            if self@.live_origins().contains(origin) {
                let j = choose|j: int|
                    0 <= j < self@.chunks.len() && (#[trigger] self@.chunks[j]).origin() == origin;
                assert(self.chunks@[j]@.origin() == origin);
            }
        }
        None
    }

    /// Decides whether all chunks desired around the observer can exist.
    pub fn can_stream_at(&self, observer: Coord) -> (b: bool)
        requires
            self.wf(),
        ensures
            b == self@.can_stream_at(observer),
    {
        let center = player_chunk(observer, self.settings.resolution);
        is_streamable(center, self.settings.spawn_radius, self.settings.resolution)
    }

    /// Diffs the live chunks against the desired ones: marks every live chunk
    /// that is not desired, and lists the desired chunks that are not live, in
    /// the order of the walk.
    fn reconcile(&mut self, observer: Coord) -> (missing: Vec<Coord>)
        requires
            old(self).wf(),
            old(self)@.can_stream_at(observer),
        ensures
            final(self).wf(),
            final(self)@.settings == old(self)@.settings,
            final(self)@.chunks.len() == old(self)@.chunks.len(),
            forall|i: int|
                0 <= i < old(self)@.chunks.len() ==> #[trigger] final(self)@.chunks[i] == old(
                    self,
                )@.reconciled(observer, i),
            final(self)@.live_origins() == old(self)@.live_origins(),
            ascending_lex(missing@),
            forall|g: Coord| #[trigger]
                missing@.contains(g) <==> in_desired(
                    old(self)@.center(observer),
                    old(self)@.settings.spawn_radius as int,
                    g,
                ) && !old(self)@.live_origins().contains(
                    origin_of(g, old(self)@.settings.resolution as int),
                ),
    {
        let n: usize = self.settings.resolution;
        let radius: i32 = self.settings.spawn_radius;
        let center = player_chunk(observer, n);
        proof {
            lemma_streamable_in_reach(center, radius as int, n as int);
        }
        let mut wanted = desired_chunks(center, radius);
        let ghost start = self@;
        let mut i: usize = 0;
        while i < self.chunks.len()
            invariant
                start.wf(),
                start == old(self)@,
                n == start.settings.resolution,
                radius == start.settings.spawn_radius,
                center == start.center(observer),
                streamable(center, radius as int, n as int),
                self.settings == start.settings,
                self.chunks@.len() == start.chunks.len(),
                i <= self.chunks@.len(),
                forall|j: int|
                    0 <= j < i ==> (#[trigger] self.chunks@[j])@ == start.reconciled(observer, j),
                forall|j: int|
                    i <= j < self.chunks@.len() ==> (#[trigger] self.chunks@[j])@ == start.chunks[j],
                ascending_lex(wanted@),
                forall|g: Coord| #[trigger]
                    wanted@.contains(g) <==> in_desired(center, radius as int, g) && !(exists|
                        j: int,
                    |
                        0 <= j < i && (#[trigger] start.chunks[j]).origin() == origin_of(
                            g,
                            n as int,
                        )),
            decreases self.chunks@.len() - i,
        {
            let origin = self.chunks[i].origin();
            assert(origin == start.chunks[i as int].origin());
            let mut found: Option<usize> = None;
            let mut k: usize = 0;
            while k < wanted.len()
                invariant_except_break
                    found is None,
                    forall|q: int|
                        0 <= q < k ==> origin_of(#[trigger] wanted@[q], n as int) != origin,
                invariant
                    k <= wanted@.len(),
                    1 <= n <= crate::density::MAX_RESOLUTION,
                    streamable(center, radius as int, n as int),
                    forall|g: Coord| #[trigger]
                        wanted@.contains(g) ==> in_desired(center, radius as int, g),
                ensures
                    found matches Some(q) ==> q < wanted@.len() && origin_of(
                        wanted@[q as int],
                        n as int,
                    ) == origin,
                    found is None ==> forall|q: int|
                        0 <= q < wanted@.len() ==> origin_of(#[trigger] wanted@[q], n as int)
                            != origin,
                decreases wanted@.len() - k,
            {
                let g = wanted[k];
                proof {
                    assert(wanted@.contains(g));
                    lemma_desired_fits(center, radius as int, n as int, g);
                }
                if origin_of_chunk(g, n) == origin {
                    found = Some(k);
                    break ;
                }
                k += 1;
            }
            let ghost before = wanted@;
            match found {
                Some(q) => {
                    proof {
                        lemma_ascending_lex_distinct(before);
                        lemma_remove_contains(before, q as int);
                        assert(start.desires(observer, origin)) by {
                            assert(before.contains(before[q as int]));
                            assert(in_desired(center, radius as int, before[q as int]));
                        }
                    }
                    let gone = wanted.remove(q);
                    proof {
                        assert forall|a: int, b: int| 0 <= a < b < wanted@.len() implies lex_less(
                            #[trigger] wanted@[a],
                            #[trigger] wanted@[b],
                        ) by {
                            let a0 = if a < q { a } else { a + 1 };
                            let b0 = if b < q { b } else { b + 1 };
                            assert(lex_less(before[a0], before[b0]));
                        }
                        assert forall|g: Coord| #[trigger]
                            wanted@.contains(g) <==> in_desired(center, radius as int, g) && !(
                            exists|j: int|
                                0 <= j < i + 1 && (#[trigger] start.chunks[j]).origin()
                                    == origin_of(g, n as int)) by {
                            if wanted@.contains(g) {
                                assert(before.contains(g) && g != gone);
                                if exists|j: int|
                                    0 <= j < i + 1 && (#[trigger] start.chunks[j]).origin()
                                        == origin_of(g, n as int) {
                                    let j = choose|j: int|
                                        0 <= j < i + 1 && (#[trigger] start.chunks[j]).origin()
                                            == origin_of(g, n as int);
                                    assert(j == i);
                                    assert(before.contains(gone));
                                    lemma_desired_fits(center, radius as int, n as int, g);
                                    lemma_desired_fits(center, radius as int, n as int, gone);
                                    lemma_origin_injective(g, gone, n as int);
                                    assert(false);
                                }
                            }
                            if in_desired(center, radius as int, g) && !(exists|j: int|
                                0 <= j < i + 1 && (#[trigger] start.chunks[j]).origin()
                                    == origin_of(g, n as int)) {
                                assert(!(exists|j: int|
                                    0 <= j < i && (#[trigger] start.chunks[j]).origin()
                                        == origin_of(g, n as int)));
                                assert(before.contains(g));
                                assert(start.chunks[i as int].origin() != origin_of(g, n as int));
                            }
                        }
                    }
                },
                None => {
                    proof {
                        assert(!start.desires(observer, origin)) by {
                            if start.desires(observer, origin) {
                                let g = choose|g: Coord|
                                    in_desired(center, radius as int, g) && #[trigger] origin_of(
                                        g,
                                        n as int,
                                    ) == origin;
                                if exists|j: int|
                                    0 <= j < i && (#[trigger] start.chunks[j]).origin()
                                        == origin_of(g, n as int) {
                                    let j = choose|j: int|
                                        0 <= j < i && (#[trigger] start.chunks[j]).origin()
                                            == origin_of(g, n as int);
                                    assert(start.chunks[j].origin() != start.chunks[i as int].origin());
                                    assert(false);
                                }
                                assert(before.contains(g));
                                let q = choose|q: int| 0 <= q < before.len() && before[q] == g;
                                assert(origin_of(before[q], n as int) != origin);
                                assert(false);
                            }
                        }
                        assert forall|g: Coord| #[trigger]
                            wanted@.contains(g) <==> in_desired(center, radius as int, g) && !(
                            exists|j: int|
                                0 <= j < i + 1 && (#[trigger] start.chunks[j]).origin()
                                    == origin_of(g, n as int)) by {
                            if wanted@.contains(g) {
                                let q = choose|q: int| 0 <= q < before.len() && before[q] == g;
                                assert(origin_of(before[q], n as int) != origin);
                            }
                        }
                    }
                    self.chunks[i].mark_for_destroy();
                },
            }
            i += 1;
        }
        proof {
            let end = self@;
            assert forall|j: int| 0 <= j < start.chunks.len() implies #[trigger] end.chunks[j]
                == start.reconciled(observer, j) by {
                assert(self.chunks@[j]@ == start.reconciled(observer, j));
            }
            assert forall|j: int| 0 <= j < end.chunks.len() implies (#[trigger] end.chunks[j]).origin()
                == start.chunks[j].origin() by {
                assert(end.chunks[j] == start.reconciled(observer, j));
            }
            assert(end.live_origins() =~= start.live_origins()) by {
                assert forall|o: Coord| end.live_origins().contains(o) <==> start.live_origins().contains(
                    o,
                ) by {
                    if end.live_origins().contains(o) {
                        let j = choose|j: int|
                            0 <= j < end.chunks.len() && (#[trigger] end.chunks[j]).origin() == o;
                        assert(start.chunks[j].origin() == o);
                    }
                    if start.live_origins().contains(o) {
                        let j = choose|j: int|
                            0 <= j < start.chunks.len() && (#[trigger] start.chunks[j]).origin()
                                == o;
                        assert(end.chunks[j].origin() == o);
                    }
                }
            }
            assert(end.wf()) by {
                assert forall|j: int| 0 <= j < end.chunks.len() implies (#[trigger] end.chunks[j]).wf()
                    && end.chunks[j].field.resolution == end.settings.resolution by {
                    assert(end.chunks[j] == start.reconciled(observer, j));
                    assert(start.chunks[j].wf());
                }
                assert forall|a: int, b: int| 0 <= a < b < end.chunks.len() implies (
                #[trigger] end.chunks[a]).origin() != (#[trigger] end.chunks[b]).origin() by {
                    assert(start.chunks[a].origin() != start.chunks[b].origin());
                }
            }
            assert forall|g: Coord| #[trigger]
                wanted@.contains(g) <==> in_desired(center, radius as int, g)
                    && !start.live_origins().contains(origin_of(g, n as int)) by {
                let o = origin_of(g, n as int);
                if start.live_origins().contains(o) {
                    let j = choose|j: int|
                        0 <= j < start.chunks.len() && (#[trigger] start.chunks[j]).origin() == o;
                    assert(0 <= j < i && start.chunks[j].origin() == origin_of(g, n as int));
                }
            }
        }
        wanted
    }

    /// Makes the chunks at the first `count` grid coordinates of `order`.
    fn spawn_front<F: Fn(i32, i32, i32) -> Density>(
        &mut self,
        center: Coord,
        order: &Vec<Coord>,
        count: usize,
        noise: &F,
    ) -> (spawned: Vec<Coord>)
        requires
            old(self).wf(),
            count <= order@.len(),
            streamable(
                center,
                old(self)@.settings.spawn_radius as int,
                old(self)@.settings.resolution as int,
            ),
            is_spawn_order(
                order@,
                center,
                old(self)@.settings.spawn_radius as int,
                old(self)@.settings.resolution as int,
                old(self)@.live_origins(),
            ),
            forall|x: i32, y: i32, z: i32| #[trigger] noise.requires((x, y, z)),
        ensures
            final(self).wf(),
            final(self)@.settings == old(self)@.settings,
            final(self)@.chunks.len() == old(self)@.chunks.len() + count,
            forall|i: int|
                0 <= i < old(self)@.chunks.len() ==> #[trigger] final(self)@.chunks[i] == old(
                    self,
                )@.chunks[i],
            forall|i: int|
                old(self)@.chunks.len() <= i < final(self)@.chunks.len() ==> spawned_as(
                    #[trigger] final(self)@.chunks[i],
                    origin_of(
                        order@[i - old(self)@.chunks.len()],
                        old(self)@.settings.resolution as int,
                    ),
                    old(self)@.settings.resolution as int,
                    noise,
                ),
            spawned@.len() == count,
            forall|t: int|
                0 <= t < count ==> #[trigger] spawned@[t] == origin_of(
                    order@[t],
                    old(self)@.settings.resolution as int,
                ),
    {
        let n: usize = self.settings.resolution;
        let ghost radius = self.settings.spawn_radius as int;
        let ghost start = self@;
        let ghost base = start.chunks.len() as int;
        let mut spawned: Vec<Coord> = Vec::new();
        let mut t: usize = 0;
        while t < count
            invariant
                start == old(self)@,
                start.wf(),
                base == start.chunks.len(),
                n == start.settings.resolution,
                radius == start.settings.spawn_radius,
                self.settings == start.settings,
                t <= count <= order@.len(),
                streamable(center, radius, n as int),
                is_spawn_order(order@, center, radius, n as int, start.live_origins()),
                forall|x: i32, y: i32, z: i32| #[trigger] noise.requires((x, y, z)),
                self.chunks@.len() == base + t,
                forall|j: int| 0 <= j < base ==> (#[trigger] self.chunks@[j])@ == start.chunks[j],
                forall|j: int|
                    base <= j < base + t ==> spawned_as(
                        (#[trigger] self.chunks@[j])@,
                        origin_of(order@[j - base], n as int),
                        n as int,
                        noise,
                    ),
                spawned@.len() == t,
                forall|q: int| 0 <= q < t ==> #[trigger] spawned@[q] == origin_of(order@[q], n as int),
            decreases count - t,
        {
            let g = order[t];
            proof {
                assert(order@.contains(g));
                lemma_desired_fits(center, radius, n as int, g);
            }
            let origin = origin_of_chunk(g, n);
            assert(covers(noise, origin, n as int));
            let chunk = Chunk::new(noise, n, origin.x, origin.y, origin.z);
            self.chunks.push(chunk);
            spawned.push(origin);
            t += 1;
        }
        proof {
            let end = self@;
            assert forall|i: int| 0 <= i < base implies #[trigger] end.chunks[i] == start.chunks[i] by {
                assert(self.chunks@[i]@ == start.chunks[i]);
            }
            assert forall|i: int| base <= i < end.chunks.len() implies spawned_as(
                #[trigger] end.chunks[i],
                origin_of(order@[i - base], n as int),
                n as int,
                noise,
            ) by {
                assert(spawned_as(
                    self.chunks@[i]@,
                    origin_of(order@[i - base], n as int),
                    n as int,
                    noise,
                ));
            }
            assert forall|i: int| 0 <= i < end.chunks.len() implies (#[trigger] end.chunks[i]).wf()
                && end.chunks[i].field.resolution == end.settings.resolution by {
                if i < base {
                    assert(start.chunks[i].wf());
                }
            }
            assert forall|a: int, b: int| 0 <= a < b < end.chunks.len() implies (
            #[trigger] end.chunks[a]).origin() != (#[trigger] end.chunks[b]).origin() by {
                if b < base {
                    assert(start.chunks[a].origin() != start.chunks[b].origin());
                } else {
                    let gb = order@[b - base];
                    assert(order@.contains(gb));
                    assert(!start.live_origins().contains(origin_of(gb, n as int)));
                    if a < base {
                        assert(start.chunks[a].origin() == end.chunks[a].origin());
                    } else {
                        let ga = order@[a - base];
                        assert(order@.contains(ga));
                        assert(crate::order::nearer(center, ga, gb));
                        lemma_desired_fits(center, radius, n as int, ga);
                        lemma_desired_fits(center, radius, n as int, gb);
                        if origin_of(ga, n as int) == origin_of(gb, n as int) {
                            lemma_origin_injective(ga, gb, n as int);
                        }
                    }
                }
            }
        }
        spawned
    }

    /// The first step of a cycle: reconciles the live chunks with those
    /// desired around the observer.
    ///
    /// Every live chunk that is not desired is marked for removal. The
    /// desired chunks that are not live are ordered nearest first, and as many
    /// of them as the budget allows are made, each sampled from `noise` and
    /// left dirty. They are added behind the chunks that were live, in the
    /// order of making, and their origins are returned in that order.
    pub fn spawn_around_player<F: Fn(i32, i32, i32) -> Density>(
        &mut self,
        observer: Coord,
        noise: &F,
    ) -> (spawned: Vec<Coord>)
        requires
            old(self).wf(),
            old(self)@.can_stream_at(observer),
            forall|x: i32, y: i32, z: i32| #[trigger] noise.requires((x, y, z)),
        ensures
            final(self).wf(),
            spawned_by(old(self)@, final(self)@, observer, noise),
            spawned@.len() == old(self)@.spawn_count(observer),
            forall|t: int|
                0 <= t < spawned@.len() ==> #[trigger] spawned@[t] == origin_of(
                    old(self)@.missing(observer)[t],
                    old(self)@.settings.resolution as int,
                ),
    {
        let ghost start = self@;
        let ghost radius = self.settings.spawn_radius as int;
        let ghost res = self.settings.resolution as int;
        let center = player_chunk(observer, self.settings.resolution);
        let missing = self.reconcile(observer);
        proof {
            lemma_ascending_lex_distinct(missing@);
        }
        let order = sort_nearest_first(center, &missing);
        proof {
            assert(is_spawn_order(order@, center, radius, res, start.live_origins()));
            lemma_spawn_order_unique(order@, center, radius, res, start.live_origins());
            assert(order@ == start.missing(observer));
        }
        let budget: usize = self.settings.max_spawns_per_cycle;
        let count: usize = if order.len() < budget {
            order.len()
        } else {
            budget
        };
        self.spawn_front(center, &order, count, noise)
    }

    /// The second step of a cycle: applies the queued edits, first to last.
    /// An edit changes every live chunk that holds its point and marks it
    /// dirty; an edit that no chunk holds is dropped.
    pub fn read_terrain_events(&mut self, events: &Vec<TerrainCellEvent>)
        requires
            old(self).wf(),
        ensures
            final(self).wf(),
            final(self)@.settings == old(self)@.settings,
            final(self)@.chunks == after_events(old(self)@.chunks, events@),
    {
        let ghost start = self@;
        let mut e: usize = 0;
        while e < events.len()
            invariant
                start == old(self)@,
                e <= events@.len(),
                self.wf(),
                self@.settings == start.settings,
                self@.chunks == after_events(start.chunks, events@.take(e as int)),
            decreases events@.len() - e,
        {
            let event = events[e];
            let ghost before = self@;
            let mut i: usize = 0;
            while i < self.chunks.len()
                invariant
                    before.wf(),
                    self.settings == before.settings,
                    self.chunks@.len() == before.chunks.len(),
                    i <= self.chunks@.len(),
                    forall|j: int|
                        0 <= j < i ==> (#[trigger] self.chunks@[j])@ == before.chunks[j].edited(
                            event.world_pos,
                            event.value,
                        ),
                    forall|j: int|
                        i <= j < self.chunks@.len() ==> (#[trigger] self.chunks@[j])@
                            == before.chunks[j],
                decreases self.chunks@.len() - i,
            {
                assert(before.chunks[i as int].wf());
                self.chunks[i].edit(event.world_pos, event.value);
                i += 1;
            }
            proof {
                let after = self@;
                assert(after.chunks =~= after_event(before.chunks, event)) by {
                    assert forall|j: int| 0 <= j < after.chunks.len() implies after.chunks[j]
                        == after_event(before.chunks, event)[j] by {
                        assert(self.chunks@[j]@ == before.chunks[j].edited(
                            event.world_pos,
                            event.value,
                        ));
                    }
                }
                assert(events@.take(e + 1).drop_last() =~= events@.take(e as int));
                assert(events@.take(e + 1).last() == event);
                assert(after.wf()) by {
                    assert forall|j: int| 0 <= j < after.chunks.len() implies (
                    #[trigger] after.chunks[j]).wf() && after.chunks[j].field.resolution
                        == after.settings.resolution && after.chunks[j].origin()
                        == before.chunks[j].origin() by {
                        assert(before.chunks[j].wf());
                        assert(after.chunks[j] == before.chunks[j].edited(
                            event.world_pos,
                            event.value,
                        ));
                        lemma_edit_keeps_shape(before.chunks[j], event.world_pos, event.value);
                    }
                    assert forall|a: int, b: int| 0 <= a < b < after.chunks.len() implies (
                    #[trigger] after.chunks[a]).origin() != (#[trigger] after.chunks[b]).origin() by {
                        assert(before.chunks[a].origin() != before.chunks[b].origin());
                    }
                }
            }
            e += 1;
        }
        proof {
            assert(events@.take(e as int) =~= events@);
        }
    }

    /// The third step of a cycle: removes the chunks that are marked for
    /// removal and rebuilds the dirty ones among the others.
    ///
    /// The chunks that stay keep their order. The output names, chunk after
    /// chunk, the handles that the removed and the rebuilt chunks gave up, and
    /// the origins of the chunks whose new mesh awaits resources.
    pub fn update_chunks(&mut self) -> (output: CycleOutput)
        requires
            old(self).wf(),
        ensures
            final(self).wf(),
            final(self)@.settings == old(self)@.settings,
            final(self)@.chunks == swept(old(self)@.chunks, old(self)@.settings.iso_level),
            output.release_render@ == render_releases(
                old(self)@.chunks,
                old(self)@.settings.iso_level,
            ),
            output.release_colliders@ == collider_releases(
                old(self)@.chunks,
                old(self)@.settings.iso_level,
            ),
            output.uploads@ == uploads(old(self)@.chunks, old(self)@.settings.iso_level),
    {
        let iso = self.settings.iso_level;
        let ghost start = self@;
        let ghost mut done: int = 0;
        let ghost mut source: Seq<int> = Seq::empty();
        let mut release_render: Vec<RenderHandle> = Vec::new();
        let mut release_colliders: Vec<ColliderHandle> = Vec::new();
        let mut awaiting: Vec<Coord> = Vec::new();
        let mut i: usize = 0;
        while i < self.chunks.len()
            invariant
                start == old(self)@,
                start.wf(),
                self.settings == start.settings,
                iso == start.settings.iso_level,
                0 <= done <= start.chunks.len(),
                i <= self.chunks@.len(),
                self.chunks@.len() - i == start.chunks.len() - done,
                forall|j: int|
                    i <= j < self.chunks@.len() ==> (#[trigger] self.chunks@[j])@
                        == start.chunks[done + (j - i)],
                swept(start.chunks.take(done), iso).len() == i,
                forall|j: int|
                    0 <= j < i ==> (#[trigger] self.chunks@[j])@ == swept(
                        start.chunks.take(done),
                        iso,
                    )[j],
                source.len() == i,
                forall|j: int|
                    0 <= j < i ==> 0 <= #[trigger] source[j] < done && self.chunks@[j]@.origin()
                        == start.chunks[source[j]].origin() && self.chunks@[j]@.wf()
                        && self.chunks@[j]@.field.resolution == start.settings.resolution,
                forall|a: int, b: int| 0 <= a < b < i ==> #[trigger] source[a] < #[trigger] source[b],
                release_render@ == render_releases(start.chunks.take(done), iso),
                release_colliders@ == collider_releases(start.chunks.take(done), iso),
                awaiting@ == uploads(start.chunks.take(done), iso),
            decreases start.chunks.len() - done,
        {
            let ghost current = start.chunks[done];
            let ghost held = self.chunks@;
            proof {
                assert(self.chunks@[i as int]@ == current);
                assert(current.wf());
                assert(start.chunks.take(done + 1).drop_last() =~= start.chunks.take(done));
                assert(start.chunks.take(done + 1).last() == current);
            }
            if self.chunks[i].is_pending_destroy() {
                let mut gone = self.chunks.remove(i);
                let released = gone.destroy();
                match released.render {
                    Some(h) => {
                        release_render.push(h);
                    },
                    None => {},
                }
                match released.collider {
                    Some(h) => {
                        release_colliders.push(h);
                    },
                    None => {},
                }
                proof {
                    assert forall|j: int| i <= j < self.chunks@.len() implies (
                    #[trigger] self.chunks@[j])@ == start.chunks[done + 1 + (j - i)] by {
                        assert(self.chunks@[j] == held[j + 1]);
                    }
                    assert forall|j: int| 0 <= j < i implies (#[trigger] self.chunks@[j])
                        == held[j] by {}
                }
            } else {
                let request = self.chunks[i].rebuild_if_dirty(iso);
                match request.release_render {
                    Some(h) => {
                        release_render.push(h);
                    },
                    None => {},
                }
                match request.release_collider {
                    Some(h) => {
                        release_colliders.push(h);
                    },
                    None => {},
                }
                if request.upload {
                    awaiting.push(self.chunks[i].origin());
                }
                proof {
                    source = source.push(done);
                }
                i += 1;
            }
            proof {
                done = done + 1;
            }
        }
        proof {
            assert(start.chunks.take(done) =~= start.chunks);
            let end = self@;
            assert(end.chunks =~= swept(start.chunks, iso));
            assert forall|j: int| 0 <= j < end.chunks.len() implies (#[trigger] end.chunks[j]).wf()
                && end.chunks[j].field.resolution == end.settings.resolution by {
                assert(0 <= source[j] < done);
            }
            assert forall|a: int, b: int| 0 <= a < b < end.chunks.len() implies (
            #[trigger] end.chunks[a]).origin() != (#[trigger] end.chunks[b]).origin() by {
                assert(source[a] < source[b]);
                assert(0 <= source[a] < done && 0 <= source[b] < done);
                assert(start.chunks[source[a]].origin() != start.chunks[source[b]].origin());
            }
        }
        CycleOutput { release_render, release_colliders, uploads: awaiting }
    }

    /// One whole cycle: [`StreamingManager::spawn_around_player`], then
    /// [`StreamingManager::read_terrain_events`], then
    /// [`StreamingManager::update_chunks`].
    ///
    /// If no chunk was marked for removal before, the live origins afterwards
    /// are [`next_live`] of those before, and again no chunk is marked.
    pub fn update<F: Fn(i32, i32, i32) -> Density>(
        &mut self,
        observer: Coord,
        events: &Vec<TerrainCellEvent>,
        noise: &F,
    ) -> (output: CycleOutput)
        requires
            old(self).wf(),
            old(self)@.can_stream_at(observer),
            forall|x: i32, y: i32, z: i32| #[trigger] noise.requires((x, y, z)),
        ensures
            final(self).wf(),
            final(self)@.settings == old(self)@.settings,
            exists|spawned: ManagerView|
                (#[trigger] spawned_by(old(self)@, spawned, observer, noise) && final(self)@.chunks
                    == swept(after_events(spawned.chunks, events@), old(self)@.settings.iso_level)
                    && output.release_render@ == render_releases(
                    after_events(spawned.chunks, events@),
                    old(self)@.settings.iso_level,
                ) && output.release_colliders@ == collider_releases(
                    after_events(spawned.chunks, events@),
                    old(self)@.settings.iso_level,
                ) && output.uploads@ == uploads(
                    after_events(spawned.chunks, events@),
                    old(self)@.settings.iso_level,
                )),
            (forall|i: int|
                0 <= i < old(self)@.chunks.len() ==> !(#[trigger] old(self)@.chunks[i]).pending_destroy)
                ==> final(self)@.live_origins() == next_live(
                old(self)@.live_origins(),
                old(self)@.center(observer),
                old(self)@.settings.spawn_radius as int,
                old(self)@.settings.resolution as int,
                old(self)@.settings.max_spawns_per_cycle as int,
            ) && forall|j: int|
                0 <= j < final(self)@.chunks.len() ==> !(#[trigger] final(self)@.chunks[j])
                    .pending_destroy,
    {
        let ghost start = self@;
        self.spawn_around_player(observer, noise);
        let ghost spawned = self@;
        self.read_terrain_events(events);
        let output = self.update_chunks();
        proof {
            assert(spawned_by(start, spawned, observer, noise));
            if forall|i: int|
                0 <= i < start.chunks.len() ==> !(#[trigger] start.chunks[i]).pending_destroy {
                assert(spawn_step(start, spawned, observer));
                lemma_cycle_live_origins(start, spawned, events@, observer);
            }
        }
        output
    }

    /// Hands the stores' answers to the live chunk rooted at `origin`, if that
    /// chunk awaits them, and says how its rebuild ended. Without such a
    /// chunk nothing changes and nothing is returned: the handles are then
    /// still the caller's to release.
    pub fn install_resources(
        &mut self,
        origin: Coord,
        render: RenderReply,
        collider: ColliderReply,
    ) -> (result: Option<Result<RebuildStatus, RebuildError>>)
        requires
            old(self).wf(),
        ensures
            final(self).wf(),
            final(self)@.settings == old(self)@.settings,
            final(self)@.chunks.len() == old(self)@.chunks.len(),
            forall|i: int|
                0 <= i < old(self)@.chunks.len() ==> #[trigger] final(self)@.chunks[i] == (if old(
                    self,
                )@.chunks[i].origin() == origin && old(self)@.chunks[i].awaits_resources() {
                    old(self)@.chunks[i].installed(render, collider)
                } else {
                    old(self)@.chunks[i]
                }),
            result is Some <==> exists|i: int|
                0 <= i < old(self)@.chunks.len() && (#[trigger] old(self)@.chunks[i]).origin()
                    == origin && old(self)@.chunks[i].awaits_resources(),
            result matches Some(r) ==> r == ChunkView::install_result(render, collider),
    {
        let ghost start = self@;
        match self.find_chunk(origin) {
            Some(i) => {
                assert(start.chunks[i as int].wf());
                assert forall|j: int| 0 <= j < start.chunks.len() && j != i implies (
                #[trigger] start.chunks[j]).origin() != origin by {
                    if j < i {
                        assert(start.chunks[j].origin() != start.chunks[i as int].origin());
                    } else {
                        assert(start.chunks[i as int].origin() != start.chunks[j].origin());
                    }
                }
                if self.chunks[i].awaits_resources() {
                    let r = self.chunks[i].install_resources(render, collider);
                    proof {
                        let end = self@;
                        assert forall|j: int| 0 <= j < start.chunks.len() implies (
                        #[trigger] end.chunks[j]).origin() == start.chunks[j].origin()
                            && end.chunks[j].wf() && end.chunks[j].field == start.chunks[j].field by {
                            assert(start.chunks[j].wf());
                            if j == i {
                                assert(self.chunks@[j].wf());
                            }
                        }
                        assert forall|a: int, b: int| 0 <= a < b < end.chunks.len() implies (
                        #[trigger] end.chunks[a]).origin() != (#[trigger] end.chunks[b]).origin() by {
                            assert(start.chunks[a].origin() != start.chunks[b].origin());
                        }
                    }
                    Some(r)
                } else {
                    None
                }
            },
            None => {
                proof {
                    assert forall|j: int| 0 <= j < start.chunks.len() implies (
                    #[trigger] start.chunks[j]).origin() != origin by {
                        if start.chunks[j].origin() == origin {
                            assert(start.live_origins().contains(origin));
                        }
                    }
                }
                None
            },
        }
    }
}

/// A chunk that is marked for removal is gone after the sweep, and the sweep
/// releases the handles that it held.
pub proof fn lemma_sweep_removes_marked(chunks: Seq<ChunkView>, iso: Density, i: int)
    requires
        0 <= i < chunks.len(),
        chunks[i].pending_destroy,
        forall|a: int, b: int|
            0 <= a < b < chunks.len() ==> (#[trigger] chunks[a]).origin() != (
            #[trigger] chunks[b]).origin(),
    ensures
        !origins(swept(chunks, iso)).contains(chunks[i].origin()),
        chunks[i].render matches Some(h) ==> render_releases(chunks, iso).contains(h),
        chunks[i].collider matches Some(h) ==> collider_releases(chunks, iso).contains(h),
    decreases chunks.len(),
{
    let front = chunks.drop_last();
    let last = chunks.last();
    let o = chunks[i].origin();
    assert forall|a: int, b: int| 0 <= a < b < front.len() implies (#[trigger] front[a]).origin() != (
    #[trigger] front[b]).origin() by {
        assert(chunks[a].origin() != chunks[b].origin());
    }
    if i < front.len() {
        assert(front[i] == chunks[i]);
        lemma_sweep_removes_marked(front, iso, i);
        assert(chunks[i].origin() != chunks[chunks.len() - 1].origin());
        let rest = swept(front, iso);
        let out = swept(chunks, iso);
        if origins(out).contains(o) {
            let j = choose|j: int| 0 <= j < out.len() && (#[trigger] out[j]).origin() == o;
            if j < rest.len() {
                assert(rest[j].origin() == o);
                assert(origins(rest).contains(o));
            }
            assert(false);
        }
        match chunks[i].render {
            Some(h) => {
                let r = render_releases(front, iso);
                let k = choose|k: int| 0 <= k < r.len() && r[k] == h;
                assert(render_releases(chunks, iso)[k] == h);
            },
            None => {},
        }
        match chunks[i].collider {
            Some(h) => {
                let r = collider_releases(front, iso);
                let k = choose|k: int| 0 <= k < r.len() && r[k] == h;
                assert(collider_releases(chunks, iso)[k] == h);
            },
            None => {},
        }
    } else {
        lemma_swept_subset(front, iso);
        let rest = swept(front, iso);
        if origins(rest).contains(o) {
            let j = choose|j: int| 0 <= j < front.len() && (#[trigger] front[j]).origin() == o;
            assert(chunks[j].origin() != chunks[i].origin());
            assert(false);
        }
        match chunks[i].render {
            Some(h) => {
                let r = render_releases(chunks, iso);
                assert(r[r.len() - 1] == h);
            },
            None => {},
        }
        match chunks[i].collider {
            Some(h) => {
                let r = collider_releases(chunks, iso);
                assert(r[r.len() - 1] == h);
            },
            None => {},
        }
    }
}

/// A sweep leaves no chunk that was not there before.
proof fn lemma_swept_subset(chunks: Seq<ChunkView>, iso: Density)
    ensures
        forall|o: Coord|
            origins(swept(chunks, iso)).contains(o) ==> exists|j: int|
                0 <= j < chunks.len() && (#[trigger] chunks[j]).origin() == o,
    decreases chunks.len(),
{
    if chunks.len() > 0 {
        let front = chunks.drop_last();
        let rest = swept(front, iso);
        let out = swept(chunks, iso);
        lemma_swept_subset(front, iso);
        assert forall|o: Coord| origins(out).contains(o) implies exists|j: int|
            0 <= j < chunks.len() && (#[trigger] chunks[j]).origin() == o by {
            let k = choose|k: int| 0 <= k < out.len() && (#[trigger] out[k]).origin() == o;
            if k < rest.len() {
                assert(rest[k].origin() == o);
                assert(origins(rest).contains(o));
                let j = choose|j: int| 0 <= j < front.len() && (#[trigger] front[j]).origin() == o;
                assert(chunks[j].origin() == o);
            } else {
                assert(chunks[chunks.len() - 1].origin() == o);
            }
        }
    } else {
        let out = swept(chunks, iso);
        assert forall|o: Coord| origins(out).contains(o) implies false by {
            let k = choose|k: int| 0 <= k < out.len() && (#[trigger] out[k]).origin() == o;
        }
    }
}

/// Under [`DensityField::fits`], two grid coordinates with the same origin
/// are the same.
proof fn lemma_origin_injective(a: Coord, b: Coord, n: int)
    requires
        1 <= n,
        origin_of(a, n).x == a.x * n,
        origin_of(a, n).y == a.y * n,
        origin_of(a, n).z == a.z * n,
        origin_of(b, n).x == b.x * n,
        origin_of(b, n).y == b.y * n,
        origin_of(b, n).z == b.z * n,
        origin_of(a, n) == origin_of(b, n),
    ensures
        a == b,
{
    lemma_scale_injective(a.x as int, b.x as int, n);
    lemma_scale_injective(a.y as int, b.y as int, n);
    lemma_scale_injective(a.z as int, b.z as int, n);
}

proof fn lemma_scale_injective(a: int, b: int, n: int)
    requires
        1 <= n,
        a * n == b * n,
    ensures
        a == b,
{
    assert(a == b) by (nonlinear_arith)
        requires
            1 <= n,
            a * n == b * n,
    ;
}

} // verus!
