//! A chunk: one density field with its cached mesh, the handles of the
//! resources made from that mesh, and two lifecycle flags.
//!
//! The stores that keep render meshes and collision shapes live outside this
//! library. A chunk never talks to them. It says what has to be released and
//! whether its mesh has to be stored ([`Chunk::rebuild_if_dirty`],
//! [`Chunk::destroy`]), and it is told what the stores answered
//! ([`Chunk::install_resources`]).
use vstd::prelude::*;
use crate::coord::Coord;
use crate::density::{
    covers,
    lemma_index_then_inverse,
    sampled_from,
    Density,
    DensityField,
    FieldView,
};
use crate::polygonize::{mesh_of, polygonize, EdgeCrossing};

verus! {

/// The handle under which the render store keeps a mesh.
#[derive(Clone, Copy, Debug, PartialEq, Eq, Structural)]
pub struct RenderHandle {
    pub id: u64,
}

/// The handle under which the collision store keeps a shape.
#[derive(Clone, Copy, Debug, PartialEq, Eq, Structural)]
pub struct ColliderHandle {
    pub id: u64,
}

/// What the render store answered when asked to keep a mesh.
#[derive(Clone, Copy, Debug, PartialEq, Eq, Structural)]
pub enum RenderReply {
    /// The mesh is kept under this handle.
    Stored(RenderHandle),
    /// The store has no room.
    Exhausted,
}

/// What the collision store answered when asked to build a triangle-mesh
/// shape.
#[derive(Clone, Copy, Debug, PartialEq, Eq, Structural)]
pub enum ColliderReply {
    /// The shape is kept under this handle.
    Built(ColliderHandle),
    /// The mesh does not make a shape.
    Degenerate,
    /// The store has no room.
    Exhausted,
}

/// What a rebuild asks of the stores.
#[derive(Clone, Copy, Debug, PartialEq, Eq, Structural)]
pub struct RebuildRequest {
    /// A render handle that the chunk no longer holds and that must be
    /// released.
    pub release_render: Option<RenderHandle>,
    /// A collider handle that the chunk no longer holds and that must be
    /// released.
    pub release_collider: Option<ColliderHandle>,
    /// Whether the chunk has a new, non-empty mesh for which it awaits a
    /// render handle and a collider.
    pub upload: bool,
}

/// How a rebuild ended for a chunk whose resources were installed.
#[derive(Clone, Copy, Debug, PartialEq, Eq, Structural)]
pub enum RebuildStatus {
    /// The chunk holds a render handle and a collider.
    Complete,
    /// The chunk holds a render handle; its mesh made no collision shape.
    NoCollider,
}

/// Why a rebuild failed for a chunk.
#[derive(Clone, Copy, Debug, PartialEq, Eq, Structural)]
pub enum RebuildError {
    /// A store had no room. The chunk is dirty again and the rebuild is tried
    /// anew on the next cycle.
    StoreExhausted,
}

/// The handles that a chunk gave up.
#[derive(Clone, Copy, Debug, PartialEq, Eq, Structural)]
pub struct Released {
    pub render: Option<RenderHandle>,
    pub collider: Option<ColliderHandle>,
}

/// The mathematical content of a [`Chunk`].
pub struct ChunkView {
    pub field: FieldView,
    /// The densities changed since the mesh was last built.
    pub dirty: bool,
    /// The chunk is to be removed at the next sweep.
    pub pending_destroy: bool,
    /// The cached triangle list. Absent until the first rebuild that finds a
    /// surface, and whenever the last rebuild found none.
    pub mesh: Option<Seq<EdgeCrossing>>,
    pub render: Option<RenderHandle>,
    pub collider: Option<ColliderHandle>,
}

impl ChunkView {
    /// The chunk's identity: the world coordinate of its first sample.
    pub open spec fn origin(self) -> Coord {
        self.field.origin
    }

    /// What holds of every chunk: its field is well formed, a cached mesh is
    /// never empty, and handles are held only for a cached mesh.
    pub open spec fn wf(self) -> bool {
        &&& self.field.wf()
        &&& (self.mesh matches Some(m) ==> m.len() > 0)
        &&& (self.render is Some ==> self.mesh is Some)
        &&& (self.collider is Some ==> self.mesh is Some)
    }

    /// A chunk that was just sampled: dirty, with nothing cached.
    pub open spec fn fresh(field: FieldView) -> ChunkView {
        ChunkView {
            field,
            dirty: true,
            pending_destroy: false,
            mesh: None,
            render: None,
            collider: None,
        }
    }

    /// The mesh that a rebuild at `iso` caches: the triangle list of the
    /// field, or nothing if that list is empty.
    pub open spec fn mesh_at(self, iso: Density) -> Option<Seq<EdgeCrossing>> {
        if mesh_of(self.field, iso).len() > 0 {
            Some(mesh_of(self.field, iso))
        } else {
            None
        }
    }

    /// The chunk after [`Chunk::rebuild_if_dirty`]: a clean chunk stays as it
    /// is; a dirty one gets the mesh of its field, gives up its handles and
    /// becomes clean.
    pub open spec fn rebuilt(self, iso: Density) -> ChunkView {
        if self.dirty {
            ChunkView { dirty: false, mesh: self.mesh_at(iso), render: None, collider: None, ..self }
        } else {
            self
        }
    }

    /// What [`Chunk::rebuild_if_dirty`] asks of the stores: nothing for a
    /// clean chunk; for a dirty one the release of what it held, and new
    /// resources if its new mesh is not empty.
    pub open spec fn rebuild_request(self, iso: Density) -> RebuildRequest {
        if self.dirty {
            RebuildRequest {
                release_render: self.render,
                release_collider: self.collider,
                upload: mesh_of(self.field, iso).len() > 0,
            }
        } else {
            RebuildRequest { release_render: None, release_collider: None, upload: false }
        }
    }

    /// Whether the chunk waits for the stores' answers: it has a mesh, is
    /// clean, and holds no handle.
    pub open spec fn awaits_resources(self) -> bool {
        self.mesh is Some && !self.dirty && self.render is None && self.collider is None
    }

    /// The chunk after the stores answered: it holds every handle that was
    /// handed out, and is dirty again if a store had no room.
    pub open spec fn installed(self, render: RenderReply, collider: ColliderReply) -> ChunkView {
        ChunkView {
            render: match render {
                RenderReply::Stored(h) => Some(h),
                RenderReply::Exhausted => None,
            },
            collider: match collider {
                ColliderReply::Built(h) => Some(h),
                _ => None,
            },
            dirty: render is Exhausted || collider is Exhausted,
            ..self
        }
    }

    /// How the rebuild ended, given the stores' answers.
    pub open spec fn install_result(render: RenderReply, collider: ColliderReply) -> Result<
        RebuildStatus,
        RebuildError,
    > {
        if render is Exhausted || collider is Exhausted {
            Err(RebuildError::StoreExhausted)
        } else if collider is Degenerate {
            Ok(RebuildStatus::NoCollider)
        } else {
            Ok(RebuildStatus::Complete)
        }
    }

    /// The handles that the chunk holds.
    pub open spec fn held(self) -> Released {
        Released { render: self.render, collider: self.collider }
    }

    /// The chunk after it gave up its mesh and its handles.
    pub open spec fn destroyed(self) -> ChunkView {
        ChunkView { mesh: None, render: None, collider: None, ..self }
    }

    /// The chunk after an edit at the world point `p`: if `p` is one of its
    /// samples, the sample takes the new value and the chunk is dirty.
    pub open spec fn edited(self, p: Coord, value: Density) -> ChunkView {
        if self.field.contains(p) {
            ChunkView { field: self.field.edited(p, value), dirty: true, ..self }
        } else {
            self
        }
    }

    /// The chunk marked for removal.
    pub open spec fn marked(self) -> ChunkView {
        ChunkView { pending_destroy: true, ..self }
    }
}

/// A second rebuild with no edit in between does nothing: it leaves the
/// chunk as the first left it and asks nothing of the stores.
pub proof fn lemma_rebuild_twice(c: ChunkView, iso: Density)
    ensures
        c.rebuilt(iso).rebuilt(iso) == c.rebuilt(iso),
        c.rebuilt(iso).rebuild_request(iso) == (RebuildRequest {
            release_render: None,
            release_collider: None,
            upload: false,
        }),
        !c.rebuilt(iso).dirty,
{
}

/// A chunk that is built, given its resources and then destroyed hands back
/// exactly the handles it was given, and holds nothing afterwards. Destroying
/// it once more releases nothing.
pub proof fn lemma_destroy_releases_installed(
    field: FieldView,
    iso: Density,
    render: RenderReply,
    collider: ColliderReply,
)
    ensures
        ({
            let c = ChunkView::fresh(field).rebuilt(iso).installed(render, collider);
            &&& c.held().render == (match render {
                RenderReply::Stored(h) => Some(h),
                RenderReply::Exhausted => None,
            })
            &&& c.held().collider == (match collider {
                ColliderReply::Built(h) => Some(h),
                _ => None,
            })
            &&& c.destroyed().held() == (Released { render: None, collider: None })
            &&& c.destroyed().destroyed() == c.destroyed()
        }),
{
}

/// An edit leaves a chunk well formed, where it was, and of the same size.
pub proof fn lemma_edit_keeps_shape(c: ChunkView, p: Coord, value: Density)
    requires
        c.wf(),
    ensures
        c.edited(p, value).wf(),
        c.edited(p, value).origin() == c.origin(),
        c.edited(p, value).field.resolution == c.field.resolution,
{
    if c.field.contains(p) {
        lemma_index_then_inverse(
            c.field.resolution,
            p.x - c.field.origin.x,
            p.y - c.field.origin.y,
            p.z - c.field.origin.z,
        );
    }
}

/// One chunk of terrain.
pub struct Chunk {
    field: DensityField,
    dirty: bool,
    pending_destroy: bool,
    mesh: Option<Vec<EdgeCrossing>>,
    render: Option<RenderHandle>,
    collider: Option<ColliderHandle>,
}

impl View for Chunk {
    type V = ChunkView;

    closed spec fn view(&self) -> ChunkView {
        ChunkView {
            field: self.field@,
            dirty: self.dirty,
            pending_destroy: self.pending_destroy,
            mesh: match self.mesh {
                Some(m) => Some(m@),
                None => None,
            },
            render: self.render,
            collider: self.collider,
        }
    }
}

impl Chunk {
    /// The invariant of the type. Every constructor establishes it and every
    /// method keeps it.
    pub open spec fn wf(&self) -> bool {
        self@.wf()
    }

    /// Creates the chunk rooted at the world cell `(x, y, z)`: samples its
    /// field from `noise` and leaves it dirty, with no mesh and no handle.
    pub fn new<F: Fn(i32, i32, i32) -> Density>(
        noise: &F,
        resolution: usize,
        x: i32,
        y: i32,
        z: i32,
    ) -> (chunk: Chunk)
        requires
            DensityField::fits(Coord { x, y, z }, resolution as int),
            covers(noise, Coord { x, y, z }, resolution as int),
        ensures
            chunk.wf(),
            chunk@ == ChunkView::fresh(chunk@.field),
            chunk@.field.origin == (Coord { x, y, z }),
            chunk@.field.resolution == resolution,
            sampled_from(chunk@.field, noise),
    {
        let field = DensityField::sample_all(Coord { x, y, z }, resolution, noise);
        Chunk { field, dirty: true, pending_destroy: false, mesh: None, render: None, collider: None }
    }

    /// The world coordinate of the chunk's first sample.
    pub fn origin(&self) -> (o: Coord)
        ensures
            o == self@.origin(),
    {
        self.field.origin()
    }

    /// The chunk's density field.
    pub fn field(&self) -> (f: &DensityField)
        ensures
            f@ == self@.field,
    {
        &self.field
    }

    /// Whether the densities changed since the mesh was last built.
    pub fn is_dirty(&self) -> (b: bool)
        ensures
            b == self@.dirty,
    {
        self.dirty
    }

    /// Whether the chunk is marked for removal.
    pub fn is_pending_destroy(&self) -> (b: bool)
        ensures
            b == self@.pending_destroy,
    {
        self.pending_destroy
    }

    /// The cached triangle list, if there is one.
    pub fn mesh(&self) -> (m: Option<&Vec<EdgeCrossing>>)
        ensures
            m is Some == self@.mesh is Some,
            m matches Some(v) ==> Some(v@) == self@.mesh,
    {
        self.mesh.as_ref()
    }

    /// The render handle that the chunk holds, if any.
    pub fn render_handle(&self) -> (h: Option<RenderHandle>)
        ensures
            h == self@.render,
    {
        self.render
    }

    /// The collider handle that the chunk holds, if any.
    pub fn collider_handle(&self) -> (h: Option<ColliderHandle>)
        ensures
            h == self@.collider,
    {
        self.collider
    }

    /// Whether the world point `p` lies in the chunk's box of samples,
    /// `resolution + 1` points along each axis from the origin.
    pub fn is_in_chunk(&self, p: Coord) -> (b: bool)
        requires
            self.wf(),
        ensures
            b == self@.field.contains(p),
    {
        self.field.contains(p)
    }

    /// Whether the chunk waits for [`Chunk::install_resources`].
    pub fn awaits_resources(&self) -> (b: bool)
        ensures
            b == self@.awaits_resources(),
    {
        self.mesh.is_some() && !self.dirty && self.render.is_none() && self.collider.is_none()
    }

    /// Runs the polygonizer over the chunk's field.
    pub fn polygonize(&self, iso: Density) -> (mesh: Vec<EdgeCrossing>)
        requires
            self.wf(),
        ensures
            mesh@ == mesh_of(self@.field, iso),
    {
        polygonize(&self.field, iso)
    }

    /// Applies an edit: overwrites the density at the world point `p` and
    /// marks the chunk dirty, if `p` is one of the chunk's samples. Says
    /// whether it was.
    pub fn edit(&mut self, p: Coord, value: Density) -> (written: bool)
        requires
            old(self).wf(),
        ensures
            final(self).wf(),
            written == old(self)@.field.contains(p),
            final(self)@ == old(self)@.edited(p, value),
    {
        let written = self.field.edit(p, value);
        if written {
            self.dirty = true;
        }
        written
    }

    /// Marks the chunk for removal at the next sweep.
    pub fn mark_for_destroy(&mut self)
        ensures
            final(self)@ == old(self)@.marked(),
    {
        self.pending_destroy = true;
    }

    /// Rebuilds the mesh of a dirty chunk and does nothing to a clean one.
    ///
    /// A dirty chunk gets the triangle list of its field as its mesh (no mesh
    /// if the list is empty), gives up the handles it held, and becomes clean.
    /// The request names the handles to release and says whether resources
    /// for the new mesh are awaited.
    pub fn rebuild_if_dirty(&mut self, iso: Density) -> (request: RebuildRequest)
        requires
            old(self).wf(),
        ensures
            final(self).wf(),
            final(self)@ == old(self)@.rebuilt(iso),
            request == old(self)@.rebuild_request(iso),
            request.upload ==> final(self)@.awaits_resources(),
    {
        if !self.dirty {
            return RebuildRequest { release_render: None, release_collider: None, upload: false };
        }
        let mesh = polygonize(&self.field, iso);
        let upload = mesh.len() > 0;
        let request = RebuildRequest {
            release_render: self.render,
            release_collider: self.collider,
            upload,
        };
        self.render = None;
        self.collider = None;
        if upload {
            self.mesh = Some(mesh);
        } else {
            self.mesh = None;
        }
        self.dirty = false;
        request
    }

    /// Records what the stores answered to the request of the last rebuild.
    ///
    /// The chunk takes every handle that was handed out. If a store had no
    /// room the chunk becomes dirty again, so that the next rebuild releases
    /// what it holds and tries anew, and the failure is reported. A mesh that
    /// made no collision shape is no failure.
    pub fn install_resources(&mut self, render: RenderReply, collider: ColliderReply) -> (result:
        Result<RebuildStatus, RebuildError>)
        requires
            old(self).wf(),
            old(self)@.awaits_resources(),
        ensures
            final(self).wf(),
            final(self)@ == old(self)@.installed(render, collider),
            result == ChunkView::install_result(render, collider),
    {
        let mut failed = false;
        match render {
            RenderReply::Stored(h) => {
                self.render = Some(h);
            },
            RenderReply::Exhausted => {
                failed = true;
            },
        }
        let mut degraded = false;
        match collider {
            ColliderReply::Built(h) => {
                self.collider = Some(h);
            },
            ColliderReply::Degenerate => {
                degraded = true;
            },
            ColliderReply::Exhausted => {
                failed = true;
            },
        }
        if failed {
            self.dirty = true;
            Err(RebuildError::StoreExhausted)
        } else if degraded {
            Ok(RebuildStatus::NoCollider)
        } else {
            Ok(RebuildStatus::Complete)
        }
    }

    /// Gives up the mesh and hands back the handles that the chunk held, for
    /// release. On a chunk that holds nothing this does nothing.
    pub fn destroy(&mut self) -> (released: Released)
        requires
            old(self).wf(),
        ensures
            final(self).wf(),
            released == old(self)@.held(),
            final(self)@ == old(self)@.destroyed(),
    {
        let released = Released { render: self.render, collider: self.collider };
        self.mesh = None;
        self.render = None;
        self.collider = None;
        released
    }
}

} // verus!
