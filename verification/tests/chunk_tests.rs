use voxel_terrain::chunk::{
    Chunk, ColliderHandle, ColliderReply, RebuildError, RebuildRequest, RebuildStatus, Released,
    RenderHandle, RenderReply,
};
use voxel_terrain::coord::Coord;
use voxel_terrain::density::Density;

fn val(v: f32) -> Density {
    Density::from_bits(v.to_bits())
}

fn half() -> Density {
    val(0.5)
}

fn solid_below(level: i32) -> impl Fn(i32, i32, i32) -> Density {
    move |_x: i32, y: i32, _z: i32| if y < level { val(0.0) } else { val(1.0) }
}

struct Stores {
    next: u64,
    render_allocated: usize,
    render_released: usize,
    collider_allocated: usize,
    collider_released: usize,
}

impl Stores {
    fn new() -> Stores {
        Stores {
            next: 1,
            render_allocated: 0,
            render_released: 0,
            collider_allocated: 0,
            collider_released: 0,
        }
    }

    fn serve(&mut self, chunk: &mut Chunk, request: RebuildRequest) {
        if request.release_render.is_some() {
            self.render_released += 1;
        }
        if request.release_collider.is_some() {
            self.collider_released += 1;
        }
        if request.upload {
            assert!(chunk.awaits_resources());
            let render = RenderHandle { id: self.next };
            let collider = ColliderHandle { id: self.next + 1 };
            self.next += 2;
            self.render_allocated += 1;
            self.collider_allocated += 1;
            let result =
                chunk.install_resources(RenderReply::Stored(render), ColliderReply::Built(collider));
            assert_eq!(result, Ok(RebuildStatus::Complete));
        }
    }

    fn take_back(&mut self, released: Released) {
        if released.render.is_some() {
            self.render_released += 1;
        }
        if released.collider.is_some() {
            self.collider_released += 1;
        }
    }
}

#[test]
fn new_chunk_is_dirty_and_holds_nothing() {
    let chunk = Chunk::new(&solid_below(1), 2, 4, 0, -4);
    assert_eq!(chunk.origin(), Coord::new(4, 0, -4));
    assert_eq!(chunk.field().resolution(), 2);
    assert!(chunk.is_dirty());
    assert!(!chunk.is_pending_destroy());
    assert!(chunk.mesh().is_none());
    assert_eq!(chunk.render_handle(), None);
    assert_eq!(chunk.collider_handle(), None);
    assert!(!chunk.awaits_resources());
    assert!(chunk.is_in_chunk(Coord::new(6, 2, -2)));
    assert!(!chunk.is_in_chunk(Coord::new(7, 2, -2)));
}

#[test]
fn rebuild_runs_once_and_then_does_nothing() {
    let mut chunk = Chunk::new(&solid_below(1), 2, 0, 0, 0);
    let first = chunk.rebuild_if_dirty(half());
    assert_eq!(
        first,
        RebuildRequest { release_render: None, release_collider: None, upload: true }
    );
    assert!(!chunk.is_dirty());
    assert_eq!(chunk.mesh().map(|m| m.len()), Some(2 * 2 * 2 * 3));
    assert_eq!(chunk.mesh().cloned(), Some(chunk.polygonize(half())));
    assert!(chunk.awaits_resources());
    let second = chunk.rebuild_if_dirty(half());
    assert_eq!(
        second,
        RebuildRequest { release_render: None, release_collider: None, upload: false }
    );
    assert!(!chunk.is_dirty());
    assert_eq!(chunk.mesh().map(|m| m.len()), Some(24));
    assert!(chunk.awaits_resources());
}

#[test]
fn rebuild_of_an_empty_chunk_creates_no_resources() {
    let mut chunk = Chunk::new(&solid_below(-100), 2, 0, 0, 0);
    let request = chunk.rebuild_if_dirty(half());
    assert_eq!(
        request,
        RebuildRequest { release_render: None, release_collider: None, upload: false }
    );
    assert!(!chunk.is_dirty());
    assert!(chunk.mesh().is_none());
    assert!(!chunk.awaits_resources());
    assert_eq!(chunk.destroy(), Released { render: None, collider: None });
}

#[test]
fn spawn_then_destroy_allocates_and_releases_once_each() {
    let mut stores = Stores::new();
    let mut chunk = Chunk::new(&solid_below(1), 2, 0, 0, 0);
    let request = chunk.rebuild_if_dirty(half());
    stores.serve(&mut chunk, request);
    assert_eq!(chunk.render_handle(), Some(RenderHandle { id: 1 }));
    assert_eq!(chunk.collider_handle(), Some(ColliderHandle { id: 2 }));
    chunk.mark_for_destroy();
    assert!(chunk.is_pending_destroy());
    let released = chunk.destroy();
    assert_eq!(
        released,
        Released { render: Some(RenderHandle { id: 1 }), collider: Some(ColliderHandle { id: 2 }) }
    );
    stores.take_back(released);
    assert_eq!(
        (
            stores.render_allocated,
            stores.render_released,
            stores.collider_allocated,
            stores.collider_released
        ),
        (1, 1, 1, 1)
    );
    assert!(chunk.mesh().is_none());
    assert_eq!(chunk.render_handle(), None);
    assert_eq!(chunk.collider_handle(), None);
    let again = chunk.destroy();
    assert_eq!(again, Released { render: None, collider: None });
}

#[test]
fn edit_marks_dirty_and_rebuild_releases_old_handles_first() {
    let mut stores = Stores::new();
    let mut chunk = Chunk::new(&solid_below(1), 2, 0, 0, 0);
    let request = chunk.rebuild_if_dirty(half());
    stores.serve(&mut chunk, request);
    assert!(!chunk.edit(Coord::new(3, 0, 0), val(0.0)));
    assert!(!chunk.is_dirty());
    assert!(chunk.edit(Coord::new(1, 2, 1), val(0.0)));
    assert!(chunk.is_dirty());
    assert_eq!(chunk.field().get(Coord::new(1, 2, 1)), Ok(val(0.0)));
    assert_eq!(chunk.render_handle(), Some(RenderHandle { id: 1 }));
    let request = chunk.rebuild_if_dirty(half());
    assert_eq!(
        request,
        RebuildRequest {
            release_render: Some(RenderHandle { id: 1 }),
            release_collider: Some(ColliderHandle { id: 2 }),
            upload: true,
        }
    );
    assert_eq!(chunk.render_handle(), None);
    assert_eq!(chunk.collider_handle(), None);
    stores.serve(&mut chunk, request);
    assert_eq!(chunk.render_handle(), Some(RenderHandle { id: 3 }));
    assert_eq!(chunk.collider_handle(), Some(ColliderHandle { id: 4 }));
    assert_eq!((stores.render_allocated, stores.render_released), (2, 1));
    assert_eq!((stores.collider_allocated, stores.collider_released), (2, 1));
}

#[test]
fn edit_that_removes_the_surface_releases_and_uploads_nothing() {
    let mut chunk = Chunk::new(
        &|x: i32, y: i32, z: i32| if (x, y, z) == (0, 0, 0) { val(0.0) } else { val(1.0) },
        1,
        0,
        0,
        0,
    );
    let request = chunk.rebuild_if_dirty(half());
    assert!(request.upload);
    assert_eq!(
        chunk.install_resources(
            RenderReply::Stored(RenderHandle { id: 7 }),
            ColliderReply::Built(ColliderHandle { id: 8 })
        ),
        Ok(RebuildStatus::Complete)
    );
    assert!(chunk.edit(Coord::new(0, 0, 0), val(1.0)));
    let request = chunk.rebuild_if_dirty(half());
    assert_eq!(
        request,
        RebuildRequest {
            release_render: Some(RenderHandle { id: 7 }),
            release_collider: Some(ColliderHandle { id: 8 }),
            upload: false,
        }
    );
    assert!(chunk.mesh().is_none());
    assert!(!chunk.awaits_resources());
}

#[test]
fn degenerate_collider_keeps_the_render_mesh() {
    let mut chunk = Chunk::new(&solid_below(1), 2, 0, 0, 0);
    assert!(chunk.rebuild_if_dirty(half()).upload);
    let result =
        chunk.install_resources(RenderReply::Stored(RenderHandle { id: 5 }), ColliderReply::Degenerate);
    assert_eq!(result, Ok(RebuildStatus::NoCollider));
    assert_eq!(chunk.render_handle(), Some(RenderHandle { id: 5 }));
    assert_eq!(chunk.collider_handle(), None);
    assert!(!chunk.is_dirty());
    assert!(chunk.mesh().is_some());
}

#[test]
fn exhausted_store_leaves_the_chunk_dirty_for_a_retry() {
    let mut chunk = Chunk::new(&solid_below(1), 2, 0, 0, 0);
    assert!(chunk.rebuild_if_dirty(half()).upload);
    let result =
        chunk.install_resources(RenderReply::Exhausted, ColliderReply::Built(ColliderHandle { id: 9 }));
    assert_eq!(result, Err(RebuildError::StoreExhausted));
    assert!(chunk.is_dirty());
    assert_eq!(chunk.render_handle(), None);
    assert_eq!(chunk.collider_handle(), Some(ColliderHandle { id: 9 }));
    let retry = chunk.rebuild_if_dirty(half());
    assert_eq!(
        retry,
        RebuildRequest {
            release_render: None,
            release_collider: Some(ColliderHandle { id: 9 }),
            upload: true,
        }
    );
    let result =
        chunk.install_resources(RenderReply::Stored(RenderHandle { id: 10 }), ColliderReply::Exhausted);
    assert_eq!(result, Err(RebuildError::StoreExhausted));
    assert!(chunk.is_dirty());
    assert_eq!(chunk.render_handle(), Some(RenderHandle { id: 10 }));
    assert_eq!(chunk.collider_handle(), None);
    let result = {
        let retry = chunk.rebuild_if_dirty(half());
        assert_eq!(retry.release_render, Some(RenderHandle { id: 10 }));
        assert_eq!(retry.release_collider, None);
        chunk.install_resources(
            RenderReply::Stored(RenderHandle { id: 11 }),
            ColliderReply::Built(ColliderHandle { id: 12 }),
        )
    };
    assert_eq!(result, Ok(RebuildStatus::Complete));
    assert!(!chunk.is_dirty());
}
