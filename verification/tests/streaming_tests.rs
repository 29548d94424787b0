use voxel_terrain::chunk::{
    ColliderHandle, ColliderReply, RebuildError, RebuildStatus, RenderHandle, RenderReply,
};
use voxel_terrain::coord::Coord;
use voxel_terrain::density::Density;
use voxel_terrain::settings::{TerrainCellEvent, TerrainSettings};
use voxel_terrain::streaming::StreamingManager;

fn lvl(v: f32) -> Density {
    Density::from_bits(v.to_bits())
}

fn ground(_x: i32, y: i32, _z: i32) -> Density {
    if y < 0 {
        lvl(0.0)
    } else {
        lvl(1.0)
    }
}

fn settings(resolution: usize, radius: i32, budget: usize) -> TerrainSettings {
    TerrainSettings {
        resolution,
        iso_level: lvl(0.5),
        spawn_radius: radius,
        max_spawns_per_cycle: budget,
    }
}

fn origins(manager: &StreamingManager) -> Vec<Coord> {
    (0..manager.chunk_count()).map(|i| manager.chunk(i).origin()).collect()
}

fn sorted(mut v: Vec<Coord>) -> Vec<(i32, i32, i32)> {
    v.sort_by_key(|c| (c.x, c.y, c.z));
    v.into_iter().map(|c| (c.x, c.y, c.z)).collect()
}

#[test]
fn default_settings_are_the_documented_ones() {
    let s = TerrainSettings::default();
    assert_eq!(s, settings(16, 8, 1));
    assert!(s.is_valid());
}

#[test]
fn invalid_settings_make_no_manager() {
    assert!(StreamingManager::new(settings(0, 1, 1)).is_none());
    assert!(StreamingManager::new(settings(1025, 1, 1)).is_none());
    assert!(StreamingManager::new(settings(16, -1, 1)).is_none());
    assert!(StreamingManager::new(settings(16, 513, 1)).is_none());
    let m = StreamingManager::new(settings(1024, 512, 0)).unwrap();
    assert_eq!(m.chunk_count(), 0);
    assert_eq!(m.settings(), settings(1024, 512, 0));
}

#[test]
fn eight_cycles_fill_radius_one_nearest_first() {
    let mut manager = StreamingManager::new(settings(2, 1, 1)).unwrap();
    let observer = Coord::new(0, 0, 0);
    assert!(manager.can_stream_at(observer));
    let expected = [
        Coord::new(0, 0, 0),
        Coord::new(-2, 0, 0),
        Coord::new(0, -2, 0),
        Coord::new(0, 0, -2),
        Coord::new(-2, -2, 0),
        Coord::new(-2, 0, -2),
        Coord::new(0, -2, -2),
        Coord::new(-2, -2, -2),
    ];
    for cycle in 0..8 {
        let spawned = manager.spawn_around_player(observer, &ground);
        assert_eq!(spawned, vec![expected[cycle]]);
        manager.read_terrain_events(&Vec::new());
        let out = manager.update_chunks();
        assert!(out.release_render.is_empty());
        assert!(out.release_colliders.is_empty());
        assert_eq!(manager.chunk_count(), cycle + 1);
        let d = spawned[0];
        let dist = (d.x / 2) * (d.x / 2) + (d.y / 2) * (d.y / 2) + (d.z / 2) * (d.z / 2);
        assert_eq!(dist, [0, 1, 1, 1, 2, 2, 2, 3][cycle]);
    }
    assert_eq!(origins(&manager), expected.to_vec());
    for o in origins(&manager) {
        for v in [o.x, o.y, o.z] {
            assert!(v == -2 || v == 0);
        }
    }
    for _ in 0..3 {
        assert!(manager.spawn_around_player(observer, &ground).is_empty());
        let out = manager.update_chunks();
        assert!(out.uploads.is_empty());
        assert_eq!(origins(&manager), expected.to_vec());
    }
}

#[test]
fn budget_bounds_the_spawns_of_a_cycle() {
    let mut manager = StreamingManager::new(settings(2, 1, 3)).unwrap();
    let observer = Coord::new(1, 1, 1);
    assert_eq!(manager.spawn_around_player(observer, &ground).len(), 3);
    assert_eq!(manager.spawn_around_player(observer, &ground).len(), 3);
    assert_eq!(
        manager.spawn_around_player(observer, &ground),
        vec![Coord::new(0, -2, -2), Coord::new(-2, -2, -2)]
    );
    assert!(manager.spawn_around_player(observer, &ground).is_empty());
    assert_eq!(manager.chunk_count(), 8);
    let mut none = StreamingManager::new(settings(2, 1, 0)).unwrap();
    assert!(none.spawn_around_player(observer, &ground).is_empty());
    assert_eq!(none.chunk_count(), 0);
    let mut nothing_desired = StreamingManager::new(settings(2, 0, 5)).unwrap();
    assert!(nothing_desired.spawn_around_player(observer, &ground).is_empty());
}

#[test]
fn update_rebuilds_new_chunks_and_asks_for_resources_where_there_is_a_surface() {
    let mut manager = StreamingManager::new(settings(2, 1, 8)).unwrap();
    let observer = Coord::new(0, 0, 0);
    let spawned = manager.spawn_around_player(observer, &ground);
    assert_eq!(spawned.len(), 8);
    for i in 0..8 {
        assert!(manager.chunk(i).is_dirty());
        assert!(manager.chunk(i).mesh().is_none());
    }
    let out = manager.update_chunks();
    assert_eq!(
        out.uploads,
        vec![
            Coord::new(0, -2, 0),
            Coord::new(-2, -2, 0),
            Coord::new(0, -2, -2),
            Coord::new(-2, -2, -2),
        ]
    );
    for i in 0..8 {
        let chunk = manager.chunk(i);
        assert!(!chunk.is_dirty());
        let has_surface = chunk.origin().y == -2;
        assert_eq!(chunk.mesh().is_some(), has_surface);
        assert_eq!(chunk.awaits_resources(), has_surface);
        if has_surface {
            assert_eq!(chunk.mesh().unwrap().len(), 2 * 2 * 2 * 3);
        }
    }
    let again = manager.update_chunks();
    assert!(again.uploads.is_empty());
    assert!(again.release_render.is_empty());
    assert!(again.release_colliders.is_empty());
}

fn install_all(manager: &mut StreamingManager, uploads: &[Coord], first: u64) {
    for (k, origin) in uploads.iter().enumerate() {
        let id = first + 2 * k as u64;
        let result = manager.install_resources(
            *origin,
            RenderReply::Stored(RenderHandle { id }),
            ColliderReply::Built(ColliderHandle { id: id + 1 }),
        );
        assert_eq!(result, Some(Ok(RebuildStatus::Complete)));
    }
}

#[test]
fn moving_away_destroys_chunks_and_releases_their_handles() {
    let mut manager = StreamingManager::new(settings(2, 1, 8)).unwrap();
    manager.spawn_around_player(Coord::new(0, 0, 0), &ground);
    let out = manager.update_chunks();
    assert_eq!(out.uploads.len(), 4);
    install_all(&mut manager, &out.uploads, 100);
    let held: Vec<(Coord, u64)> = (0..8)
        .filter_map(|i| {
            let c = manager.chunk(i);
            c.render_handle().map(|h| (c.origin(), h.id))
        })
        .collect();
    assert_eq!(held.len(), 4);
    let spawned = manager.spawn_around_player(Coord::new(2, 0, 0), &ground);
    assert_eq!(
        sorted(spawned.clone()),
        vec![(2, -2, -2), (2, -2, 0), (2, 0, -2), (2, 0, 0)]
    );
    assert_eq!(spawned[0], Coord::new(2, 0, 0));
    assert_eq!(manager.chunk_count(), 12);
    for i in 0..8 {
        let c = manager.chunk(i);
        assert_eq!(c.is_pending_destroy(), c.origin().x == -2);
    }
    let out = manager.update_chunks();
    assert_eq!(manager.chunk_count(), 8);
    assert_eq!(
        sorted(origins(&manager)),
        vec![
            (0, -2, -2),
            (0, -2, 0),
            (0, 0, -2),
            (0, 0, 0),
            (2, -2, -2),
            (2, -2, 0),
            (2, 0, -2),
            (2, 0, 0)
        ]
    );
    let gone: Vec<u64> =
        held.iter().filter(|(o, _)| o.x == -2).map(|(_, id)| *id).collect();
    assert_eq!(gone.len(), 2);
    assert_eq!(out.release_render.iter().map(|h| h.id).collect::<Vec<u64>>(), gone);
    assert_eq!(
        out.release_colliders.iter().map(|h| h.id).collect::<Vec<u64>>(),
        gone.iter().map(|id| id + 1).collect::<Vec<u64>>()
    );
    assert_eq!(sorted(out.uploads.clone()), vec![(2, -2, -2), (2, -2, 0)]);
    assert!(manager.find_chunk(Coord::new(-2, 0, 0)).is_none());
    assert!(manager.find_chunk(Coord::new(2, 0, 0)).is_some());
}

#[test]
fn edit_on_a_shared_face_dirties_both_chunks_and_an_edit_outside_none() {
    let mut manager = StreamingManager::new(settings(2, 1, 8)).unwrap();
    manager.spawn_around_player(Coord::new(0, 0, 0), &ground);
    manager.update_chunks();
    for i in 0..8 {
        assert!(!manager.chunk(i).is_dirty());
    }
    let outside = vec![
        TerrainCellEvent { world_pos: Coord::new(3, 0, 0), value: lvl(0.0) },
        TerrainCellEvent { world_pos: Coord::new(0, 0, -3), value: lvl(0.0) },
        TerrainCellEvent { world_pos: Coord::new(100, 100, 100), value: lvl(0.0) },
    ];
    manager.read_terrain_events(&outside);
    for i in 0..8 {
        assert!(!manager.chunk(i).is_dirty());
    }
    let on_face = vec![TerrainCellEvent { world_pos: Coord::new(0, 1, 1), value: lvl(0.25) }];
    manager.read_terrain_events(&on_face);
    let mut dirty: Vec<Coord> = Vec::new();
    for i in 0..8 {
        let c = manager.chunk(i);
        if c.is_dirty() {
            dirty.push(c.origin());
            let local = Coord::new(0 - c.origin().x, 1 - c.origin().y, 1 - c.origin().z);
            assert_eq!(c.field().get(local), Ok(lvl(0.25)));
        }
    }
    assert_eq!(sorted(dirty), vec![(-2, 0, 0), (0, 0, 0)]);
    let out = manager.update_chunks();
    assert_eq!(sorted(out.uploads), vec![(-2, 0, 0), (0, 0, 0)]);
    let corner = vec![TerrainCellEvent { world_pos: Coord::new(0, 0, 0), value: lvl(0.75) }];
    manager.read_terrain_events(&corner);
    let dirty_count = (0..8).filter(|i| manager.chunk(*i).is_dirty()).count();
    assert_eq!(dirty_count, 8);
}

#[test]
fn later_edits_win_and_edits_apply_in_order() {
    let mut manager = StreamingManager::new(settings(2, 1, 1)).unwrap();
    manager.spawn_around_player(Coord::new(0, 0, 0), &ground);
    let events = vec![
        TerrainCellEvent { world_pos: Coord::new(1, 1, 1), value: lvl(0.1) },
        TerrainCellEvent { world_pos: Coord::new(1, 1, 1), value: lvl(0.2) },
        TerrainCellEvent { world_pos: Coord::new(2, 2, 2), value: lvl(0.3) },
    ];
    manager.read_terrain_events(&events);
    let c = manager.chunk(0);
    assert_eq!(c.field().get(Coord::new(1, 1, 1)), Ok(lvl(0.2)));
    assert_eq!(c.field().get(Coord::new(2, 2, 2)), Ok(lvl(0.3)));
    assert_eq!(c.field().get(Coord::new(0, 0, 0)), Ok(lvl(1.0)));
}

#[test]
fn install_goes_to_the_awaiting_chunk_only() {
    let mut manager = StreamingManager::new(settings(2, 1, 8)).unwrap();
    manager.spawn_around_player(Coord::new(0, 0, 0), &ground);
    let out = manager.update_chunks();
    let target = out.uploads[0];
    let no_surface = Coord::new(0, 0, 0);
    let r = RenderReply::Stored(RenderHandle { id: 1 });
    let c = ColliderReply::Built(ColliderHandle { id: 2 });
    assert_eq!(manager.install_resources(Coord::new(50, 50, 50), r, c), None);
    assert_eq!(manager.install_resources(no_surface, r, c), None);
    assert_eq!(
        manager.install_resources(target, RenderReply::Exhausted, ColliderReply::Exhausted),
        Some(Err(RebuildError::StoreExhausted))
    );
    let i = manager.find_chunk(target).unwrap();
    assert!(manager.chunk(i).is_dirty());
    assert_eq!(manager.install_resources(target, r, c), None);
    let retry = manager.update_chunks();
    assert_eq!(retry.uploads, vec![target]);
    assert!(retry.release_render.is_empty());
    assert_eq!(
        manager.install_resources(target, r, ColliderReply::Degenerate),
        Some(Ok(RebuildStatus::NoCollider))
    );
    let i = manager.find_chunk(target).unwrap();
    assert_eq!(manager.chunk(i).render_handle(), Some(RenderHandle { id: 1 }));
    assert_eq!(manager.chunk(i).collider_handle(), None);
    assert_eq!(manager.install_resources(target, r, c), None);
    for k in 0..8 {
        if k != i {
            assert_eq!(manager.chunk(k).render_handle(), None);
        }
    }
}

#[test]
fn cannot_stream_at_the_edge_of_the_world() {
    let manager = StreamingManager::new(settings(16, 8, 1)).unwrap();
    assert!(manager.can_stream_at(Coord::new(0, 0, 0)));
    assert!(manager.can_stream_at(Coord::new(-1000000, 500, 1000000)));
    assert!(!manager.can_stream_at(Coord::new(i32::MAX, 0, 0)));
    assert!(!manager.can_stream_at(Coord::new(0, i32::MIN, 0)));
    assert!(manager.can_stream_at(Coord::new(i32::MAX - 8 * 16 - 15, 0, 0)));
    assert!(!manager.can_stream_at(Coord::new(i32::MAX - 8 * 16 + 1, 0, 0)));
}

#[test]
fn observer_in_a_negative_chunk_gets_the_cube_around_it() {
    let mut manager = StreamingManager::new(settings(4, 1, 8)).unwrap();
    let spawned = manager.spawn_around_player(Coord::new(-1, 5, -9), &ground);
    assert_eq!(spawned[0], Coord::new(-4, 4, -12));
    assert_eq!(
        sorted(spawned),
        vec![
            (-8, 0, -16),
            (-8, 0, -12),
            (-8, 4, -16),
            (-8, 4, -12),
            (-4, 0, -16),
            (-4, 0, -12),
            (-4, 4, -16),
            (-4, 4, -12)
        ]
    );
}

#[test]
fn update_runs_the_three_steps_in_order() {
    let mut manager = StreamingManager::new(settings(2, 1, 2)).unwrap();
    let observer = Coord::new(0, 0, 0);
    let edits = vec![TerrainCellEvent { world_pos: Coord::new(1, 1, 1), value: lvl(0.0) }];
    let out = manager.update(observer, &edits, &ground);
    assert_eq!(origins(&manager), vec![Coord::new(0, 0, 0), Coord::new(-2, 0, 0)]);
    assert_eq!(out.uploads, vec![Coord::new(0, 0, 0)]);
    assert!(out.release_render.is_empty());
    assert!(out.release_colliders.is_empty());
    assert_eq!(manager.chunk(0).field().get(Coord::new(1, 1, 1)), Ok(lvl(0.0)));
    assert_eq!(manager.chunk(0).mesh().map(|m| m.len()), Some(8 * 3));
    assert!(manager.chunk(1).mesh().is_none());
    install_all(&mut manager, &out.uploads, 40);
    let mut cycles = 1;
    loop {
        let before = origins(&manager);
        let out = manager.update(observer, &Vec::new(), &ground);
        cycles += 1;
        install_all(&mut manager, &out.uploads, 100 + 10 * cycles as u64);
        if origins(&manager) == before {
            break;
        }
    }
    assert_eq!(cycles, 5);
    assert_eq!(manager.chunk_count(), 8);
    let far = Coord::new(1000, 0, 0);
    let out = manager.update(far, &Vec::new(), &ground);
    assert_eq!(manager.chunk_count(), 2);
    assert_eq!(out.release_render.len(), 5);
    assert_eq!(out.release_colliders.len(), 5);
    assert_eq!(out.release_render[0], RenderHandle { id: 40 });
    assert_eq!(origins(&manager), vec![Coord::new(1000, 0, 0), Coord::new(998, 0, 0)]);
}
