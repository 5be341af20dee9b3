use luola::cell::CellType;
use luola::chunk::Chunk;
use luola::events::{TerrainCellEvent, TerrainEditShape};
use luola::field::{ColliderMap, TerrainField};
use luola::math::{cell_to_index, IVec3, MilliVec3, CELL_GRID_SIZE_3};
use luola::streamer::{reference_chunk, stream_tick};
use luola::update::ChunkCommand;

fn flat(v: u32) -> Vec<u32> {
    vec![v; CELL_GRID_SIZE_3]
}

fn chunk_of(pos: IVec3, density: u32) -> Chunk {
    Chunk::new(pos.x, pos.y, pos.z, &flat(density), &flat(500))
}

fn sphere_edit(value: u32, radius_milli: u32, cell_type: Option<CellType>) -> TerrainCellEvent {
    TerrainCellEvent {
        origin: MilliVec3 { x: 0, y: 0, z: 0 },
        dir: MilliVec3 { x: 0, y: 0, z: -1000 },
        value,
        shape: TerrainEditShape::Sphere(radius_milli),
        cell_type,
    }
}

/// Every pair of chunks must agree on every shared boundary cell.
fn assert_seams_consistent(field: &TerrainField) {
    for a in &field.chunks {
        for b in &field.chunks {
            for lx in 0..17i32 {
                for ly in 0..17i32 {
                    for lz in 0..17i32 {
                        let w = (a.position.x * 16 + lx, a.position.y * 16 + ly,
                            a.position.z * 16 + lz);
                        let bx = w.0 - b.position.x * 16;
                        let by = w.1 - b.position.y * 16;
                        let bz = w.2 - b.position.z * 16;
                        if (0..=16).contains(&bx) && (0..=16).contains(&by)
                            && (0..=16).contains(&bz) {
                            let ca = a.cells[cell_to_index(lx as usize, ly as usize, lz as usize)];
                            let cb = b.cells[cell_to_index(bx as usize, by as usize, bz as usize)];
                            assert_eq!(ca.value, cb.value);
                            assert_eq!(ca.cell_type, cb.cell_type);
                        }
                    }
                }
            }
        }
    }
}

#[test]
fn reference_chunk_floors_world_position() {
    let rc = reference_chunk(MilliVec3 { x: 15999, y: 16000, z: -1 });
    assert_eq!((rc.x, rc.y, rc.z), (0, 1, -1));
}

#[test]
fn edit_on_boundary_plane_dirties_both_chunks() {
    // Sphere of radius 1.5 centered exactly on the plane shared by chunks
    // (0,0,0) and (1,0,0): both chunks must turn dirty.
    let mut field = TerrainField::new();
    field.insert_chunk(chunk_of(IVec3 { x: 0, y: 0, z: 0 }, 400));
    field.insert_chunk(chunk_of(IVec3 { x: 1, y: 0, z: 0 }, 400));
    field.chunks[0].is_dirty = false;
    field.chunks[1].is_dirty = false;
    let e = sphere_edit(900, 1500, Some(CellType::Gold));
    field.apply_edit(
        IVec3 { x: 0, y: 0, z: 0 },
        MilliVec3 { x: 16000, y: 8000, z: 8000 },
        &e,
    );
    assert!(field.chunks[0].is_dirty);
    assert!(field.chunks[1].is_dirty);
    // The shared plane was written identically on both sides.
    for y in 7..=10usize {
        for z in 7..=10usize {
            let c0 = field.chunks[0].cells[cell_to_index(16, y, z)];
            let c1 = field.chunks[1].cells[cell_to_index(0, y, z)];
            assert_eq!(c0.value, 900);
            assert_eq!(c0.cell_type, CellType::Gold);
            assert_eq!(c1.value, 900);
            assert_eq!(c1.cell_type, CellType::Gold);
        }
    }
    assert_seams_consistent(&field);
}

#[test]
fn cascade_reaches_diagonal_neighbors_and_keeps_seams() {
    // Eight chunks around the corner at world (16,16,16); an edit centered
    // on that corner touches all of them consistently.
    let mut field = TerrainField::new();
    for x in 0..2 {
        for y in 0..2 {
            for z in 0..2 {
                field.insert_chunk(chunk_of(IVec3 { x, y, z }, 400));
            }
        }
    }
    let e = sphere_edit(1000, 2500, Some(CellType::Ruby));
    field.apply_edit(
        IVec3 { x: 0, y: 0, z: 0 },
        MilliVec3 { x: 16000, y: 16000, z: 16000 },
        &e,
    );
    for c in &field.chunks {
        assert!(c.is_dirty);
    }
    assert_seams_consistent(&field);
}

#[test]
fn edit_with_unknown_hit_chunk_is_a_no_op() {
    let mut field = TerrainField::new();
    field.insert_chunk(chunk_of(IVec3 { x: 0, y: 0, z: 0 }, 400));
    field.chunks[0].is_dirty = false;
    let e = sphere_edit(900, 1500, None);
    field.apply_edit(
        IVec3 { x: 9, y: 9, z: 9 },
        MilliVec3 { x: 8000, y: 8000, z: 8000 },
        &e,
    );
    assert!(!field.chunks[0].is_dirty);
    assert_eq!(field.chunks[0].cells[0].value, 400);
}

#[test]
fn find_chunk_at_resolves_world_points() {
    let mut field = TerrainField::new();
    field.insert_chunk(chunk_of(IVec3 { x: 0, y: 0, z: 0 }, 400));
    field.insert_chunk(chunk_of(IVec3 { x: -1, y: 0, z: 0 }, 400));
    let hit = field.find_chunk_at(MilliVec3 { x: -500, y: 100, z: 100 });
    assert_eq!(hit, Some(1));
    assert!(field.find_chunk_at(MilliVec3 { x: 40000, y: 0, z: 0 }).is_none());
}

#[test]
fn streamer_spawns_nearest_first() {
    let mut field = TerrainField::new();
    let rc = IVec3 { x: 0, y: 0, z: 0 };
    let picks = stream_tick(&mut field, rc, 1, 3);
    assert_eq!(picks.len(), 3);
    // The reference chunk itself is the unique nearest coordinate.
    assert_eq!((picks[0].x, picks[0].y, picks[0].z), (0, 0, 0));
    // The rest stream in ascending squared distance.
    let d2 = |q: &IVec3| q.x * q.x + q.y * q.y + q.z * q.z;
    assert!(d2(&picks[1]) <= d2(&picks[2]));
    assert!(d2(&picks[1]) >= 1);
}

#[test]
fn streamer_marks_chunks_outside_window() {
    let mut field = TerrainField::new();
    field.insert_chunk(chunk_of(IVec3 { x: 0, y: 0, z: 0 }, 400));
    field.insert_chunk(chunk_of(IVec3 { x: 5, y: 0, z: 0 }, 400));
    let _ = stream_tick(&mut field, IVec3 { x: 0, y: 0, z: 0 }, 1, 0);
    assert!(!field.chunks[0].should_destroy);
    assert!(field.chunks[1].should_destroy);
}

#[test]
fn streaming_converges_to_wanted_window() {
    // From an empty field, ticking with a stationary reference eventually
    // yields exactly the wanted window — for any throttle value >= 1.
    for throttle in [1usize, 4] {
        let mut field = TerrainField::new();
        let rc = IVec3 { x: 2, y: 0, z: -1 };
        let mut ticks = 0usize;
        loop {
            let picks = stream_tick(&mut field, rc, 1, throttle);
            let _ = field.update_chunks();
            if picks.is_empty() {
                break;
            }
            for p in &picks {
                field.insert_chunk(chunk_of(*p, 400));
            }
            ticks += 1;
            assert!(ticks <= 27);
        }
        assert_eq!(field.chunks.len(), 27);
        for c in &field.chunks {
            assert!((c.position.x - rc.x).abs() <= 1);
            assert!((c.position.y - rc.y).abs() <= 1);
            assert!((c.position.z - rc.z).abs() <= 1);
            assert!(!c.should_destroy);
        }
        // 27 wanted coordinates, throttle per tick, ceiling division.
        assert_eq!(ticks, (27 + throttle - 1) / throttle);
    }
}

#[test]
fn update_pass_removes_marked_and_republishes_dirty() {
    let mut field = TerrainField::new();
    // A chunk with a surface: uniform 0.4 with one 0.6 corner.
    let mut with_surface = chunk_of(IVec3 { x: 0, y: 0, z: 0 }, 400);
    with_surface.cells[0] = luola::cell::Cell { value: 600, cell_type: CellType::Stone };
    field.insert_chunk(with_surface);
    // A dirty chunk with no surface.
    field.insert_chunk(chunk_of(IVec3 { x: 1, y: 0, z: 0 }, 1000));
    // A clean chunk: no commands.
    let mut clean = chunk_of(IVec3 { x: 2, y: 0, z: 0 }, 400);
    clean.is_dirty = false;
    field.insert_chunk(clean);
    // A chunk marked for destruction.
    let mut doomed = chunk_of(IVec3 { x: 3, y: 0, z: 0 }, 400);
    doomed.should_destroy = true;
    field.insert_chunk(doomed);

    let cmds = field.update_chunks();
    assert_eq!(
        cmds,
        vec![
            ChunkCommand::Unpublish(IVec3 { x: 0, y: 0, z: 0 }),
            ChunkCommand::Publish(IVec3 { x: 0, y: 0, z: 0 }),
            ChunkCommand::Unpublish(IVec3 { x: 1, y: 0, z: 0 }),
            ChunkCommand::Despawn(IVec3 { x: 3, y: 0, z: 0 }),
        ]
    );
    assert_eq!(field.chunks.len(), 3);
    assert!(field.chunks.iter().all(|c| !c.is_dirty));
    assert!(field.chunks[0].mesh.is_some());
    assert!(field.chunks[1].mesh.is_none());
    let positions: Vec<i32> = field.chunks.iter().map(|c| c.position.x).collect();
    assert_eq!(positions, vec![0, 1, 2]);
}

#[test]
fn polygonize_retains_grid_and_clears_dirty() {
    let mut c = chunk_of(IVec3 { x: 0, y: 0, z: 0 }, 400);
    let before = c.cells.clone();
    let mesh = c.polygonize();
    assert!(mesh.is_none());
    assert!(!c.is_dirty);
    assert_eq!(c.cells, before);
}

#[test]
fn collider_map_tracks_owning_chunks() {
    let mut m = ColliderMap::new();
    m.insert(7, IVec3 { x: 1, y: 2, z: 3 });
    m.insert(9, IVec3 { x: -1, y: 0, z: 0 });
    assert_eq!(m.get(7), Some(IVec3 { x: 1, y: 2, z: 3 }));
    assert_eq!(m.get(9), Some(IVec3 { x: -1, y: 0, z: 0 }));
    assert_eq!(m.get(8), None);
    m.remove(7);
    assert_eq!(m.get(7), None);
    assert_eq!(m.get(9), Some(IVec3 { x: -1, y: 0, z: 0 }));
    m.remove(100); // unknown id: no-op
    assert_eq!(m.get(9), Some(IVec3 { x: -1, y: 0, z: 0 }));
}
