use luola::cell::{Cell, CellType, Color};
use luola::cell::{get_cell_color, get_cell_type};
use luola::chunk::Chunk;
use luola::events::{TerrainCellEvent, TerrainEditShape};
use luola::math::{
    cell_to_index, cell_to_world, chunk_coord_of, index_to_cell, round_milli, world_to_cell,
    IVec3, MilliVec3, CELL_GRID_SIZE_3,
};
use luola::tables::tri_row;

fn flat(v: u32) -> Vec<u32> {
    vec![v; CELL_GRID_SIZE_3]
}

fn chunk_of(pos: (i32, i32, i32), density: u32) -> Chunk {
    Chunk::new(pos.0, pos.1, pos.2, &flat(density), &flat(500))
}

fn sphere_edit(value: u32, radius_milli: u32, cell_type: Option<CellType>) -> TerrainCellEvent {
    TerrainCellEvent {
        origin: MilliVec3 { x: 0, y: 0, z: 0 },
        dir: MilliVec3 { x: 0, y: 0, z: -1000 },
        value,
        shape: TerrainEditShape::Sphere(radius_milli),
        cell_type,
    }
}

#[test]
fn coordinate_round_trip_all_indices() {
    for i in 0..CELL_GRID_SIZE_3 {
        let (x, y, z) = index_to_cell(i);
        assert!(x < 17 && y < 17 && z < 17);
        assert_eq!(cell_to_index(x, y, z), i);
    }
}

#[test]
fn cell_index_is_row_major() {
    assert_eq!(cell_to_index(0, 0, 0), 0);
    assert_eq!(cell_to_index(0, 0, 1), 1);
    assert_eq!(cell_to_index(0, 1, 0), 17);
    assert_eq!(cell_to_index(1, 0, 0), 289);
    assert_eq!(cell_to_index(16, 16, 16), CELL_GRID_SIZE_3 - 1);
}

#[test]
fn world_and_cell_transforms_invert() {
    let pos = IVec3 { x: -2, y: 3, z: 1 };
    let w = cell_to_world(pos, 5, 0, 16);
    assert_eq!((w.x, w.y, w.z), (-32 + 5, 48, 32));
    let back = world_to_cell(pos, w);
    assert_eq!((back.x, back.y, back.z), (5, 0, 16));
}

#[test]
fn rounding_is_half_away_from_zero() {
    assert_eq!(round_milli(499), 0);
    assert_eq!(round_milli(500), 1);
    assert_eq!(round_milli(-499), 0);
    assert_eq!(round_milli(-500), -1);
    assert_eq!(round_milli(16499), 16);
}

#[test]
fn chunk_coordinate_is_floor() {
    assert_eq!(chunk_coord_of(0), 0);
    assert_eq!(chunk_coord_of(15999), 0);
    assert_eq!(chunk_coord_of(16000), 1);
    assert_eq!(chunk_coord_of(-1), -1);
    assert_eq!(chunk_coord_of(-16000), -1);
    assert_eq!(chunk_coord_of(-16001), -2);
}

#[test]
fn material_bands_are_narrow_and_prioritized() {
    assert_eq!(get_cell_type(0), CellType::Dirt);
    assert_eq!(get_cell_type(199), CellType::Dirt);
    assert_eq!(get_cell_type(200), CellType::Stone);
    assert_eq!(get_cell_type(300), CellType::Stone);
    assert_eq!(get_cell_type(301), CellType::Granite);
    assert_eq!(get_cell_type(399), CellType::Granite);
    assert_eq!(get_cell_type(400), CellType::Stone);
    assert_eq!(get_cell_type(601), CellType::Iron);
    assert_eq!(get_cell_type(639), CellType::Iron);
    assert_eq!(get_cell_type(640), CellType::Stone);
    assert_eq!(get_cell_type(801), CellType::Gold);
    assert_eq!(get_cell_type(819), CellType::Gold);
    assert_eq!(get_cell_type(820), CellType::Stone);
    assert_eq!(get_cell_type(901), CellType::Ruby);
    assert_eq!(get_cell_type(909), CellType::Ruby);
    assert_eq!(get_cell_type(910), CellType::Stone);
}

#[test]
fn material_colors_are_fixed() {
    assert_eq!(get_cell_color(CellType::Stone), Color { r: 40, g: 40, b: 40, a: 100 });
    assert_eq!(get_cell_color(CellType::Granite), Color { r: 100, g: 100, b: 100, a: 100 });
    assert_eq!(get_cell_color(CellType::Dirt), Color { r: 30, g: 15, b: 10, a: 100 });
    assert_eq!(get_cell_color(CellType::Iron), Color { r: 60, g: 30, b: 0, a: 100 });
    assert_eq!(get_cell_color(CellType::Gold), Color { r: 100, g: 80, b: 10, a: 100 });
    assert_eq!(get_cell_color(CellType::Ruby), Color { r: 100, g: 0, b: 0, a: 100 });
}

#[test]
fn generation_classifies_materials() {
    let mut type_noise = flat(500);
    type_noise[0] = 100; // Dirt band
    type_noise[1] = 805; // Gold band
    let c = Chunk::new(0, 0, 0, &flat(400), &type_noise);
    assert_eq!(c.cells[0].cell_type, CellType::Dirt);
    assert_eq!(c.cells[1].cell_type, CellType::Gold);
    assert_eq!(c.cells[2].cell_type, CellType::Stone);
    assert!(c.is_dirty);
    assert!(!c.should_destroy);
    assert!(c.mesh.is_none());
}

#[test]
fn extreme_case_rows_are_empty() {
    // Case 0 (no corner below) and case 255 (all below) triangulate nothing:
    // every entry of their rows is the sentinel.
    assert_eq!(tri_row(0), u64::MAX);
    assert_eq!(tri_row(255), u64::MAX);
}

#[test]
fn triangulation_rows_use_exactly_the_crossed_edges() {
    // For every corner case, the triangulation row names an edge iff that
    // edge's endpoints lie on opposite sides of the iso level, and the row
    // is whole triangles followed by sentinels.
    const EDGES: [(u32, u32); 12] = [
        (0, 1), (1, 2), (2, 3), (3, 0),
        (4, 5), (5, 6), (6, 7), (7, 4),
        (0, 4), (1, 5), (2, 6), (3, 7),
    ];
    for case in 0..=255u32 {
        let row = tri_row(case as u8);
        let mut used = [false; 12];
        let mut k = 0usize;
        while k < 16 {
            let e = ((row >> (4 * k)) & 0xf) as usize;
            if e >= 12 {
                break;
            }
            used[e] = true;
            k += 1;
        }
        assert_eq!(k % 3, 0, "case {case}: rows hold whole triangles");
        for t in k..16 {
            assert_eq!((row >> (4 * t)) & 0xf, 15, "case {case}: sentinel tail");
        }
        for (idx, (a, b)) in EDGES.iter().enumerate() {
            let crossed = ((case >> a) & 1) != ((case >> b) & 1);
            assert_eq!(used[idx], crossed, "case {case}, edge {idx}");
        }
    }
}

#[test]
fn uniform_grids_have_no_surface() {
    let mut solid = chunk_of((0, 0, 0), 1000);
    assert!(solid.polygonize().is_none());
    assert!(!solid.is_dirty);

    let mut empty = chunk_of((0, 0, 0), 0);
    assert!(empty.polygonize().is_none());

    let mut below = chunk_of((0, 0, 0), 400);
    assert!(below.polygonize().is_none());
}

#[test]
fn single_corner_yields_single_triangle() {
    // Constant 0.4 density with one corner raised to 0.6: only the cube
    // touching cell (0,0,0) crosses the surface, with case 254 (every
    // corner but corner 0 below the iso level).
    let mut c = chunk_of((0, 0, 0), 400);
    c.cells[0] = Cell { value: 600, cell_type: CellType::Stone };
    let mesh = c.polygonize().expect("one cube must contribute");
    assert_eq!(mesh.verts.len(), 3);
    assert_eq!(mesh.colors.len(), 3);
    // Case 254 triangulates edges 0, 3, 8; all three crossings sit halfway
    // (densities 600 and 400 are equally far from the iso level 500).
    let v: Vec<(i64, i64, i64)> = mesh.verts.iter().map(|p| (p.x, p.y, p.z)).collect();
    assert_eq!(v, vec![(500, 0, 0), (0, 0, 500), (0, 500, 0)]);
    for col in &mesh.colors {
        assert_eq!(*col, Color { r: 40, g: 40, b: 40, a: 100 });
    }
}

#[test]
fn interpolation_takes_material_of_nearer_corner() {
    // All cells at 0.9 (Stone), one corner at 0.45 marked Dirt: corner 0 is
    // nearer the iso level, so every emitted vertex shows Dirt.
    let mut c = chunk_of((0, 0, 0), 900);
    c.cells[0] = Cell { value: 450, cell_type: CellType::Dirt };
    let mesh = c.polygonize().expect("one cube must contribute");
    assert_eq!(mesh.verts.len(), 3);
    // Case 1 triangulates edges 0, 8, 3; t = 50_000 / 450 = 111 milli from
    // corner 0 along edges 0 and 8, and 888 milli from the far corner on
    // edge 3.
    let v: Vec<(i64, i64, i64)> = mesh.verts.iter().map(|p| (p.x, p.y, p.z)).collect();
    assert_eq!(v, vec![(111, 0, 0), (0, 111, 0), (0, 0, 112)]);
    for col in &mesh.colors {
        assert_eq!(*col, Color { r: 30, g: 15, b: 10, a: 100 });
    }
}

#[test]
fn edit_writes_bounding_box_and_marks_dirty() {
    let mut c = chunk_of((0, 0, 0), 400);
    c.is_dirty = false;
    let e = sphere_edit(900, 1500, Some(CellType::Iron));
    // Sphere of radius 1.5 cells at world (8, 8, 8): the rounded integer
    // bounding box is [round(6.5), round(9.5)] = [7..=10] per axis.
    c.edit(MilliVec3 { x: 8000, y: 8000, z: 8000 }, &e);
    assert!(c.is_dirty);
    for x in 0..17usize {
        for y in 0..17usize {
            for z in 0..17usize {
                let cell = c.cells[cell_to_index(x, y, z)];
                let inside = (7..=10).contains(&x) && (7..=10).contains(&y)
                    && (7..=10).contains(&z);
                if inside {
                    assert_eq!(cell.value, 900);
                    assert_eq!(cell.cell_type, CellType::Iron);
                } else {
                    assert_eq!(cell.value, 400);
                    assert_eq!(cell.cell_type, CellType::Stone);
                }
            }
        }
    }
}

#[test]
fn edit_without_material_keeps_material() {
    let mut c = Chunk::new(0, 0, 0, &flat(400), &flat(100)); // all Dirt
    let e = sphere_edit(900, 400, None);
    c.edit(MilliVec3 { x: 0, y: 0, z: 0 }, &e);
    assert_eq!(c.cells[0].value, 900);
    assert_eq!(c.cells[0].cell_type, CellType::Dirt);
}

#[test]
fn out_of_range_edit_is_skipped() {
    let mut c = chunk_of((0, 0, 0), 400);
    c.is_dirty = false;
    let e = sphere_edit(900, 1000, None);
    c.edit(MilliVec3 { x: 100_000, y: 0, z: 0 }, &e);
    assert!(!c.is_dirty);
    for cell in &c.cells {
        assert_eq!(cell.value, 400);
    }
}

#[test]
fn edit_twice_equals_edit_once() {
    let mut once = chunk_of((0, 0, 0), 400);
    let mut twice = chunk_of((0, 0, 0), 400);
    let e = sphere_edit(1000, 2500, Some(CellType::Gold));
    let at = MilliVec3 { x: 5000, y: 9000, z: 13000 };
    once.edit(at, &e);
    twice.edit(at, &e);
    twice.edit(at, &e);
    assert_eq!(once.cells, twice.cells);
    assert_eq!(once.is_dirty, twice.is_dirty);
}

#[test]
fn neighbors_are_26_distinct_adjacent_coords() {
    let c = chunk_of((2, -1, 0), 400);
    let ns = c.get_neighbors();
    assert_eq!(ns.len(), 26);
    for (i, a) in ns.iter().enumerate() {
        let (dx, dy, dz) = (a.x - 2, a.y + 1, a.z);
        assert!(dx.abs() <= 1 && dy.abs() <= 1 && dz.abs() <= 1);
        assert!((dx, dy, dz) != (0, 0, 0));
        for b in ns.iter().skip(i + 1) {
            assert!((a.x, a.y, a.z) != (b.x, b.y, b.z));
        }
    }
}

#[test]
fn chunk_boxes_overlap_on_shared_face() {
    let a = chunk_of((0, 0, 0), 400);
    let b = chunk_of((1, 0, 0), 400);
    let on_face = MilliVec3 { x: 16000, y: 1000, z: 1000 };
    assert!(a.is_in_chunk(on_face));
    assert!(b.is_in_chunk(on_face));
    assert!(!a.is_in_chunk(MilliVec3 { x: 16001, y: 1000, z: 1000 }));
    assert!(!b.is_in_chunk(MilliVec3 { x: 15999, y: 1000, z: 1000 }));
}
