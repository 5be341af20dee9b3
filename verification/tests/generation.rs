use luola::chunk::Chunk;
use luola::math::{cell_to_index, cell_to_world, IVec3, CELL_GRID_SIZE_3};
use noise::{Fbm, NoiseFn, Perlin};

fn to_milli(v: f64) -> u32 {
    (v * 1000.0).clamp(0.0, 1000.0).round() as u32
}

/// Sample the two noise channels at every cell's world position, the way the
/// embedding layer feeds `Chunk::new`.
fn sample_grids(seed: u32, pos: IVec3) -> (Vec<u32>, Vec<u32>) {
    let fbm = Fbm::<Perlin>::new(seed);
    let type_noise = Perlin::new(seed);
    let fbm_scale = 0.02f64;
    let type_scale = 0.05f64;
    let mut density = Vec::with_capacity(CELL_GRID_SIZE_3);
    let mut material = Vec::with_capacity(CELL_GRID_SIZE_3);
    for x in 0..17usize {
        for y in 0..17usize {
            for z in 0..17usize {
                let w = cell_to_world(pos, x, y, z);
                let d = fbm.get([
                    w.x as f64 * fbm_scale,
                    w.y as f64 * fbm_scale,
                    w.z as f64 * fbm_scale,
                ]) * 0.5 + 0.5;
                let t = type_noise.get([
                    w.x as f64 * type_scale,
                    w.y as f64 * type_scale,
                    w.z as f64 * type_scale,
                ]) * 0.5 + 0.5;
                density.push(to_milli(d));
                material.push(to_milli(t));
            }
        }
    }
    (density, material)
}

fn noise_chunk(seed: u32, pos: IVec3) -> Chunk {
    let (density, material) = sample_grids(seed, pos);
    Chunk::new(pos.x, pos.y, pos.z, &density, &material)
}

#[test]
fn same_seed_generates_identical_chunks() {
    let pos = IVec3 { x: 3, y: -2, z: 7 };
    let a = noise_chunk(1337, pos);
    let b = noise_chunk(1337, pos);
    assert_eq!(a.cells, b.cells);
}

#[test]
fn generated_neighbors_share_boundary_cells() {
    // Edge-shared grids: cell (16, y, z) of chunk (0,0,0) samples the same
    // world position as cell (0, y, z) of chunk (1,0,0), so generation
    // starts out seam-consistent.
    let a = noise_chunk(1337, IVec3 { x: 0, y: 0, z: 0 });
    let b = noise_chunk(1337, IVec3 { x: 1, y: 0, z: 0 });
    for y in 0..17usize {
        for z in 0..17usize {
            let ca = a.cells[cell_to_index(16, y, z)];
            let cb = b.cells[cell_to_index(0, y, z)];
            assert_eq!(ca.value, cb.value);
            assert_eq!(ca.cell_type, cb.cell_type);
        }
    }
}

#[test]
fn generated_chunk_polygonizes_cleanly() {
    let mut c = noise_chunk(1337, IVec3 { x: 0, y: 0, z: 0 });
    match c.polygonize() {
        Some(mesh) => {
            assert!(mesh.verts.len() > 0);
            assert_eq!(mesh.verts.len() % 3, 0);
            assert_eq!(mesh.colors.len(), mesh.verts.len());
        }
        None => {
            // A surface-free grid is a valid outcome, not an error.
        }
    }
    assert!(!c.is_dirty);
}
