use tracer::gl_types::{UVec3, Vec3};
use tracer::grid::{GridBuilder, GridError};

fn v(x: i64, y: i64, z: i64) -> Vec3 {
    Vec3 { position: [x, y, z] }
}

fn tri(a: u32, b: u32, c: u32) -> UVec3 {
    UVec3 { position: [a, b, c] }
}

#[test]
fn single_triangle_grid() {
    // One triangle in the xy plane: the volume degenerates on z, the
    // resolution clamps to one cell per axis, and the single reference
    // is triangle 0.
    let positions = vec![v(0, 0, 0), v(1, 0, 0), v(0, 1, 0)];
    let indices = vec![tri(0, 1, 2)];
    let builder = GridBuilder::new(positions, indices, 1);
    let grid = builder.build().unwrap();
    assert_eq!(grid.bbox.min.position, [0, 0, 0]);
    assert_eq!(grid.bbox.max.position, [1, 1, 0]);
    assert_eq!(grid.resolution.position, [1, 1, 1]);
    assert_eq!(grid.cell_size.num, [1, 1, 0]);
    assert_eq!(grid.cell_size.den, [1, 1, 1]);
    assert_eq!(grid.cells_buffer, vec![0, 1]);
    assert_eq!(grid.references_buffer, vec![0]);
}

#[test]
fn empty_mesh_rejected() {
    let positions = vec![v(0, 0, 0)];
    let indices: Vec<UVec3> = Vec::new();
    let builder = GridBuilder::new(positions, indices, 0);
    assert_eq!(builder.build().unwrap_err(), GridError::EmptyMesh);
}

#[test]
fn triangle_count_beyond_indices_rejected() {
    let positions = vec![v(0, 0, 0), v(1, 0, 0), v(0, 1, 0)];
    let indices = vec![tri(0, 1, 2)];
    let builder = GridBuilder::new(positions, indices, 2);
    assert_eq!(builder.build().unwrap_err(), GridError::InvalidTriangleCount);
}

#[test]
fn index_out_of_bounds_rejected() {
    let positions = vec![v(0, 0, 0), v(1, 0, 0), v(0, 1, 0)];
    let indices = vec![tri(0, 1, 5)];
    let builder = GridBuilder::new(positions, indices, 1);
    assert_eq!(builder.build().unwrap_err(), GridError::IndexOutOfBounds);
}

#[test]
fn coordinate_out_of_range_rejected() {
    let limit = 0x100_0000_0000i64;
    let positions = vec![v(0, 0, 0), v(limit + 1, 0, 0), v(0, 1, 0)];
    let indices = vec![tri(0, 1, 2)];
    let builder = GridBuilder::new(positions, indices, 1);
    assert_eq!(builder.build().unwrap_err(), GridError::CoordinateOutOfRange);
}

#[test]
fn oversized_resolution_rejected() {
    // A needle-shaped scene with enough triangles pushes the x resolution
    // past what a u32 can hold.
    let limit = 0x100_0000_0000i64;
    let positions = vec![v(-limit, 0, 0), v(limit, 1, 1), v(0, 0, 0)];
    let mut indices = Vec::new();
    for _ in 0..3300 {
        indices.push(tri(0, 1, 2));
    }
    let builder = GridBuilder::new(positions, indices, 3300);
    assert_eq!(builder.build().unwrap_err(), GridError::CapacityExceeded);
}

#[test]
fn rebuild_is_idempotent() {
    // Building twice from the same immutable buffers yields the same
    // bbox, resolution, cell size and offsets.
    let positions = vec![
        v(0, 0, 0),
        v(100, 100, 100),
        v(30, 40, 50),
        v(70, 10, 90),
    ];
    let indices = vec![tri(0, 2, 3), tri(1, 2, 3), tri(0, 1, 2)];
    let builder = GridBuilder::new(positions, indices, 3);
    let g1 = builder.build().unwrap();
    let g2 = builder.build().unwrap();
    assert_eq!(g1.bbox.min.position, g2.bbox.min.position);
    assert_eq!(g1.bbox.max.position, g2.bbox.max.position);
    assert_eq!(g1.resolution.position, g2.resolution.position);
    assert_eq!(g1.cell_size.num, g2.cell_size.num);
    assert_eq!(g1.cell_size.den, g2.cell_size.den);
    assert_eq!(g1.cells_buffer, g2.cells_buffer);
}

/// Recomputes a triangle's inclusive cell range exactly as the library
/// defines it, for cross-checking buffers in tests.
fn cell_range(
    positions: &[Vec3],
    index: &UVec3,
    bb_min: [i64; 3],
    bb_max: [i64; 3],
    res: [u32; 3],
) -> ([u32; 3], [u32; 3]) {
    let mut lo = [i64::MAX; 3];
    let mut hi = [i64::MIN; 3];
    for k in 0..3 {
        let p = &positions[index.position[k] as usize];
        for a in 0..3 {
            lo[a] = lo[a].min(p.position[a]);
            hi[a] = hi[a].max(p.position[a]);
        }
    }
    let mut mn = [0u32; 3];
    let mut mx = [0u32; 3];
    for a in 0..3 {
        let extent = bb_max[a] - bb_min[a];
        mn[a] = cell_of(bb_min[a], extent, res[a], lo[a]);
        mx[a] = cell_of(bb_min[a], extent, res[a], hi[a]);
    }
    (mn, mx)
}

fn cell_of(mn: i64, extent: i64, res: u32, x: i64) -> u32 {
    if extent <= 0 {
        return 0;
    }
    let raw = (x - mn) as i128 * res as i128 / extent as i128;
    if raw < 0 {
        0
    } else if raw >= res as i128 {
        res - 1
    } else {
        raw as u32
    }
}

#[test]
fn buckets_hold_exactly_the_covering_triangles() {
    // The central invariant on a mesh spanning several cells: the sum of
    // the per-cell counts is the reference count, each bucket's extent is
    // its count, and each bucket holds exactly the triangles whose cell
    // range covers it, once each.
    let positions = vec![
        v(0, 0, 0),
        v(200, 200, 200),
        v(10, 190, 20),
        v(190, 30, 180),
        v(100, 100, 100),
        v(60, 140, 70),
    ];
    let indices = vec![
        tri(0, 2, 4),
        tri(1, 3, 4),
        tri(0, 1, 5),
        tri(2, 3, 5),
        tri(0, 4, 5),
    ];
    let tc = indices.len();
    let builder = GridBuilder::new(positions.clone(), indices.clone(), tc);
    let grid = builder.build().unwrap();

    let res = grid.resolution.position;
    let cell_count = res[0] as usize * res[1] as usize * res[2] as usize;
    assert_eq!(grid.cells_buffer.len(), cell_count + 1);
    assert_eq!(grid.cells_buffer[0], 0);
    assert_eq!(
        grid.references_buffer.len(),
        grid.cells_buffer[cell_count] as usize
    );

    // Expected bucket contents from the recomputed ranges.
    let mut expected: Vec<Vec<u32>> = vec![Vec::new(); cell_count];
    for (t, index) in indices.iter().enumerate() {
        let (mn, mx) = cell_range(
            &positions,
            index,
            grid.bbox.min.position,
            grid.bbox.max.position,
            res,
        );
        for cz in mn[2]..=mx[2] {
            for cy in mn[1]..=mx[1] {
                for cx in mn[0]..=mx[0] {
                    let c = cx as usize
                        + res[0] as usize * (cy as usize + res[1] as usize * cz as usize);
                    expected[c].push(t as u32);
                }
            }
        }
    }
    let mut total = 0usize;
    for c in 0..cell_count {
        let lo = grid.cells_buffer[c] as usize;
        let hi = grid.cells_buffer[c + 1] as usize;
        assert!(lo <= hi);
        let mut bucket: Vec<u32> = grid.references_buffer[lo..hi].to_vec();
        bucket.sort();
        for w in bucket.windows(2) {
            assert_ne!(w[0], w[1]);
        }
        assert_eq!(bucket, expected[c]);
        total += hi - lo;
    }
    assert_eq!(total, grid.references_buffer.len());
}

#[test]
fn pseudo_random_meshes_keep_the_invariant() {
    // Deterministic pseudo-random triangle soups of growing size; for
    // each, the bucket partition must match the recomputed cell ranges.
    let mut state: u64 = 0x2545_F491_4F6C_DD1D;
    let mut next = move || {
        state ^= state << 13;
        state ^= state >> 7;
        state ^= state << 17;
        state
    };
    for &count in &[1usize, 2, 7, 23, 57] {
        let mut positions = Vec::new();
        let mut indices = Vec::new();
        for _ in 0..count {
            let base = positions.len() as u32;
            for _ in 0..3 {
                let x = (next() % 2001) as i64 - 1000;
                let y = (next() % 2001) as i64 - 1000;
                let z = (next() % 2001) as i64 - 1000;
                positions.push(v(x, y, z));
            }
            indices.push(tri(base, base + 1, base + 2));
        }
        let builder = GridBuilder::new(positions.clone(), indices.clone(), count);
        let grid = builder.build().unwrap();
        let res = grid.resolution.position;
        let cell_count = res[0] as usize * res[1] as usize * res[2] as usize;
        let mut expected: Vec<Vec<u32>> = vec![Vec::new(); cell_count];
        for (t, index) in indices.iter().enumerate() {
            let (mn, mx) = cell_range(
                &positions,
                index,
                grid.bbox.min.position,
                grid.bbox.max.position,
                res,
            );
            for cz in mn[2]..=mx[2] {
                for cy in mn[1]..=mx[1] {
                    for cx in mn[0]..=mx[0] {
                        let c = cx as usize
                            + res[0] as usize * (cy as usize + res[1] as usize * cz as usize);
                        expected[c].push(t as u32);
                    }
                }
            }
        }
        let mut total = 0usize;
        for c in 0..cell_count {
            let lo = grid.cells_buffer[c] as usize;
            let hi = grid.cells_buffer[c + 1] as usize;
            let mut bucket: Vec<u32> = grid.references_buffer[lo..hi].to_vec();
            bucket.sort();
            assert_eq!(bucket, expected[c]);
            total += hi - lo;
        }
        assert_eq!(total, grid.references_buffer.len());
        assert_eq!(total, grid.cells_buffer[cell_count] as usize);
    }
}
