use tracer::gl_types::{UVec3, Vec3};
use tracer::grid::bbox::{BBox, BBoxFinder};
use tracer::grid::pair_counter::PairCounter;
use tracer::grid::pair_writer::PairWriter;
use tracer::grid::resolver::GridResolver;

fn v(x: i64, y: i64, z: i64) -> Vec3 {
    Vec3 { position: [x, y, z] }
}

fn tri(a: u32, b: u32, c: u32) -> UVec3 {
    UVec3 { position: [a, b, c] }
}

fn bb(min: [i64; 3], max: [i64; 3]) -> BBox {
    BBox { min: Vec3 { position: min }, max: Vec3 { position: max } }
}

#[test]
fn bbox_over_triangle_vertices() {
    let positions = vec![
        v(-5, 2, 7),
        v(9, -3, 1),
        v(0, 11, -6),
        // Not referenced by any triangle: must not widen the box.
        v(1000, -1000, 1000),
    ];
    let indices = vec![tri(0, 1, 2)];
    let finder = BBoxFinder::new(1);
    let bbox = finder.calculate_bbox(&positions, &indices);
    assert_eq!(bbox.min.position, [-5, -3, -6]);
    assert_eq!(bbox.max.position, [9, 11, 7]);
}

#[test]
fn resolver_is_deterministic_and_positive() {
    // Equal extents and two triangles target ten triangles of density
    // budget: cbrt(10) floors to 2 on every axis.
    let bbox = bb([0, 0, 0], [100, 100, 100]);
    let (r1, c1) = GridResolver::resolve(&bbox, 2).unwrap();
    let (r2, c2) = GridResolver::resolve(&bbox, 2).unwrap();
    assert_eq!(r1.position, [2, 2, 2]);
    assert_eq!(r1.position, r2.position);
    assert_eq!(c1.num, c2.num);
    assert_eq!(c1.den, c2.den);
    assert_eq!(c1.num, [100, 100, 100]);
    assert_eq!(c1.den, [2, 2, 2]);
    for a in 0..3 {
        assert!(r1.position[a] >= 1);
    }

    // One triangle: cbrt(5) floors to 1.
    let (r3, _) = GridResolver::resolve(&bbox, 1).unwrap();
    assert_eq!(r3.position, [1, 1, 1]);

    // Twenty-five triangles: cbrt(125) is exactly 5.
    let (r4, _) = GridResolver::resolve(&bbox, 25).unwrap();
    assert_eq!(r4.position, [5, 5, 5]);
}

#[test]
fn resolver_degenerate_axis_gives_unit_grid() {
    let bbox = bb([0, 0, 0], [100, 100, 0]);
    let (r, c) = GridResolver::resolve(&bbox, 1000).unwrap();
    assert_eq!(r.position, [1, 1, 1]);
    assert_eq!(c.num, [100, 100, 0]);
    assert_eq!(c.den, [1, 1, 1]);
}

#[test]
fn two_triangles_in_one_cell() {
    // Both triangles sit inside cell (0,0,0) of an externally supplied
    // 2x2x2 grid over [0,100]^3: that cell counts two pairs, all others
    // none, and both indices land in its bucket.
    let positions = vec![
        v(0, 0, 0),
        v(10, 0, 0),
        v(0, 10, 0),
        v(5, 5, 5),
        v(15, 5, 5),
        v(5, 15, 5),
    ];
    let indices = vec![tri(0, 1, 2), tri(3, 4, 5)];
    let bbox = bb([0, 0, 0], [100, 100, 100]);
    let res = UVec3 { position: [2, 2, 2] };
    let counter = PairCounter::new(2);
    let cpr = counter.count_pairs(&positions, &indices, &bbox, &res).unwrap();
    assert_eq!(cpr.pair_count, 2);
    // Exclusive prefix sums: cell 0 holds both pairs.
    assert_eq!(cpr.cells_buffer, vec![0, 2, 2, 2, 2, 2, 2, 2, 2]);
    let writer = PairWriter::new(2);
    let (offsets, references) = writer.write_pairs(cpr, &res);
    assert_eq!(offsets, vec![0, 2, 2, 2, 2, 2, 2, 2, 2]);
    let mut bucket = references.clone();
    bucket.sort();
    assert_eq!(bucket, vec![0, 1]);
}

#[test]
fn boundary_triangle_counts_in_both_cells() {
    // The triangle's highest x coordinate lies exactly on the plane
    // between cells 0 and 1 (x = 50 of a [0,100] axis split in two):
    // inclusive range semantics count it in both cells.
    let positions = vec![v(0, 0, 0), v(50, 10, 10), v(10, 10, 10)];
    let indices = vec![tri(0, 1, 2)];
    let bbox = bb([0, 0, 0], [100, 100, 100]);
    let res = UVec3 { position: [2, 2, 2] };
    let counter = PairCounter::new(1);
    let cpr = counter.count_pairs(&positions, &indices, &bbox, &res).unwrap();
    assert_eq!(cpr.min_cells_buffer[0].position, [0, 0, 0]);
    assert_eq!(cpr.max_cells_buffer[0].position, [1, 0, 0]);
    assert_eq!(cpr.pair_count, 2);
    // Cells are linearised x-fastest: cell (1,0,0) is index 1.
    assert_eq!(cpr.cells_buffer[0], 0);
    assert_eq!(cpr.cells_buffer[1], 1);
    assert_eq!(cpr.cells_buffer[2], 2);
    let writer = PairWriter::new(1);
    let (_, references) = writer.write_pairs(cpr, &res);
    assert_eq!(references, vec![0, 0]);
}

#[test]
fn counter_records_cell_ranges() {
    let positions = vec![v(0, 0, 0), v(99, 99, 99), v(0, 99, 0)];
    let indices = vec![tri(0, 1, 2)];
    let bbox = bb([0, 0, 0], [100, 100, 100]);
    let res = UVec3 { position: [4, 4, 4] };
    let counter = PairCounter::new(1);
    let cpr = counter.count_pairs(&positions, &indices, &bbox, &res).unwrap();
    assert_eq!(cpr.min_cells_buffer[0].position, [0, 0, 0]);
    assert_eq!(cpr.max_cells_buffer[0].position, [3, 3, 3]);
    assert_eq!(cpr.pair_count, 64);
}
