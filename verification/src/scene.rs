//! Merging loaded meshes into the flat scene buffers.
//!
//! A model file holds several meshes, each with its own positions and
//! locally numbered index triples.  The renderer wants one flat position
//! buffer, one flat index buffer numbered into it, and per-model triangle
//! ranges.  The file reading and the quantisation of raw floating-point
//! coordinates happen outside the library; the merging below is where
//! indices are rebased, and a wrong offset here corrupts every stage
//! after it.

use vstd::prelude::*;
use crate::cs::Model;
use crate::gl_types::{UVec3, Vec3};

verus! {

/// One loaded mesh in plain values: fixed-point vertex positions, flat
/// locally numbered indices (three per triangle), and its material id
/// (`-1` for none).
pub struct MeshData {
    pub positions: Vec<Vec3>,
    pub indices: Vec<u32>,
    pub material_id: i32,
}

/// The merged scene: per-model triangle ranges, the flat position
/// buffer, the index triples rebased into it, and the triangle count.
pub struct ModelBuffers {
    pub models: Vec<Model>,
    pub positions: Vec<Vec3>,
    pub indices: Vec<UVec3>,
    pub triangle_count: usize,
}

/// Vertices held by the first `k` meshes.
pub open spec fn pos_prefix(meshes: Seq<MeshData>, k: int) -> int
    decreases k,
{
    if k <= 0 {
        0
    } else {
        pos_prefix(meshes, k - 1) + meshes[k - 1].positions@.len()
    }
}

/// Flat index entries held by the first `k` meshes.
pub open spec fn idx_prefix(meshes: Seq<MeshData>, k: int) -> int
    decreases k,
{
    if k <= 0 {
        0
    } else {
        idx_prefix(meshes, k - 1) + meshes[k - 1].indices@.len()
    }
}

/// Meshes the merge accepts: every local index refers into its own
/// mesh's positions, every mesh holds whole triangles, and the merged
/// buffers fit the `u32` indices the kernel uses.
pub open spec fn meshes_wf(meshes: Seq<MeshData>) -> bool {
    &&& forall|m: int, j: int|
        0 <= m < meshes.len() && 0 <= j < meshes[m].indices@.len()
            ==> (#[trigger] meshes[m].indices@[j]) < meshes[m].positions@.len()
    &&& forall|m: int| 0 <= m < meshes.len() ==> (#[trigger] meshes[m].indices@.len()) % 3 == 0
    &&& pos_prefix(meshes, meshes.len() as int) <= u32::MAX
    &&& idx_prefix(meshes, meshes.len() as int) <= u32::MAX
}

/// Merges the meshes: positions are concatenated, each mesh's indices
/// are rebased by the vertices that precede it, and each model records
/// its triangle range and material.
pub fn load_mesh(meshes: &Vec<MeshData>) -> (r: (Vec<Model>, Vec<Vec3>, Vec<u32>))
    requires
        meshes_wf(meshes@),
    ensures
        r.0@.len() == meshes@.len(),
        r.1@.len() == pos_prefix(meshes@, meshes@.len() as int),
        r.2@.len() == idx_prefix(meshes@, meshes@.len() as int),
        forall|m: int, j: int|
            0 <= m < meshes@.len() && 0 <= j < meshes@[m].positions@.len() ==> r.1@[pos_prefix(
                meshes@,
                m,
            ) + j] == (#[trigger] meshes@[m].positions@[j]),
        forall|m: int, j: int|
            0 <= m < meshes@.len() && 0 <= j < meshes@[m].indices@.len() ==> r.2@[idx_prefix(
                meshes@,
                m,
            ) + j] == (#[trigger] meshes@[m].indices@[j]) + pos_prefix(meshes@, m),
        forall|m: int|
            0 <= m < meshes@.len() ==> (#[trigger] r.0@[m]) == (Model {
                indices_start: (idx_prefix(meshes@, m) / 3) as u32,
                indices_end: (idx_prefix(meshes@, m + 1) / 3) as u32,
                material_idx: meshes@[m].material_id,
            }),
        forall|i: int| 0 <= i < r.2@.len() ==> (#[trigger] r.2@[i]) < r.1@.len(),
{
    let n = meshes.len();
    let mut models: Vec<Model> = Vec::new();
    let mut positions: Vec<Vec3> = Vec::new();
    let mut indices: Vec<u32> = Vec::new();
    let mut m: usize = 0;
    while m < n
        invariant
            meshes_wf(meshes@),
            n == meshes@.len(),
            m <= n,
            models@.len() == m,
            positions@.len() == pos_prefix(meshes@, m as int),
            indices@.len() == idx_prefix(meshes@, m as int),
            forall|q: int, j: int|
                0 <= q < m && 0 <= j < meshes@[q].positions@.len() ==> positions@[pos_prefix(
                    meshes@,
                    q,
                ) + j] == (#[trigger] meshes@[q].positions@[j]),
            forall|q: int, j: int|
                0 <= q < m && 0 <= j < meshes@[q].indices@.len() ==> indices@[idx_prefix(meshes@, q)
                    + j] == (#[trigger] meshes@[q].indices@[j]) + pos_prefix(meshes@, q),
            forall|q: int|
                0 <= q < m ==> (#[trigger] models@[q]) == (Model {
                    indices_start: (idx_prefix(meshes@, q) / 3) as u32,
                    indices_end: (idx_prefix(meshes@, q + 1) / 3) as u32,
                    material_idx: meshes@[q].material_id,
                }),
            forall|i: int| 0 <= i < indices@.len() ==> (#[trigger] indices@[i]) < positions@.len(),
        decreases n - m,
    {
        proof {
            lemma_prefix_bounds(meshes@, m as int);
        }
        let vertex_offset = positions.len();
        let index_offset = indices.len();
        let tri_start = index_offset / 3;
        let tri_end = (index_offset + meshes[m].indices.len()) / 3;
        models.push(
            Model {
                indices_start: tri_start as u32,
                indices_end: tri_end as u32,
                material_idx: meshes[m].material_id,
            },
        );
        let mut j: usize = 0;
        let pn = meshes[m].positions.len();
        while j < pn
            invariant
                meshes_wf(meshes@),
                n == meshes@.len(),
                m < n,
                pn == meshes@[m as int].positions@.len(),
                vertex_offset == pos_prefix(meshes@, m as int),
                j <= pn,
                positions@.len() == vertex_offset + j,
                forall|q: int, j2: int|
                    0 <= q < m && 0 <= j2 < meshes@[q].positions@.len() ==> positions@[pos_prefix(
                        meshes@,
                        q,
                    ) + j2] == (#[trigger] meshes@[q].positions@[j2]),
                forall|j2: int|
                    0 <= j2 < j ==> positions@[vertex_offset + j2] == (
                    #[trigger] meshes@[m as int].positions@[j2]),
            decreases pn - j,
        {
            let p = meshes[m].positions[j];
            positions.push(p);
            proof {
                assert forall|q: int, j2: int|
                    0 <= q < m && 0 <= j2 < meshes@[q].positions@.len() implies positions@[pos_prefix(
                    meshes@,
                    q,
                ) + j2] == (#[trigger] meshes@[q].positions@[j2]) by {
                    lemma_prefix_nonneg(meshes@, q);
                    lemma_prefix_mono(meshes@, q + 1, m as int);
                }
            }
            j = j + 1;
        }
        let mut j: usize = 0;
        let inlen = meshes[m].indices.len();
        while j < inlen
            invariant
                meshes_wf(meshes@),
                n == meshes@.len(),
                m < n,
                inlen == meshes@[m as int].indices@.len(),
                vertex_offset == pos_prefix(meshes@, m as int),
                index_offset == idx_prefix(meshes@, m as int),
                vertex_offset + meshes@[m as int].positions@.len() == positions@.len(),
                positions@.len() <= u32::MAX,
                j <= inlen,
                indices@.len() == index_offset + j,
                forall|q: int, j2: int|
                    0 <= q < m && 0 <= j2 < meshes@[q].indices@.len() ==> indices@[idx_prefix(
                        meshes@,
                        q,
                    ) + j2] == (#[trigger] meshes@[q].indices@[j2]) + pos_prefix(meshes@, q),
                forall|j2: int|
                    0 <= j2 < j ==> indices@[index_offset + j2] == (
                    #[trigger] meshes@[m as int].indices@[j2]) + vertex_offset,
                forall|i: int| 0 <= i < indices@.len() ==> (#[trigger] indices@[i])
                    < positions@.len(),
            decreases inlen - j,
        {
            let i = meshes[m].indices[j];
            proof {
                assert(meshes@[m as int].indices@[j as int] < meshes@[m as int].positions@.len());
            }
            indices.push(i + vertex_offset as u32);
            proof {
                assert forall|q: int, j2: int|
                    0 <= q < m && 0 <= j2 < meshes@[q].indices@.len() implies indices@[idx_prefix(
                    meshes@,
                    q,
                ) + j2] == (#[trigger] meshes@[q].indices@[j2]) + pos_prefix(meshes@, q) by {
                    lemma_prefix_nonneg(meshes@, q);
                    lemma_prefix_mono(meshes@, q + 1, m as int);
                }
            }
            j = j + 1;
        }
        m = m + 1;
    }
    (models, positions, indices)
}

/// Vertex and index totals of a mesh prefix stay within the accepted
/// caps, and the flat index total of a prefix is a multiple of three.
proof fn lemma_prefix_bounds(meshes: Seq<MeshData>, m: int)
    requires
        meshes_wf(meshes),
        0 <= m < meshes.len(),
    ensures
        pos_prefix(meshes, m) + meshes[m].positions@.len() == pos_prefix(meshes, m + 1),
        idx_prefix(meshes, m) + meshes[m].indices@.len() == idx_prefix(meshes, m + 1),
        pos_prefix(meshes, m + 1) <= pos_prefix(meshes, meshes.len() as int),
        idx_prefix(meshes, m + 1) <= idx_prefix(meshes, meshes.len() as int),
        pos_prefix(meshes, m) >= 0,
        idx_prefix(meshes, m) >= 0,
        idx_prefix(meshes, m) % 3 == 0,
        idx_prefix(meshes, m + 1) % 3 == 0,
        (idx_prefix(meshes, m) + meshes[m].indices@.len()) / 3 == idx_prefix(meshes, m + 1) / 3,
{
    lemma_prefix_nonneg(meshes, m);
    lemma_prefix_nonneg(meshes, m + 1);
    lemma_prefix_mono(meshes, m + 1, meshes.len() as int);
    lemma_idx_prefix_mod3(meshes, m + 1);
}

/// Prefix totals are never negative.
proof fn lemma_prefix_nonneg(meshes: Seq<MeshData>, k: int)
    ensures
        pos_prefix(meshes, k) >= 0,
        idx_prefix(meshes, k) >= 0,
    decreases k,
{
    if k > 0 {
        lemma_prefix_nonneg(meshes, k - 1);
    }
}

/// Prefix totals are monotone in the prefix length.
proof fn lemma_prefix_mono(meshes: Seq<MeshData>, k: int, n: int)
    requires
        0 <= k <= n <= meshes.len(),
    ensures
        pos_prefix(meshes, k) <= pos_prefix(meshes, n),
        idx_prefix(meshes, k) <= idx_prefix(meshes, n),
    decreases n - k,
{
    if k < n {
        lemma_prefix_mono(meshes, k + 1, n);
    }
}

/// With whole triangles per mesh, every index-prefix total is a multiple
/// of three.
proof fn lemma_idx_prefix_mod3(meshes: Seq<MeshData>, k: int)
    requires
        forall|m: int| 0 <= m < meshes.len() ==> (#[trigger] meshes[m].indices@.len()) % 3 == 0,
        0 <= k <= meshes.len(),
    ensures
        idx_prefix(meshes, k) % 3 == 0,
    decreases k,
{
    if k > 0 {
        lemma_idx_prefix_mod3(meshes, k - 1);
    }
}

/// Groups a flat index buffer into triples, one per triangle.
pub fn to_triples(flat: &Vec<u32>) -> (r: Vec<UVec3>)
    requires
        flat@.len() % 3 == 0,
    ensures
        r@.len() == flat@.len() / 3,
        forall|t: int, k: int|
            0 <= t < r@.len() && 0 <= k < 3 ==> #[trigger] crate::grid::model::upos_at(r@[t], k)
                == flat@[3 * t + k],
{
    let tc = flat.len() / 3;
    proof {
        vstd::arithmetic::div_mod::lemma_fundamental_div_mod(flat@.len() as int, 3);
    }
    let mut r: Vec<UVec3> = Vec::with_capacity(tc);
    let mut t: usize = 0;
    while t < tc
        invariant
            tc == flat@.len() / 3,
            flat@.len() == 3 * (tc as int),
            flat@.len() <= usize::MAX,
            t <= tc,
            r@.len() == t,
            forall|q: int, k: int|
                0 <= q < t && 0 <= k < 3 ==> #[trigger] crate::grid::model::upos_at(r@[q], k)
                    == flat@[3 * q + k],
        decreases tc - t,
    {
        proof {
            assert(3 * (t as int) + 2 < flat@.len());
        }
        let base = 3 * t;
        let u = UVec3 { position: [flat[base], flat[base + 1], flat[base + 2]] };
        r.push(u);
        t = t + 1;
    }
    r
}

/// Assembles the merged scene buffers; the flat triangle count is the
/// number of index triples.
pub fn assemble_buffers(meshes: &Vec<MeshData>) -> (r: ModelBuffers)
    requires
        meshes_wf(meshes@),
    ensures
        r.models@.len() == meshes@.len(),
        r.positions@.len() == pos_prefix(meshes@, meshes@.len() as int),
        r.indices@.len() == idx_prefix(meshes@, meshes@.len() as int) / 3,
        r.triangle_count == r.indices@.len(),
        forall|t: int, k: int|
            0 <= t < r.indices@.len() && 0 <= k < 3 ==> #[trigger] crate::grid::model::upos_at(
                r.indices@[t],
                k,
            ) < r.positions@.len(),
    {
    let (models, positions, flat) = load_mesh(meshes);
    proof {
        lemma_idx_prefix_mod3(meshes@, meshes@.len() as int);
    }
    let indices = to_triples(&flat);
    let triangle_count = indices.len();
    proof {
        assert forall|t: int, k: int|
            0 <= t < indices@.len() && 0 <= k < 3 implies #[trigger] crate::grid::model::upos_at(
            indices@[t],
            k,
        ) < positions@.len() by {
            assert(crate::grid::model::upos_at(indices@[t], k) == flat@[3 * t + k]);
            assert(flat@[3 * t + k] < positions@.len());
        }
    }
    ModelBuffers { models, positions, indices, triangle_count }
}

} // verus!
