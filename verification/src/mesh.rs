//! Sphere mesh topology: the triangle index list for a latitude /
//! longitude sphere grid.
//!
//! The vertex positions of the sphere are trigonometric and are computed
//! by the surrounding application; the index list that stitches the grid
//! into triangles is pure integer logic and is generated here. Its
//! contract guarantees that every index addresses the
//! `(segments + 1) * (segments + 1)` vertices the grid produces, so a
//! draw call over this mesh never performs an out-of-range vertex
//! lookup.

use vstd::prelude::*;

verus! {

/// The six index entries of the grid quad at (`lat`, `lon`), starting at
/// position `6 * (lat * segments + lon)` of the index list: two
/// triangles, `(first, second, first + 1)` and
/// `(second, second + 1, first + 1)`, where `first` is the quad's
/// top-left vertex `lat * (segments + 1) + lon`.
pub open spec fn spec_quad_ok(indices: Seq<u32>, segments: int, lat: int, lon: int) -> bool {
    let base = 6 * (lat * segments + lon);
    let first = lat * (segments + 1) + lon;
    let second = first + segments + 1;
    &&& indices[base] == first
    &&& indices[base + 1] == second
    &&& indices[base + 2] == first + 1
    &&& indices[base + 3] == second
    &&& indices[base + 4] == second + 1
    &&& indices[base + 5] == first + 1
}

/// Bounds for the vertex indices of one quad: they all stay below the
/// vertex count of the grid.
proof fn lemma_vertex_index_bounds(segments: int, lat: int, lon: int)
    by (nonlinear_arith)
    requires
        1 <= segments <= 10000,
        0 <= lat < segments,
        0 <= lon < segments,
    ensures
        0 <= lat * (segments + 1) + lon,
        lat * (segments + 1) + lon + segments + 2 < (segments + 1) * (segments + 1),
        (segments + 1) * (segments + 1) <= 100020001,
{
}

/// A quad generated earlier in the scan order occupies an earlier slice
/// of the index list.
proof fn lemma_quad_order(segments: int, la: int, lo: int, lat: int, lon: int)
    by (nonlinear_arith)
    requires
        1 <= segments,
        0 <= la,
        0 <= lo < segments,
        0 <= lat,
        0 <= lon <= segments,
        la < lat || (la == lat && lo < lon),
    ensures
        0 <= 6 * (la * segments + lo),
        6 * (la * segments + lo) + 5 < 6 * (lat * segments + lon),
{
}

/// Generates the triangle index list of a sphere grid with
/// `segments + 1` rings of `segments + 1` vertices each: six indices
/// (two triangles) per grid quad, in row-major quad order. Every index
/// is in range for the grid's vertex array.
pub fn sphere_indices(segments: u32) -> (indices: Vec<u32>)
    requires
        1 <= segments <= 10000,
    ensures
        indices@.len() == 6 * (segments as int) * (segments as int),
        forall|k: int|
            0 <= k < indices@.len() ==> (#[trigger] indices@[k]) < (segments as int + 1) * (
            segments as int + 1),
        forall|la: int, lo: int|
            0 <= la < segments && 0 <= lo < segments ==> #[trigger] spec_quad_ok(
                indices@,
                segments as int,
                la,
                lo,
            ),
{
    let mut indices: Vec<u32> = Vec::new();
    let mut lat: u32 = 0;
    while lat < segments
        invariant
            1 <= segments <= 10000,
            lat <= segments,
            indices@.len() == 6 * ((lat as int) * (segments as int)),
            forall|k: int|
                0 <= k < indices@.len() ==> (#[trigger] indices@[k]) < (segments as int + 1) * (
                segments as int + 1),
            forall|la: int, lo: int|
                0 <= la < lat && 0 <= lo < segments ==> #[trigger] spec_quad_ok(
                    indices@,
                    segments as int,
                    la,
                    lo,
                ),
        decreases segments - lat,
    {
        let mut lon: u32 = 0;
        while lon < segments
            invariant
                1 <= segments <= 10000,
                lat < segments,
                lon <= segments,
                indices@.len() == 6 * ((lat as int) * (segments as int) + lon as int),
                forall|k: int|
                    0 <= k < indices@.len() ==> (#[trigger] indices@[k]) < (segments as int + 1) * (
                    segments as int + 1),
                forall|la: int, lo: int|
                    0 <= la && 0 <= lo < segments && (la < lat || (la == lat && lo < lon))
                        ==> #[trigger] spec_quad_ok(indices@, segments as int, la, lo),
            decreases segments - lon,
        {
            proof {
                lemma_vertex_index_bounds(segments as int, lat as int, lon as int);
            }
            let first: u32 = lat * (segments + 1) + lon;
            let second: u32 = first + segments + 1;
            let ghost pre = indices@;
            indices.push(first);
            indices.push(second);
            indices.push(first + 1);
            indices.push(second);
            indices.push(second + 1);
            indices.push(first + 1);
            proof {
                let s = segments as int;
                let base = 6 * ((lat as int) * s + lon as int);
                assert(base == pre.len());
                assert(indices@[base] == first);
                assert(indices@[base + 1] == second);
                assert(indices@[base + 2] == first + 1);
                assert(indices@[base + 3] == second);
                assert(indices@[base + 4] == second + 1);
                assert(indices@[base + 5] == first + 1);
                assert(spec_quad_ok(indices@, s, lat as int, lon as int));
                assert forall|la: int, lo: int|
                    0 <= la && 0 <= lo < segments && (la < lat || (la == lat && lo < lon
                        + 1)) implies #[trigger] spec_quad_ok(indices@, s, la, lo) by {
                    if la == lat && lo == lon {
                    } else {
                        lemma_quad_order(s, la, lo, lat as int, lon as int);
                        assert(spec_quad_ok(pre, s, la, lo));
                    }
                }
            }
            lon = lon + 1;
        }
        proof {
            assert(((lat as int) + 1) * (segments as int) == (lat as int) * (segments as int)
                + segments as int) by (nonlinear_arith);
        }
        lat = lat + 1;
    }
    proof {
        assert(6 * ((segments as int) * (segments as int)) == 6 * (segments as int) * (
        segments as int)) by (nonlinear_arith);
    }
    indices
}

} // verus!
