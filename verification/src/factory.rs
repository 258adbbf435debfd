//! Index lists of common 3D shapes.
//!
//! A shape of the factory is a set of vertices, which depend on the size of
//! the shape, and a list of indices into them, three for each triangle,
//! which does not. This file holds the index lists.

use vstd::prelude::*;

verus! {

/// The index lists of common 3D shapes.
pub struct ShapeFactory;

/// The indices of a cube with the corners 0 to 3 on the front face and 4
/// to 7 on the back face, both counter-clockwise from the lower left: two
/// triangles for each of the faces front, back, left, right, top, bottom.
pub open spec fn cube_index_list() -> Seq<u32> {
    seq![
        0, 1, 2, 0, 2, 3,
        4, 6, 5, 4, 7, 6,
        0, 3, 7, 0, 7, 4,
        1, 5, 6, 1, 6, 2,
        3, 2, 6, 3, 6, 7,
        0, 4, 5, 0, 5, 1,
    ]
}

/// The indices of a plane with the corners 0 to 3: two triangles.
pub open spec fn plane_index_list() -> Seq<u32> {
    seq![0, 2, 1, 0, 3, 2]
}

/// The indices of the two triangles between the vertices `segment` and
/// `segment + 1` of the rings `ring` and `ring + 1` of a sphere with
/// `segments + 1` vertices on each ring.
pub open spec fn sphere_quad(segments: int, ring: int, segment: int) -> Seq<u32> {
    let here = ring * (segments + 1) + segment;
    let below = (ring + 1) * (segments + 1) + segment;
    seq![
        here as u32,
        below as u32,
        (below + 1) as u32,
        here as u32,
        (below + 1) as u32,
        (here + 1) as u32,
    ]
}

/// The indices of the first `count` quads between the rings `ring` and
/// `ring + 1` of a sphere.
pub open spec fn sphere_ring(segments: int, ring: int, count: nat) -> Seq<u32>
    decreases count,
{
    if count == 0 {
        seq![]
    } else {
        sphere_ring(segments, ring, (count - 1) as nat) + sphere_quad(segments, ring, count - 1)
    }
}

/// The indices of a sphere down to ring `rings`: those of the quads
/// between each ring and the next, ring by ring.
pub open spec fn sphere_index_list(segments: int, rings: nat) -> Seq<u32>
    decreases rings,
{
    if rings == 0 {
        seq![]
    } else {
        sphere_index_list(segments, (rings - 1) as nat) + sphere_ring(
            segments,
            rings - 1,
            segments as nat,
        )
    }
}

/// The indices of the first `count` side triangles of a cone with the apex
/// at 0 and the base vertices at 1 to `segments`: the apex, a base vertex
/// and the next one around.
pub open spec fn cone_sides(segments: int, count: nat) -> Seq<u32>
    decreases count,
{
    if count == 0 {
        seq![]
    } else {
        let i = count - 1;
        cone_sides(segments, (count - 1) as nat) + seq![
            0u32,
            (i + 1) as u32,
            ((i + 1) % segments + 1) as u32,
        ]
    }
}

/// The indices of the first `count` base triangles of a cone whose base
/// center is at `segments + 1`: the center, the next base vertex around and
/// the base vertex itself.
pub open spec fn cone_base(segments: int, count: nat) -> Seq<u32>
    decreases count,
{
    if count == 0 {
        seq![]
    } else {
        let i = count - 1;
        cone_base(segments, (count - 1) as nat) + seq![
            (segments + 1) as u32,
            ((i + 1) % segments + 1) as u32,
            (i + 1) as u32,
        ]
    }
}

impl ShapeFactory {
    /// The indices of a sphere of `rings + 1` rings of `segments + 1`
    /// vertices each, the vertices numbered ring by ring: two triangles for
    /// each quad between neighbouring rings. The number of vertices has to
    /// fit the index type.
    pub fn sphere_indices(segments: u32, rings: u32) -> (indices: Vec<u32>)
        requires
            (rings + 1) * (segments + 1) <= u32::MAX,
        ensures
            indices@ == sphere_index_list(segments as int, rings as nat),
    {
        let mut indices: Vec<u32> = Vec::new();
        let mut ring: u32 = 0;
        while ring < rings
            invariant
                ring <= rings,
                (rings + 1) * (segments + 1) <= u32::MAX,
                indices@ == sphere_index_list(segments as int, ring as nat),
            decreases rings - ring,
        {
            assert((ring + 2) * (segments + 1) <= (rings + 1) * (segments + 1)) by (nonlinear_arith)
                requires
                    ring < rings,
            ;
            assert((ring + 2) * (segments + 1) == ring * (segments + 1) + 2 * (segments + 1)
                && (ring + 1) * (segments + 1) == ring * (segments + 1) + (segments + 1))
                by (nonlinear_arith);
            assert(0 <= ring * (segments + 1)) by (nonlinear_arith);
            let ring_start = ring * (segments + 1);
            let next_ring_start = (ring + 1) * (segments + 1);
            let ghost done = indices@;
            let mut segment: u32 = 0;
            assert(indices@ =~= done + sphere_ring(segments as int, ring as int, 0));
            while segment < segments
                invariant
                    segment <= segments,
                    ring_start == ring * (segments + 1),
                    next_ring_start == (ring + 1) * (segments + 1),
                    next_ring_start + segments + 1 <= u32::MAX,
                    ring_start + segments + 1 <= u32::MAX,
                    indices@ == done + sphere_ring(segments as int, ring as int, segment as nat),
                decreases segments - segment,
            {
                let ghost before = indices@;
                indices.push(ring_start + segment);
                indices.push(next_ring_start + segment);
                indices.push(next_ring_start + segment + 1);
                indices.push(ring_start + segment);
                indices.push(next_ring_start + segment + 1);
                indices.push(ring_start + segment + 1);
                proof {
                    let quad = sphere_quad(segments as int, ring as int, segment as int);
                    assert(indices@ =~= before + quad);
                    assert(sphere_ring(segments as int, ring as int, (segment + 1) as nat)
                        == sphere_ring(segments as int, ring as int, segment as nat) + quad);
                    assert(done + (sphere_ring(segments as int, ring as int, segment as nat)
                        + quad) =~= before + quad);
                }
                segment += 1;
            }
            ring += 1;
        }
        indices
    }

    /// The indices of a cone with the apex at 0, the base vertices at 1 to
    /// `segments` and the base center at `segments + 1`: the side triangles
    /// around, then the base triangles around.
    pub fn cone_indices(segments: u32) -> (indices: Vec<u32>)
        requires
            segments < u32::MAX,
        ensures
            indices@ == cone_sides(segments as int, segments as nat) + cone_base(
                segments as int,
                segments as nat,
            ),
    {
        let mut indices: Vec<u32> = Vec::new();
        let mut i: u32 = 0;
        while i < segments
            invariant
                i <= segments < u32::MAX,
                indices@ == cone_sides(segments as int, i as nat),
            decreases segments - i,
        {
            let next = (i + 1) % segments;
            let ghost before = indices@;
            indices.push(0);
            indices.push(i + 1);
            indices.push(next + 1);
            proof {
                assert(indices@ =~= before + seq![0u32, (i + 1) as u32, (next + 1) as u32]);
            }
            i += 1;
        }
        let center_idx: u32 = segments + 1;
        let ghost sides = indices@;
        let mut i: u32 = 0;
        assert(indices@ =~= sides + cone_base(segments as int, 0));
        while i < segments
            invariant
                i <= segments < u32::MAX,
                center_idx == segments + 1,
                indices@ == sides + cone_base(segments as int, i as nat),
            decreases segments - i,
        {
            let next = (i + 1) % segments;
            let ghost before = indices@;
            indices.push(center_idx);
            indices.push(next + 1);
            indices.push(i + 1);
            proof {
                let triangle = seq![center_idx, (next + 1) as u32, (i + 1) as u32];
                assert(indices@ =~= before + triangle);
                assert(sides + (cone_base(segments as int, i as nat) + triangle) =~= before
                    + triangle);
            }
            i += 1;
        }
        indices
    }

    /// The indices of the twelve triangles of a cube.
    pub fn cube_indices() -> (indices: Vec<u32>)
        ensures
            indices@ == cube_index_list(),
    {
        let indices = vec![
            0, 1, 2, 0, 2, 3,
            4, 6, 5, 4, 7, 6,
            0, 3, 7, 0, 7, 4,
            1, 5, 6, 1, 6, 2,
            3, 2, 6, 3, 6, 7,
            0, 4, 5, 0, 5, 1,
        ];
        assert(indices@ =~= cube_index_list());
        indices
    }

    /// The indices of the two triangles of a plane.
    pub fn plane_indices() -> (indices: Vec<u32>)
        ensures
            indices@ == plane_index_list(),
    {
        let indices = vec![0, 2, 1, 0, 3, 2];
        assert(indices@ =~= plane_index_list());
        indices
    }
}

} // verus!
