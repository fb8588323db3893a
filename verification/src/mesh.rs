//! Index planning for mesh extraction: fan triangulation of polygon faces,
//! the source of each expanded corner's position, normal and UV, and the
//! split of triangles by material subset, and the mesh records that come
//! out. The caller copies the numbers.

use vstd::prelude::*;

use crate::asset::opt_view;
use crate::text::{decimal, push_char, push_decimal};

verus! {

/// The face-vertex offset of face `k`: the sum of the counts before it.
pub open spec fn face_offset(counts: Seq<i32>, k: int) -> int
    decreases k,
{
    if k <= 0 {
        0
    } else {
        face_offset(counts, k - 1) + counts[k - 1]
    }
}

/// Face-vertex indices of the fan triangles `i..c-2` of a face starting at
/// offset `o` with `c` vertices: (o, o+i, o+i+1), (o, o+i+1, o+i+2), ...
pub open spec fn fan_fvs(o: int, c: int, i: int) -> Seq<int>
    decreases c - 1 - i,
{
    if i >= c - 1 {
        Seq::empty()
    } else {
        seq![o, o + i, o + i + 1] + fan_fvs(o, c, i + 1)
    }
}

/// The face of each fan triangle `i..c-2` of face `k`.
pub open spec fn fan_faces(k: int, c: int, i: int) -> Seq<int>
    decreases c - 1 - i,
{
    if i >= c - 1 {
        Seq::empty()
    } else {
        seq![k] + fan_faces(k, c, i + 1)
    }
}

/// Face-vertex indices of every triangle of faces `k..`, face `k` starting
/// at offset `o`; faces with fewer than three vertices give none.
pub open spec fn triangle_fvs(counts: Seq<i32>, k: int, o: int) -> Seq<int>
    decreases counts.len() - k,
{
    if k >= counts.len() || k < 0 {
        Seq::empty()
    } else {
        let c = counts[k] as int;
        (if c >= 3 {
            fan_fvs(o, c, 1)
        } else {
            Seq::empty()
        }) + triangle_fvs(counts, k + 1, o + c)
    }
}

/// The face of every triangle of faces `k..`.
pub open spec fn triangle_faces(counts: Seq<i32>, k: int) -> Seq<int>
    decreases counts.len() - k,
{
    if k >= counts.len() || k < 0 {
        Seq::empty()
    } else {
        let c = counts[k] as int;
        (if c >= 3 {
            fan_faces(k, c, 1)
        } else {
            Seq::empty()
        }) + triangle_faces(counts, k + 1)
    }
}

/// The counts are usable: none is negative, every face with three or more
/// vertices lies within `n` face-vertex indices, and the offsets fit a `usize`.
pub open spec fn faces_fit(counts: Seq<i32>, n: int) -> bool {
    &&& forall|k: int| 0 <= k < counts.len() ==> counts[k] >= 0
    &&& forall|k: int|
        0 <= k < counts.len() && counts[k] >= 3 ==> face_offset(counts, k) + counts[k] <= n
    &&& face_offset(counts, counts.len() as int) <= usize::MAX
}

pub proof fn lemma_offset_nonneg(counts: Seq<i32>, k: int)
    requires
        forall|i: int| 0 <= i < counts.len() ==> counts[i] >= 0,
        k <= counts.len(),
    ensures
        0 <= face_offset(counts, k),
    decreases k,
{
    if k > 0 {
        lemma_offset_nonneg(counts, k - 1);
    }
}

pub proof fn lemma_offset_monotone(counts: Seq<i32>, j: int, k: int)
    requires
        forall|i: int| 0 <= i < counts.len() ==> counts[i] >= 0,
        0 <= j <= k <= counts.len(),
    ensures
        0 <= face_offset(counts, j) <= face_offset(counts, k),
    decreases k - j,
{
    lemma_offset_nonneg(counts, j);
    if j < k {
        lemma_offset_monotone(counts, j, k - 1);
    }
}

/// Fan triangulation of polygon faces: three indices per triangle.
pub fn triangulate_faces(face_vertex_counts: &[i32], face_vertex_indices: &[i32]) -> (r: Vec<u32>)
    requires
        faces_fit(face_vertex_counts@, face_vertex_indices@.len() as int),
    ensures
        r@ == triangle_fvs(face_vertex_counts@, 0, 0).map_values(
            |fv: int| face_vertex_indices@[fv] as u32,
        ),
{
    let ghost counts = face_vertex_counts@;
    let ghost idx = face_vertex_indices@;
    let ghost all = triangle_fvs(counts, 0, 0);
    let mut triangles: Vec<u32> = Vec::new();
    let mut idx_offset: usize = 0;
    let mut k: usize = 0;
    while k < face_vertex_counts.len()
        invariant
            0 <= k <= face_vertex_counts.len(),
            counts == face_vertex_counts@,
            idx == face_vertex_indices@,
            faces_fit(counts, idx.len() as int),
            idx_offset == face_offset(counts, k as int),
            all == triangle_fvs(counts, 0, 0),
            all.map_values(|fv: int| idx[fv] as u32) == triangles@ + triangle_fvs(
                counts,
                k as int,
                idx_offset as int,
            ).map_values(|fv: int| idx[fv] as u32),
        decreases face_vertex_counts.len() - k,
    {
        proof {
            lemma_offset_monotone(counts, k as int, k + 1);
            lemma_offset_monotone(counts, k + 1, counts.len() as int);
        }
        let count = face_vertex_counts[k] as usize;
        let ghost rest = triangle_fvs(counts, k + 1, idx_offset + count);
        if count >= 3 {
            assert(face_offset(counts, k as int) + counts[k as int] <= idx.len());
            let base = #[verifier::truncate] (face_vertex_indices[idx_offset] as u32);
            let mut i: usize = 1;
            while i < count - 1
                invariant
                    1 <= i <= count - 1,
                    count >= 3,
                    count == counts[k as int],
                    idx_offset + count <= face_vertex_indices.len(),
                    idx == face_vertex_indices@,
                    base == idx[idx_offset as int] as u32,
                    all.map_values(|fv: int| idx[fv] as u32) == triangles@ + (fan_fvs(
                        idx_offset as int,
                        count as int,
                        i as int,
                    ) + rest).map_values(|fv: int| idx[fv] as u32),
                decreases count - 1 - i,
            {
                let ghost before = triangles@;
                triangles.push(base);
                triangles.push(#[verifier::truncate] (face_vertex_indices[idx_offset + i] as u32));
                triangles.push(#[verifier::truncate] (face_vertex_indices[idx_offset + i + 1] as u32));
                proof {
                    let o = idx_offset as int;
                    let c = count as int;
                    let t3: Seq<int> = seq![o, o + i, o + i + 1];
                    assert(fan_fvs(o, c, i as int) == t3 + fan_fvs(o, c, i + 1));
                    assert((t3 + fan_fvs(o, c, i + 1) + rest).map_values(|fv: int| idx[fv] as u32)
                        =~= t3.map_values(|fv: int| idx[fv] as u32) + (fan_fvs(o, c, i + 1)
                        + rest).map_values(|fv: int| idx[fv] as u32));
                    assert(triangles@ =~= before + t3.map_values(|fv: int| idx[fv] as u32));
                    assert(fan_fvs(o, c, i as int) + rest =~= t3 + fan_fvs(o, c, i + 1) + rest);
                }
                i += 1;
            }
            proof {
                assert(fan_fvs(idx_offset as int, count as int, i as int) =~= Seq::<int>::empty());
                assert(Seq::<int>::empty() + rest =~= rest);
            }
        } else {
            proof {
                assert(triangle_fvs(counts, k as int, idx_offset as int) =~= rest);
            }
        }
        proof {
            assert(triangle_fvs(counts, k as int, idx_offset as int) == (if count >= 3 {
                fan_fvs(idx_offset as int, count as int, 1)
            } else {
                Seq::empty()
            }) + rest);
        }
        idx_offset = idx_offset + count;
        k += 1;
    }
    proof {
        assert(triangle_fvs(counts, k as int, idx_offset as int) =~= Seq::<int>::empty());
        assert(triangles@ =~= all.map_values(|fv: int| idx[fv] as u32));
    }
    triangles
}

// ---------------------------------------------------------------------------
// Expansion of face-varying attributes
// ---------------------------------------------------------------------------

/// Where an expanded corner takes its UV pair from.
#[derive(Debug, Clone, Copy, PartialEq, Eq, Structural)]
pub enum UvSource {
    /// The pair at this index.
    Index(usize),
    /// No pair in range: the corner gets (0, 0).
    Zero,
}

/// The sources of one expanded corner: its vertex (position triple), its
/// normal triple (when the mesh has normals) and its UV (when it has UVs).
#[derive(Debug, Clone, Copy, PartialEq, Eq, Structural)]
pub struct CornerSource {
    pub vertex: usize,
    pub normal: Option<usize>,
    pub uv: Option<UvSource>,
}

/// The attribute arrays of a mesh, by their lengths and index arrays.
pub struct MeshLayout<'a> {
    /// Length of the flat position array (three numbers per vertex).
    pub positions_len: usize,
    /// Length of the flat normal array, when the mesh has normals.
    pub normals_len: Option<usize>,
    /// Normal indices (`primvars:normals:indices`), if any.
    pub normal_indices: Option<&'a [i32]>,
    /// Length of the flat UV array (two numbers per UV), when the mesh has UVs.
    pub uvs_len: Option<usize>,
    /// UV indices, if any.
    pub uv_indices: Option<&'a [i32]>,
    pub face_vertex_counts: &'a [i32],
    pub face_vertex_indices: &'a [i32],
}

pub open spec fn opt_slice(o: Option<&[i32]>) -> Option<Seq<i32>> {
    match o {
        Some(s) => Some(s@),
        None => None,
    }
}

/// The value at `i`, or 0 past the end (as `get(i).unwrap_or(0)`).
pub open spec fn get_or_zero(s: Seq<i32>, i: int) -> int {
    if 0 <= i < s.len() {
        s[i] as int
    } else {
        0
    }
}

/// Normals are face-varying: their count differs from the vertex count and
/// matches the face-vertex count, or they are indexed.
pub open spec fn normals_face_varying(l: MeshLayout) -> bool {
    match l.normals_len {
        Some(n) => {
            let nc = n as int / 3;
            nc > 0 && nc != l.positions_len as int / 3 && (nc == l.face_vertex_indices@.len()
                || l.normal_indices is Some)
        },
        None => false,
    }
}

/// UVs are face-varying: likewise, with two numbers per UV.
pub open spec fn uvs_face_varying(l: MeshLayout) -> bool {
    match l.uvs_len {
        Some(u) => {
            let uc = u as int / 2;
            uc > 0 && uc != l.positions_len as int / 3 && (uc == l.face_vertex_indices@.len()
                || l.uv_indices is Some)
        },
        None => false,
    }
}

/// The normal index looked up for face-vertex `fv`.
pub open spec fn normal_index(l: MeshLayout, fv: int) -> int {
    match opt_slice(l.normal_indices) {
        Some(ni) => get_or_zero(ni, fv),
        None => if !normals_face_varying(l) {
            l.face_vertex_indices@[fv] as int
        } else {
            fv
        },
    }
}

/// The UV index looked up for face-vertex `fv`.
pub open spec fn uv_index(l: MeshLayout, fv: int) -> int {
    match opt_slice(l.uv_indices) {
        Some(ui) => get_or_zero(ui, fv),
        None => if uvs_face_varying(l) {
            fv
        } else {
            l.face_vertex_indices@[fv] as int
        },
    }
}

/// The sources of the corner at face-vertex `fv`: a normal index out of
/// range falls back to `min(fv, normals/3 - 1)`; a UV index out of range
/// gives (0, 0).
pub open spec fn corner_of(l: MeshLayout, fv: int) -> CornerSource {
    CornerSource {
        vertex: l.face_vertex_indices@[fv] as usize,
        normal: match l.normals_len {
            Some(n) => {
                let ni = normal_index(l, fv);
                Some(
                    if ni * 3 + 2 < n {
                        ni as usize
                    } else if fv < n / 3 - 1 {
                        fv as usize
                    } else {
                        (n / 3 - 1) as usize
                    },
                )
            },
            None => None,
        },
        uv: match l.uvs_len {
            Some(u) => {
                let ui = uv_index(l, fv);
                Some(
                    if ui * 2 + 1 < u {
                        UvSource::Index(ui as usize)
                    } else {
                        UvSource::Zero
                    },
                )
            },
            None => None,
        },
    }
}

/// Reading the corner at face-vertex `fv` stays within the arrays: the
/// vertex and the looked-up indices are not negative, the position triple
/// is in range, the index arithmetic fits, and a normal fallback has a
/// normal to fall back to.
pub open spec fn corner_ok(l: MeshLayout, fv: int) -> bool {
    let v = l.face_vertex_indices@[fv] as int;
    &&& 0 <= fv < l.face_vertex_indices@.len()
    &&& 0 <= v && v * 3 + 2 < l.positions_len
    &&& l.normals_len matches Some(n) ==> {
        let ni = normal_index(l, fv);
        &&& 0 <= ni && ni * 3 + 2 <= usize::MAX
        &&& ni * 3 + 2 >= n ==> n >= 3
    }
    &&& l.uvs_len matches Some(u) ==> {
        let ui = uv_index(l, fv);
        0 <= ui && ui * 2 + 1 <= usize::MAX
    }
}

/// The layout can be expanded without reading outside any array.
pub open spec fn layout_ok(l: MeshLayout) -> bool {
    let fvs = triangle_fvs(l.face_vertex_counts@, 0, 0);
    &&& faces_fit(l.face_vertex_counts@, l.face_vertex_indices@.len() as int)
    &&& forall|j: int| 0 <= j < fvs.len() ==> corner_ok(l, #[trigger] fvs[j])
    &&& l.face_vertex_counts@.len() <= i32::MAX
}

fn get_or_zero_exec(s: &[i32], i: usize) -> (r: i32)
    ensures
        r as int == get_or_zero(s@, i as int),
{
    if i < s.len() {
        s[i]
    } else {
        0
    }
}

/// The sources of the corner at face-vertex `fv`.
pub fn corner_source(l: &MeshLayout, fv: usize) -> (r: CornerSource)
    requires
        corner_ok(*l, fv as int),
    ensures
        r == corner_of(*l, fv as int),
{
    let vert_idx = l.face_vertex_indices[fv] as usize;
    let normal = match l.normals_len {
        Some(n) => {
            let n_idx: usize = match l.normal_indices {
                Some(ni) => get_or_zero_exec(ni, fv) as usize,
                None => {
                    let nc = n / 3;
                    let fv_normals = nc > 0 && nc != l.positions_len / 3 && (nc
                        == l.face_vertex_indices.len() || l.normal_indices.is_some());
                    if !fv_normals {
                        vert_idx
                    } else {
                        fv
                    }
                },
            };
            if n_idx * 3 + 2 < n {
                Some(n_idx)
            } else {
                let last = n / 3 - 1;
                Some(
                    if fv < last {
                        fv
                    } else {
                        last
                    },
                )
            }
        },
        None => None,
    };
    let uv = match l.uvs_len {
        Some(u) => {
            let uv_idx: usize = match l.uv_indices {
                Some(ui) => get_or_zero_exec(ui, fv) as usize,
                None => {
                    let uc = u / 2;
                    let fv_uvs = uc > 0 && uc != l.positions_len / 3 && (uc
                        == l.face_vertex_indices.len() || l.uv_indices.is_some());
                    if fv_uvs {
                        fv
                    } else {
                        vert_idx
                    }
                },
            };
            if uv_idx * 2 + 1 < u {
                Some(UvSource::Index(uv_idx))
            } else {
                Some(UvSource::Zero)
            }
        },
        None => None,
    };
    CornerSource { vertex: vert_idx, normal, uv }
}

/// The expansion of a mesh: the sources of every triangle corner, three per
/// triangle in fan order, and the face of every triangle.
pub struct ExpansionPlan {
    pub corners: Vec<CornerSource>,
    pub triangle_faces: Vec<i32>,
}

/// Plans the expansion of a mesh's triangles into unindexed corners.
pub fn plan_expansion(l: &MeshLayout) -> (r: ExpansionPlan)
    requires
        layout_ok(*l),
    ensures
        r.corners@ == triangle_fvs(l.face_vertex_counts@, 0, 0).map_values(
            |fv: int| corner_of(*l, fv),
        ),
        r.triangle_faces@ == triangle_faces(l.face_vertex_counts@, 0).map_values(
            |k: int| k as i32,
        ),
{
    let counts = l.face_vertex_counts;
    let ghost cs = counts@;
    let ghost all = triangle_fvs(cs, 0, 0);
    let ghost allf = triangle_faces(cs, 0);
    let mut corners: Vec<CornerSource> = Vec::new();
    let mut faces: Vec<i32> = Vec::new();
    let mut fv_offset: usize = 0;
    let mut k: usize = 0;
    while k < counts.len()
        invariant
            0 <= k <= counts.len(),
            cs == counts@,
            cs == l.face_vertex_counts@,
            layout_ok(*l),
            fv_offset == face_offset(cs, k as int),
            all == triangle_fvs(cs, 0, 0),
            allf == triangle_faces(cs, 0),
            all.map_values(|fv: int| corner_of(*l, fv)) == corners@ + triangle_fvs(
                cs,
                k as int,
                fv_offset as int,
            ).map_values(|fv: int| corner_of(*l, fv)),
            allf.map_values(|f: int| f as i32) == faces@ + triangle_faces(cs, k as int).map_values(
                |f: int| f as i32,
            ),
            forall|j: int| 0 <= j < triangle_fvs(cs, k as int, fv_offset as int).len() ==> corner_ok(*l, #[trigger] triangle_fvs(cs, k as int, fv_offset as int)[j]),
        decreases counts.len() - k,
    {
        proof {
            lemma_offset_monotone(cs, k as int, k + 1);
            lemma_offset_monotone(cs, k + 1, cs.len() as int);
        }
        let count = counts[k] as usize;
        let ghost rest = triangle_fvs(cs, k + 1, fv_offset + count);
        let ghost restf = triangle_faces(cs, k + 1);
        if count >= 3 {
            let mut i: usize = 1;
            while i < count - 1
                invariant
                    1 <= i <= count - 1,
                    count >= 3,
                    k < counts.len(),
                    k <= i32::MAX,
                    count == cs[k as int],
                    fv_offset + count <= l.face_vertex_indices.len(),
                    all.map_values(|fv: int| corner_of(*l, fv)) == corners@ + (fan_fvs(
                        fv_offset as int,
                        count as int,
                        i as int,
                    ) + rest).map_values(|fv: int| corner_of(*l, fv)),
                    allf.map_values(|f: int| f as i32) == faces@ + (fan_faces(k as int, count as int, i as int)
                        + restf).map_values(|f: int| f as i32),
                    forall|j: int| 0 <= j < (fan_fvs(fv_offset as int, count as int, i as int) + rest).len()
                        ==> corner_ok(*l, #[trigger] (fan_fvs(fv_offset as int, count as int, i as int) + rest)[j]),
                decreases count - 1 - i,
            {
                let o = fv_offset;
                let ghost t3: Seq<int> = seq![o as int, o + i, o + i + 1];
                let ghost tail = fan_fvs(o as int, count as int, i + 1) + rest;
                proof {
                    assert(fan_fvs(o as int, count as int, i as int) + rest =~= t3 + tail);
                    assert(corner_ok(*l, (t3 + tail)[0]));
                    assert(corner_ok(*l, (t3 + tail)[1]));
                    assert(corner_ok(*l, (t3 + tail)[2]));
                    assert forall|j: int| 0 <= j < tail.len() implies corner_ok(*l, #[trigger] tail[j]) by {
                        assert(tail[j] == (t3 + tail)[j + 3]);
                    }
                }
                let ghost before = corners@;
                corners.push(corner_source(l, o));
                corners.push(corner_source(l, o + i));
                corners.push(corner_source(l, o + i + 1));
                let ghost beforef = faces@;
                faces.push(k as i32);
                proof {
                    assert((t3 + tail).map_values(|fv: int| corner_of(*l, fv)) =~= t3.map_values(
                        |fv: int| corner_of(*l, fv),
                    ) + tail.map_values(|fv: int| corner_of(*l, fv)));
                    assert(corners@ =~= before + t3.map_values(|fv: int| corner_of(*l, fv)));
                    let f1: Seq<int> = seq![k as int];
                    assert(fan_faces(k as int, count as int, i as int) + restf =~= f1 + (fan_faces(
                        k as int,
                        count as int,
                        i + 1,
                    ) + restf));
                    assert((f1 + (fan_faces(k as int, count as int, i + 1) + restf)).map_values(|f: int| f as i32)
                        =~= f1.map_values(|f: int| f as i32) + (fan_faces(k as int, count as int, i + 1)
                        + restf).map_values(|f: int| f as i32));
                    assert(faces@ =~= beforef + f1.map_values(|f: int| f as i32));
                }
                i += 1;
            }
            proof {
                assert(fan_fvs(fv_offset as int, count as int, i as int) =~= Seq::<int>::empty());
                assert(fan_faces(k as int, count as int, i as int) =~= Seq::<int>::empty());
                assert(Seq::<int>::empty() + rest =~= rest);
                assert(Seq::<int>::empty() + restf =~= restf);
            }
        } else {
            proof {
                assert(triangle_fvs(cs, k as int, fv_offset as int) =~= rest);
                assert(triangle_faces(cs, k as int) =~= restf);
            }
        }
        proof {
            assert(triangle_fvs(cs, k as int, fv_offset as int) == (if count >= 3 {
                fan_fvs(fv_offset as int, count as int, 1)
            } else {
                Seq::empty()
            }) + rest);
            assert(forall|j: int| 0 <= j < rest.len() ==> corner_ok(*l, #[trigger] rest[j])) by {
                let pre: Seq<int> = if count >= 3 {
                    fan_fvs(fv_offset as int, count as int, 1)
                } else {
                    Seq::empty()
                };
                assert forall|j: int| 0 <= j < rest.len() implies corner_ok(*l, #[trigger] rest[j]) by {
                    assert(rest[j] == (pre + rest)[j + pre.len()]);
                }
            }
        }
        fv_offset = fv_offset + count;
        k += 1;
    }
    proof {
        assert(triangle_fvs(cs, k as int, fv_offset as int) =~= Seq::<int>::empty());
        assert(triangle_faces(cs, k as int) =~= Seq::<int>::empty());
        assert(corners@ =~= all.map_values(|fv: int| corner_of(*l, fv)));
        assert(faces@ =~= allf.map_values(|f: int| f as i32));
    }
    ExpansionPlan { corners, triangle_faces: faces }
}

// ---------------------------------------------------------------------------
// Split by material subsets
// ---------------------------------------------------------------------------

/// The corners (three per triangle) of the triangles `t..` whose face is in
/// `set`, as indices into the expanded corners.
pub open spec fn subset_corners(tri_faces: Seq<i32>, set: Seq<i32>, t: int) -> Seq<int>
    decreases tri_faces.len() - t,
{
    if t >= tri_faces.len() || t < 0 {
        Seq::empty()
    } else {
        (if set.contains(tri_faces[t]) {
            seq![3 * t, 3 * t + 1, 3 * t + 2]
        } else {
            Seq::empty()
        }) + subset_corners(tri_faces, set, t + 1)
    }
}

/// For each subset `s..` that has triangles: its index and its corners.
pub open spec fn subset_parts(tri_faces: Seq<i32>, subsets: Seq<Seq<i32>>, s: int) -> Seq<(int, Seq<int>)>
    decreases subsets.len() - s,
{
    if s >= subsets.len() || s < 0 {
        Seq::empty()
    } else {
        let c = subset_corners(tri_faces, subsets[s], 0);
        (if c.len() > 0 {
            seq![(s, c)]
        } else {
            Seq::empty()
        }) + subset_parts(tri_faces, subsets, s + 1)
    }
}

pub open spec fn part_views(v: Seq<(usize, Vec<usize>)>) -> Seq<(int, Seq<int>)> {
    v.map_values(|p: (usize, Vec<usize>)| (p.0 as int, p.1@.map_values(|x: usize| x as int)))
}

pub open spec fn subset_views(v: Seq<Vec<i32>>) -> Seq<Seq<i32>> {
    v.map_values(|s: Vec<i32>| s@)
}

fn contains_i32(v: &Vec<i32>, x: i32) -> (r: bool)
    ensures
        r == v@.contains(x),
{
    let mut i: usize = 0;
    while i < v.len()
        invariant
            0 <= i <= v.len(),
            forall|j: int| 0 <= j < i ==> v@[j] != x,
        decreases v.len() - i,
    {
        if v[i] == x {
            assert(v@[i as int] == x);
            return true;
        }
        i += 1;
    }
    false
}

/// The corners of the triangles whose face is in `set`.
fn corners_in_subset(tri_faces: &Vec<i32>, set: &Vec<i32>) -> (r: Vec<usize>)
    requires
        3 * tri_faces.len() <= usize::MAX,
    ensures
        r@.map_values(|x: usize| x as int) == subset_corners(tri_faces@, set@, 0),
{
    let ghost all = subset_corners(tri_faces@, set@, 0);
    let mut out: Vec<usize> = Vec::new();
    let mut t: usize = 0;
    while t < tri_faces.len()
        invariant
            0 <= t <= tri_faces.len(),
            3 * tri_faces.len() <= usize::MAX,
            all == subset_corners(tri_faces@, set@, 0),
            all == out@.map_values(|x: usize| x as int) + subset_corners(tri_faces@, set@, t as int),
        decreases tri_faces.len() - t,
    {
        let ghost before = out@.map_values(|x: usize| x as int);
        if contains_i32(set, tri_faces[t]) {
            let base = t * 3;
            out.push(base);
            out.push(base + 1);
            out.push(base + 2);
            assert(out@.map_values(|x: usize| x as int) =~= before + seq![3 * t as int, 3 * t + 1, 3 * t + 2]);
        } else {
            assert(out@.map_values(|x: usize| x as int) =~= before + Seq::<int>::empty());
        }
        t += 1;
    }
    assert(out@.map_values(|x: usize| x as int) =~= out@.map_values(|x: usize| x as int) + subset_corners(tri_faces@, set@, t as int));
    out
}

/// Splits the expanded triangles by material subset: for each subset that
/// has triangles, its index and the corners that go into its mesh (the
/// corners of a part are renumbered 0, 1, 2, ... in this order).
pub fn split_by_subsets(tri_faces: &Vec<i32>, subsets: &Vec<Vec<i32>>) -> (r: Vec<(usize, Vec<usize>)>)
    requires
        3 * tri_faces.len() <= usize::MAX,
    ensures
        part_views(r@) == subset_parts(tri_faces@, subset_views(subsets@), 0),
{
    let ghost sv = subset_views(subsets@);
    let ghost all = subset_parts(tri_faces@, sv, 0);
    let mut parts: Vec<(usize, Vec<usize>)> = Vec::new();
    let mut s: usize = 0;
    while s < subsets.len()
        invariant
            0 <= s <= subsets.len(),
            3 * tri_faces.len() <= usize::MAX,
            sv == subset_views(subsets@),
            all == subset_parts(tri_faces@, sv, 0),
            all == part_views(parts@) + subset_parts(tri_faces@, sv, s as int),
        decreases subsets.len() - s,
    {
        let corners = corners_in_subset(tri_faces, &subsets[s]);
        let ghost before = part_views(parts@);
        let ghost c = subset_corners(tri_faces@, sv[s as int], 0);
        if corners.len() > 0 {
            let ghost cv = corners@.map_values(|x: usize| x as int);
            parts.push((s, corners));
            assert(part_views(parts@) =~= before + seq![(s as int, cv)]);
        } else {
            assert(c.len() == 0);
            assert(part_views(parts@) =~= before + Seq::<(int, Seq<int>)>::empty());
        }
        s += 1;
    }
    assert(part_views(parts@) =~= part_views(parts@) + subset_parts(tri_faces@, sv, s as int));
    parts
}

// ---------------------------------------------------------------------------
// Mesh records
// ---------------------------------------------------------------------------

/// A mesh record of an extracted prim, its numbers aside.
pub struct MeshPart {
    /// The prim's path.
    pub path: String,
    /// The record's name.
    pub name: String,
    /// The expanded corners it holds, in order (their numbers are copied
    /// from the expansion); `None` for a mesh kept as read, without face data.
    pub corners: Option<Vec<usize>>,
    /// Its index list, 0, 1, 2, ... one per corner; `None` without face data.
    pub indices: Option<Vec<u32>>,
    /// Its material's path.
    pub material: Option<String>,
}

pub struct PartModel {
    pub path: Seq<char>,
    pub name: Seq<char>,
    pub corners: Option<Seq<int>>,
    pub indices: Option<Seq<int>>,
    pub material: Option<Seq<char>>,
}

pub open spec fn part_model(p: MeshPart) -> PartModel {
    PartModel {
        path: p.path@,
        name: p.name@,
        corners: match p.corners {
            Some(c) => Some(c@.map_values(|x: usize| x as int)),
            None => None,
        },
        indices: match p.indices {
            Some(i) => Some(i@.map_values(|x: u32| x as int)),
            None => None,
        },
        material: opt_view(p.material),
    }
}

pub open spec fn part_models(v: Seq<MeshPart>) -> Seq<PartModel> {
    v.map_values(|p: MeshPart| part_model(p))
}

/// 0, 1, ..., n - 1.
pub open spec fn iota(n: nat) -> Seq<int> {
    Seq::new(n, |i: int| i)
}

/// The first of two optional values that is present.
pub open spec fn or_else(a: Option<Seq<char>>, b: Option<Seq<char>>) -> Option<Seq<char>> {
    match a {
        Some(x) => Some(x),
        None => b,
    }
}

/// The records of the subset parts `parts[k..]`: each named `name_i` for
/// its subset `i`, holding the subset's corners renumbered from 0, with the
/// subset's material or else the mesh's.
pub open spec fn subset_records(
    path: Seq<char>,
    name: Seq<char>,
    parts: Seq<(int, Seq<int>)>,
    materials: Seq<Option<Seq<char>>>,
    mesh_material: Option<Seq<char>>,
) -> Seq<PartModel> {
    parts.map_values(|p: (int, Seq<int>)| PartModel {
        path,
        name: name + seq!['_'] + decimal(p.0 as nat),
        corners: Some(p.1),
        indices: Some(iota(p.1.len())),
        material: or_else(materials[p.0], mesh_material),
    })
}

/// The mesh records of a prim. With no points there are none. Without face
/// data there is one, kept as read. With face data (`tri_faces`, the face of
/// each triangle) and no subsets there is one holding every corner; with
/// subsets, one per subset that has triangles (see `subset_records`).
pub open spec fn mesh_records(
    path: Seq<char>,
    name: Seq<char>,
    has_points: bool,
    tri_faces: Option<Seq<i32>>,
    subset_faces: Seq<Seq<i32>>,
    subset_materials: Seq<Option<Seq<char>>>,
    mesh_material: Option<Seq<char>>,
) -> Seq<PartModel> {
    if !has_points {
        Seq::empty()
    } else {
        match tri_faces {
            None => seq![PartModel { path, name, corners: None, indices: None, material: mesh_material }],
            Some(tf) => if subset_faces.len() == 0 {
                seq![
                    PartModel {
                        path,
                        name,
                        corners: Some(iota(3 * tf.len())),
                        indices: Some(iota(3 * tf.len())),
                        material: mesh_material,
                    },
                ]
            } else {
                subset_records(path, name, subset_parts(tf, subset_faces, 0), subset_materials, mesh_material)
            },
        }
    }
}

fn clone_opt_text(o: &Option<String>) -> (r: Option<String>)
    ensures
        opt_view(r) == opt_view(*o),
{
    match o {
        Some(s) => Some(s.clone()),
        None => None,
    }
}

/// 0, 1, ..., n - 1, as corner numbers.
fn iota_usize(n: usize) -> (r: Vec<usize>)
    ensures
        r@.map_values(|x: usize| x as int) == iota(n as nat),
{
    let mut v: Vec<usize> = Vec::new();
    let mut i: usize = 0;
    while i < n
        invariant
            0 <= i <= n,
            v@.map_values(|x: usize| x as int) == iota(i as nat),
        decreases n - i,
    {
        let ghost before = v@;
        v.push(i);
        assert(v@ =~= before.push(i));
        assert(v@.map_values(|x: usize| x as int) =~= before.map_values(|x: usize| x as int).push(i as int));
        assert(iota((i + 1) as nat) =~= iota(i as nat).push(i as int));
        i += 1;
    }
    v
}

/// 0, 1, ..., n - 1, as indices.
fn iota_u32(n: usize) -> (r: Vec<u32>)
    requires
        n <= u32::MAX + 1,
    ensures
        r@.map_values(|x: u32| x as int) == iota(n as nat),
{
    let mut v: Vec<u32> = Vec::new();
    let mut i: usize = 0;
    while i < n
        invariant
            0 <= i <= n,
            n <= u32::MAX + 1,
            v@.map_values(|x: u32| x as int) == iota(i as nat),
        decreases n - i,
    {
        let ghost before = v@;
        v.push(i as u32);
        assert(v@ =~= before.push(i as u32));
        assert(v@.map_values(|x: u32| x as int) =~= before.map_values(|x: u32| x as int).push(i as int));
        assert(iota((i + 1) as nat) =~= iota(i as nat).push(i as int));
        i += 1;
    }
    v
}

/// Every corner of a subset part is below `3 * tri_faces.len()`.
proof fn lemma_subset_corners_bound(tri_faces: Seq<i32>, set: Seq<i32>, t: int)
    requires
        0 <= t <= tri_faces.len(),
    ensures
        subset_corners(tri_faces, set, t).len() <= 3 * (tri_faces.len() - t),
        subset_corners(tri_faces, set, t).len() == 0 || t < tri_faces.len(),
    decreases tri_faces.len() - t,
{
    if t < tri_faces.len() {
        lemma_subset_corners_bound(tri_faces, set, t + 1);
    }
}

proof fn lemma_subset_parts_bound(tri_faces: Seq<i32>, subsets: Seq<Seq<i32>>, s: int, k: int)
    requires
        0 <= s,
        0 <= k < subset_parts(tri_faces, subsets, s).len(),
    ensures
        s <= subset_parts(tri_faces, subsets, s)[k].0 < subsets.len(),
        subset_parts(tri_faces, subsets, s)[k].1.len() <= 3 * tri_faces.len(),
    decreases subsets.len() - s,
{
    if s < subsets.len() {
        let c = subset_corners(tri_faces, subsets[s], 0);
        lemma_subset_corners_bound(tri_faces, subsets[s], 0);
        let head = if c.len() > 0 {
            seq![(s, c)]
        } else {
            Seq::<(int, Seq<int>)>::empty()
        };
        if k < head.len() {
        } else {
            assert(subset_parts(tri_faces, subsets, s)[k] == subset_parts(tri_faces, subsets, s + 1)[k - head.len()]);
            lemma_subset_parts_bound(tri_faces, subsets, s + 1, k - head.len());
        }
    }
}

proof fn lemma_div3(t: int, c: int)
    requires
        3 * t <= c < 3 * t + 3,
    ensures
        c / 3 == t,
{
    assert(c / 3 == t) by (nonlinear_arith)
        requires
            3 * t <= c < 3 * t + 3,
    ;
}

proof fn lemma_subset_corners_sound(tf: Seq<i32>, set: Seq<i32>, t: int)
    requires
        0 <= t <= tf.len(),
    ensures
        forall|j: int| 0 <= j < subset_corners(tf, set, t).len() ==> {
            let c = #[trigger] subset_corners(tf, set, t)[j];
            3 * t <= c < 3 * tf.len() && set.contains(tf[c / 3])
        },
    decreases tf.len() - t,
{
    if t < tf.len() {
        lemma_subset_corners_sound(tf, set, t + 1);
        let rest = subset_corners(tf, set, t + 1);
        let all = subset_corners(tf, set, t);
        if set.contains(tf[t]) {
            let head = seq![3 * t, 3 * t + 1, 3 * t + 2];
            assert(all == head + rest);
            assert forall|j: int| 0 <= j < all.len() implies {
                let c = #[trigger] all[j];
                3 * t <= c < 3 * tf.len() && set.contains(tf[c / 3])
            } by {
                if j < 3 {
                    lemma_div3(t, all[j]);
                } else {
                    assert(all[j] == rest[j - 3]);
                }
            }
        } else {
            assert(all =~= rest);
        }
    }
}

proof fn lemma_subset_corners_complete(tf: Seq<i32>, set: Seq<i32>, t: int, u: int)
    requires
        0 <= t <= u < tf.len(),
        set.contains(tf[u]),
    ensures
        subset_corners(tf, set, t).contains(3 * u),
        subset_corners(tf, set, t).contains(3 * u + 1),
        subset_corners(tf, set, t).contains(3 * u + 2),
    decreases u - t,
{
    let all = subset_corners(tf, set, t);
    if u == t {
        let rest = subset_corners(tf, set, t + 1);
        assert(all == seq![3 * t, 3 * t + 1, 3 * t + 2] + rest);
        assert(all[0] == 3 * u && all[1] == 3 * u + 1 && all[2] == 3 * u + 2);
    } else {
        lemma_subset_corners_complete(tf, set, t + 1, u);
        let rest = subset_corners(tf, set, t + 1);
        let head = if set.contains(tf[t]) {
            seq![3 * t, 3 * t + 1, 3 * t + 2]
        } else {
            Seq::<int>::empty()
        };
        assert(all == head + rest);
        let j0 = choose|j: int| 0 <= j < rest.len() && rest[j] == 3 * u;
        let j1 = choose|j: int| 0 <= j < rest.len() && rest[j] == 3 * u + 1;
        let j2 = choose|j: int| 0 <= j < rest.len() && rest[j] == 3 * u + 2;
        assert(all[head.len() + j0] == 3 * u);
        assert(all[head.len() + j1] == 3 * u + 1);
        assert(all[head.len() + j2] == 3 * u + 2);
    }
}

proof fn lemma_subset_parts_members(tf: Seq<i32>, subsets: Seq<Seq<i32>>, s: int)
    requires
        0 <= s,
    ensures
        forall|k: int| 0 <= k < subset_parts(tf, subsets, s).len() ==> {
            let p = #[trigger] subset_parts(tf, subsets, s)[k];
            s <= p.0 < subsets.len() && p.1 == subset_corners(tf, subsets[p.0], 0) && p.1.len() > 0
        },
        forall|i: int|
            s <= i < subsets.len() && subset_corners(tf, subsets[i], 0).len() > 0 ==> exists|k: int|
                0 <= k < subset_parts(tf, subsets, s).len() && (#[trigger] subset_parts(tf, subsets, s)[k]).0 == i,
    decreases subsets.len() - s,
{
    if s < subsets.len() {
        lemma_subset_parts_members(tf, subsets, s + 1);
        let c = subset_corners(tf, subsets[s], 0);
        let head = if c.len() > 0 {
            seq![(s, c)]
        } else {
            Seq::<(int, Seq<int>)>::empty()
        };
        let rest = subset_parts(tf, subsets, s + 1);
        let all = subset_parts(tf, subsets, s);
        assert(all == head + rest);
        assert forall|k: int| 0 <= k < all.len() implies {
            let p = #[trigger] all[k];
            s <= p.0 < subsets.len() && p.1 == subset_corners(tf, subsets[p.0], 0) && p.1.len() > 0
        } by {
            if k >= head.len() {
                assert(all[k] == rest[k - head.len()]);
            }
        }
        assert forall|i: int| s <= i < subsets.len() && subset_corners(tf, subsets[i], 0).len() > 0 implies exists|k: int|
            0 <= k < all.len() && (#[trigger] all[k]).0 == i by {
            if i == s {
                assert(all[0].0 == s);
            } else {
                let k = choose|k: int| 0 <= k < rest.len() && (#[trigger] rest[k]).0 == i;
                assert(all[head.len() + k] == rest[k]);
            }
        }
    } else {
        assert(subset_parts(tf, subsets, s) =~= Seq::<(int, Seq<int>)>::empty());
    }
}

/// Whether `r` is the record of subset `i`: named `name_i`, with the
/// subset's material or else the mesh's, holding exactly the corners of the
/// triangles whose face is in the subset (three per triangle), indexed 0, 1,
/// 2, ...
pub open spec fn is_subset_record(
    r: PartModel,
    i: int,
    path: Seq<char>,
    name: Seq<char>,
    tf: Seq<i32>,
    subset_faces: Seq<Seq<i32>>,
    subset_materials: Seq<Option<Seq<char>>>,
    mesh_material: Option<Seq<char>>,
) -> bool {
    &&& 0 <= i < subset_faces.len()
    &&& r.path == path
    &&& r.name == name + seq!['_'] + decimal(i as nat)
    &&& r.material == (match subset_materials[i] {
        Some(m) => Some(m),
        None => mesh_material,
    })
    &&& r.corners is Some
    &&& r.corners.unwrap().len() > 0
    &&& forall|j: int| 0 <= j < r.corners.unwrap().len() ==> {
        let c = #[trigger] r.corners.unwrap()[j];
        0 <= c < 3 * tf.len() && subset_faces[i].contains(tf[c / 3])
    }
    &&& forall|u: int| 0 <= u < tf.len() && subset_faces[i].contains(#[trigger] tf[u]) ==> {
        let cs = r.corners.unwrap();
        cs.contains(3 * u) && cs.contains(3 * u + 1) && cs.contains(3 * u + 2)
    }
    &&& r.indices == Some(Seq::new(r.corners.unwrap().len(), |j: int| j))
}

/// Whether `r` is the record of some subset.
pub open spec fn belongs_to_subset(
    r: PartModel,
    path: Seq<char>,
    name: Seq<char>,
    tf: Seq<i32>,
    subset_faces: Seq<Seq<i32>>,
    subset_materials: Seq<Option<Seq<char>>>,
    mesh_material: Option<Seq<char>>,
) -> bool {
    exists|i: int| #[trigger] is_subset_record(r, i, path, name, tf, subset_faces, subset_materials, mesh_material)
}

/// With material subsets, each mesh record is the record of one subset (see
/// `is_subset_record`), and every subset that has a triangle has a record.
pub proof fn law_subset_records(
    path: Seq<char>,
    name: Seq<char>,
    tf: Seq<i32>,
    subset_faces: Seq<Seq<i32>>,
    subset_materials: Seq<Option<Seq<char>>>,
    mesh_material: Option<Seq<char>>,
)
    requires
        subset_faces.len() > 0,
        subset_faces.len() == subset_materials.len(),
    ensures
        ({
            let recs = mesh_records(path, name, true, Some(tf), subset_faces, subset_materials, mesh_material);
            &&& forall|k: int|
                0 <= k < recs.len() ==> #[trigger] belongs_to_subset(recs[k], path, name, tf, subset_faces, subset_materials, mesh_material)
            &&& forall|i: int, u: int|
                #![trigger subset_faces[i], tf[u]]
                0 <= i < subset_faces.len() && 0 <= u < tf.len() && subset_faces[i].contains(tf[u])
                    ==> exists|k: int| 0 <= k < recs.len() && #[trigger] recs[k].name == name + seq!['_'] + decimal(i as nat)
        }),
{
    let recs = mesh_records(path, name, true, Some(tf), subset_faces, subset_materials, mesh_material);
    let parts = subset_parts(tf, subset_faces, 0);
    lemma_subset_parts_members(tf, subset_faces, 0);
    assert(recs == subset_records(path, name, parts, subset_materials, mesh_material));
    assert forall|k: int| 0 <= k < recs.len() implies #[trigger] belongs_to_subset(
        recs[k],
        path,
        name,
        tf,
        subset_faces,
        subset_materials,
        mesh_material,
    ) by {
        let p = parts[k];
        let i = p.0;
        lemma_subset_corners_sound(tf, subset_faces[i], 0);
        assert forall|u: int| 0 <= u < tf.len() && subset_faces[i].contains(#[trigger] tf[u]) implies {
            let cs = p.1;
            cs.contains(3 * u) && cs.contains(3 * u + 1) && cs.contains(3 * u + 2)
        } by {
            lemma_subset_corners_complete(tf, subset_faces[i], 0, u);
        }
        assert(recs[k].corners == Some(p.1));
        assert(iota(p.1.len()) =~= Seq::new(p.1.len(), |j: int| j));
        assert(is_subset_record(recs[k], i, path, name, tf, subset_faces, subset_materials, mesh_material));
    }
    assert forall|i: int, u: int|
        #![trigger subset_faces[i], tf[u]]
        0 <= i < subset_faces.len() && 0 <= u < tf.len() && subset_faces[i].contains(tf[u]) implies exists|k: int|
        0 <= k < recs.len() && #[trigger] recs[k].name == name + seq!['_'] + decimal(i as nat) by {
        lemma_subset_corners_complete(tf, subset_faces[i], 0, u);
        assert(subset_corners(tf, subset_faces[i], 0).contains(3 * u));
        let k = choose|k: int| 0 <= k < parts.len() && (#[trigger] parts[k]).0 == i;
        assert(recs[k].name == name + seq!['_'] + decimal(i as nat));
    }
}

/// The mesh records of a prim at `path` named `name`: `has_points` tells
/// whether it has points; `tri_faces`, present when it has face data, gives
/// the face of each triangle of its expansion (see `plan_expansion`);
/// `subset_faces[i]` and `subset_materials[i]` are the faces and material
/// of its `i`-th material subset; `mesh_material` is its own material.
pub fn mesh_parts(
    path: &str,
    name: &str,
    has_points: bool,
    tri_faces: Option<&Vec<i32>>,
    subset_faces: &Vec<Vec<i32>>,
    subset_materials: &Vec<Option<String>>,
    mesh_material: &Option<String>,
) -> (r: Vec<MeshPart>)
    requires
        subset_faces.len() == subset_materials.len(),
        match tri_faces {
            Some(tf) => 3 * tf.len() <= u32::MAX + 1,
            None => true,
        },
    ensures
        part_models(r@) == mesh_records(
            path@,
            name@,
            has_points,
            match tri_faces {
                Some(tf) => Some(tf@),
                None => None,
            },
            subset_views(subset_faces@),
            subset_materials@.map_values(|m: Option<String>| opt_view(m)),
            opt_view(*mesh_material),
        ),
{
    let ghost mats = subset_materials@.map_values(|m: Option<String>| opt_view(m));
    let mut out: Vec<MeshPart> = Vec::new();
    if !has_points {
        assert(part_models(out@) =~= Seq::<PartModel>::empty());
        return out;
    }
    match tri_faces {
        None => {
            out.push(MeshPart {
                path: path.to_string(),
                name: name.to_string(),
                corners: None,
                indices: None,
                material: clone_opt_text(mesh_material),
            });
            assert(part_models(out@) =~= seq![
                PartModel { path: path@, name: name@, corners: None, indices: None, material: opt_view(*mesh_material) },
            ]);
            out
        },
        Some(tf) => {
            let n = 3 * tf.len();
            if subset_faces.len() == 0 {
                out.push(MeshPart {
                    path: path.to_string(),
                    name: name.to_string(),
                    corners: Some(iota_usize(n)),
                    indices: Some(iota_u32(n)),
                    material: clone_opt_text(mesh_material),
                });
                assert(part_models(out@) =~= seq![
                    PartModel {
                        path: path@,
                        name: name@,
                        corners: Some(iota(3 * tf@.len())),
                        indices: Some(iota(3 * tf@.len())),
                        material: opt_view(*mesh_material),
                    },
                ]);
                return out;
            }
            let parts = split_by_subsets(tf, subset_faces);
            let ghost pv = part_views(parts@);
            let ghost want = subset_records(path@, name@, pv, mats, opt_view(*mesh_material));
            let mut k: usize = 0;
            while k < parts.len()
                invariant
                    0 <= k <= parts.len(),
                    pv == part_views(parts@),
                    pv == subset_parts(tf@, subset_views(subset_faces@), 0),
                    subset_faces.len() == subset_materials.len(),
                    mats == subset_materials@.map_values(|m: Option<String>| opt_view(m)),
                    3 * tf.len() <= u32::MAX + 1,
                    want == subset_records(path@, name@, pv, mats, opt_view(*mesh_material)),
                    part_models(out@) == want.take(k as int),
                decreases parts.len() - k,
            {
                proof {
                    lemma_subset_parts_bound(tf@, subset_views(subset_faces@), 0, k as int);
                }
                let i = parts[k].0;
                let cs = &parts[k].1;
                assert(pv[k as int].0 == i as int);
                let mut nm = name.to_string();
                push_char(&mut nm, '_');
                push_decimal(&mut nm, i as u64);
                let material = match &subset_materials[i] {
                    Some(m) => Some(m.clone()),
                    None => clone_opt_text(mesh_material),
                };
                let corners = cs.clone();
                assert(corners@ == cs@);
                let indices = iota_u32(cs.len());
                let part = MeshPart { path: path.to_string(), name: nm, corners: Some(corners), indices: Some(indices), material };
                proof {
                    let w = want[k as int];
                    let pk = pv[k as int];
                    assert(w.name == name@ + seq!['_'] + decimal(i as nat));
                    assert(part.name@ == w.name);
                    assert(pk.1 == cs@.map_values(|x: usize| x as int));
                    assert(part_model(part).corners == w.corners);
                    assert(part_model(part).indices == w.indices);
                    assert(mats[i as int] == opt_view(subset_materials@[i as int]));
                    assert(part_model(part).material == w.material);
                    assert(part_model(part).path == w.path);
                }
                assert(part_model(part) == want[k as int]);
                let ghost before = out@;
                out.push(part);
                assert(out@ =~= before.push(part));
                assert(part_models(out@) =~= part_models(before).push(part_model(part)));
                assert(want.take(k + 1) =~= want.take(k as int).push(want[k as int]));
                k += 1;
            }
            assert(want.take(k as int) =~= want);
            out
        },
    }
}

// ---------------------------------------------------------------------------
// Laws
// ---------------------------------------------------------------------------

proof fn lemma_fan_counts(o: int, k: int, c: int, i: int)
    ensures
        fan_fvs(o, c, i).len() == 3 * fan_faces(k, c, i).len(),
        i <= c - 1 ==> fan_faces(k, c, i).len() == c - 1 - i,
    decreases c - 1 - i,
{
    if i < c - 1 {
        lemma_fan_counts(o, k, c, i + 1);
    }
}

/// Fan triangulation gives three corners per triangle, and a face with
/// `c >= 3` vertices gives `c - 2` triangles.
pub proof fn law_three_corners_per_triangle(counts: Seq<i32>, k: int, o: int)
    requires
        0 <= k,
    ensures
        triangle_fvs(counts, k, o).len() == 3 * triangle_faces(counts, k).len(),
    decreases counts.len() - k,
{
    if k < counts.len() {
        let c = counts[k] as int;
        lemma_fan_counts(o, k, c, 1);
        law_three_corners_per_triangle(counts, k + 1, o + c);
    }
}

/// Each triangle of a face's fan starts at the face's first face-vertex.
pub proof fn law_fan_shares_first_vertex(o: int, c: int, i: int, t: int)
    requires
        0 <= t,
        3 * t < fan_fvs(o, c, i).len(),
    ensures
        fan_fvs(o, c, i)[3 * t] == o,
    decreases c - 1 - i,
{
    if i < c - 1 && t > 0 {
        lemma_fan_counts(o, 0, c, i + 1);
        law_fan_shares_first_vertex(o, c, i + 1, t - 1);
        let t3: Seq<int> = seq![o, o + i, o + i + 1];
        assert(fan_fvs(o, c, i)[3 * t] == fan_fvs(o, c, i + 1)[3 * (t - 1)]);
    }
}

} // verus!
