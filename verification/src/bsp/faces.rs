//! The integer side of turning map faces into triangles: which faces are
//! drawn and with what tint, the ordered outline of a face, and the
//! triangle fan over it. Texture coordinates are computed by the caller.
use vstd::prelude::*;
use crate::bsp::bspfile::{BspFace, BspFile, Edge, SURF_NODRAW, SURF_SKY, SURF_TRANS33, SURF_TRANS66};
use crate::misc::Color32;

verus! {

/// The vertex color of a face with surface flags `flags`, or `None` when the
/// face is not drawn (no-draw and sky surfaces). Translucent surfaces get an
/// alpha of 85 (33%) or 170 (66%); the 33% flag wins when both are set.
pub open spec fn spec_face_tint(flags: u32) -> Option<Color32> {
    if flags & SURF_NODRAW != 0 || flags & SURF_SKY != 0 {
        None
    } else if flags & SURF_TRANS33 != 0 {
        Some(Color32 { r: 255, g: 255, b: 255, a: 85 })
    } else if flags & SURF_TRANS66 != 0 {
        Some(Color32 { r: 255, g: 255, b: 255, a: 170 })
    } else {
        Some(Color32 { r: 255, g: 255, b: 255, a: 255 })
    }
}

/// The vertex color of a face with surface flags `flags`, or `None` when the
/// face is not drawn.
pub fn face_tint(flags: u32) -> (r: Option<Color32>)
    ensures
        r == spec_face_tint(flags),
{
    if flags & SURF_NODRAW != 0 || flags & SURF_SKY != 0 {
        return None;
    }
    let mut col = Color32::new(255, 255, 255, 255);
    if flags & SURF_TRANS33 != 0 {
        col.a = 85;
    } else if flags & SURF_TRANS66 != 0 {
        col.a = 170;
    }
    Some(col)
}

/// Whether face `f` of the map and everything its outline refers to exist:
/// its run of face edges lies in the face-edge lump, and each face edge
/// names an edge of the edge lump (a negative index names the edge at its
/// absolute value, walked backwards).
pub open spec fn spec_face_refs_ok(bsp: BspFile, f: int) -> bool {
    let faces = bsp.face_lump.faces@;
    let fe = bsp.face_edge_lump.edges@;
    let edges = bsp.edge_lump.edges@;
    &&& 0 <= f < faces.len()
    &&& faces[f].first_edge + faces[f].num_edges <= fe.len()
    &&& forall|k: int| faces[f].first_edge <= k < faces[f].first_edge + faces[f].num_edges ==> {
        let e = #[trigger] fe[k];
        &&& e != i32::MIN
        &&& (if e < 0 { -e } else { e as int }) < edges.len()
    }
}

/// The `k`-th edge of the outline of face `f`, oriented the way the face
/// walks it.
pub open spec fn spec_outline_edge(bsp: BspFile, f: int, k: int) -> Edge {
    let e = bsp.face_edge_lump.edges@[bsp.face_lump.faces@[f].first_edge + k];
    let edge = bsp.edge_lump.edges@[if e < 0 { -e } else { e as int }];
    if e < 0 {
        Edge { a: edge.b, b: edge.a }
    } else {
        edge
    }
}

/// The outline of face `f`: its edges, in order and oriented.
pub open spec fn spec_face_outline(bsp: BspFile, f: int) -> Seq<Edge> {
    Seq::new(bsp.face_lump.faces@[f].num_edges as nat, |k: int| spec_outline_edge(bsp, f, k))
}

/// Whether face `face_idx` and everything its outline refers to exist.
pub fn face_refs_ok(bsp: &BspFile, face_idx: usize) -> (r: bool)
    ensures
        r == spec_face_refs_ok(*bsp, face_idx as int),
{
    if face_idx >= bsp.face_lump.faces.len() {
        return false;
    }
    let face = &bsp.face_lump.faces[face_idx];
    let start = face.first_edge as usize;
    let n = face.num_edges as usize;
    if start > bsp.face_edge_lump.edges.len() || n > bsp.face_edge_lump.edges.len() - start {
        return false;
    }
    let mut k: usize = start;
    while k < start + n
        invariant
            face_idx < bsp.face_lump.faces@.len(),
            start == bsp.face_lump.faces@[face_idx as int].first_edge,
            n == bsp.face_lump.faces@[face_idx as int].num_edges,
            start + n <= bsp.face_edge_lump.edges.len(),
            start <= k <= start + n,
            forall|j: int| start <= j < k ==> {
                let e = #[trigger] bsp.face_edge_lump.edges@[j];
                &&& e != i32::MIN
                &&& (if e < 0 { -e } else { e as int }) < bsp.edge_lump.edges@.len()
            },
        decreases start + n - k,
    {
        let e = bsp.face_edge_lump.edges[k];
        if e == i32::MIN {
            return false;
        }
        let a: usize = if e < 0 { (-e) as usize } else { e as usize };
        if a >= bsp.edge_lump.edges.len() {
            return false;
        }
        k = k + 1;
    }
    true
}

/// The outline of face `face_idx`: its edges in order, each turned around
/// when the face walks it backwards.
pub fn face_outline(bsp: &BspFile, face_idx: usize) -> (r: Vec<Edge>)
    requires
        spec_face_refs_ok(*bsp, face_idx as int),
    ensures
        r@ == spec_face_outline(*bsp, face_idx as int),
{
    let face = &bsp.face_lump.faces[face_idx];
    let start = face.first_edge as usize;
    let n = face.num_edges as usize;
    let mut out: Vec<Edge> = Vec::new();
    let mut k: usize = 0;
    while k < n
        invariant
            spec_face_refs_ok(*bsp, face_idx as int),
            start == bsp.face_lump.faces@[face_idx as int].first_edge,
            n == bsp.face_lump.faces@[face_idx as int].num_edges,
            start + n <= bsp.face_edge_lump.edges.len(),
            k <= n,
            out@ == spec_face_outline(*bsp, face_idx as int).take(k as int),
        decreases n - k,
    {
        let e = bsp.face_edge_lump.edges[start + k];
        let edge = if e < 0 {
            let ed = bsp.edge_lump.edges[(-e) as usize];
            Edge { a: ed.b, b: ed.a }
        } else {
            bsp.edge_lump.edges[e as usize]
        };
        out.push(edge);
        proof {
            assert(edge == spec_outline_edge(*bsp, face_idx as int, k as int));
            assert(out@ =~= spec_face_outline(*bsp, face_idx as int).take(k + 1));
        }
        k = k + 1;
    }
    assert(out@ =~= spec_face_outline(*bsp, face_idx as int));
    out
}

/// The index list of the triangle fan over a polygon of `n` vertices stored
/// from position `first`: triangles (first, first + i, first + i + 1) for
/// i from 1 to n - 2, each index cut to 16 bits.
pub open spec fn spec_fan_indices(first: int, n: int) -> Seq<u16> {
    Seq::new(if n >= 2 { (3 * (n - 2)) as nat } else { 0 }, |j: int|
        if j % 3 == 0 {
            first as u16
        } else if j % 3 == 1 {
            (first + j / 3 + 1) as u16
        } else {
            (first + j / 3 + 2) as u16
        })
}

/// Appends to `index` the triangle fan over a polygon of `n` (at least one)
/// vertices stored from position `first`.
pub fn push_fan_indices(index: &mut Vec<u16>, first: usize, n: usize)
    requires
        n >= 1,
        first + n <= usize::MAX,
    ensures
        final(index)@ == old(index)@ + spec_fan_indices(first as int, n as int),
{
    let ghost base = index@;
    let mut i: usize = 1;
    while i < n - 1
        invariant
            n >= 1,
            first + n <= usize::MAX,
            1 <= i <= if n >= 2 { n - 1 } else { 1 },
            index@ == base + spec_fan_indices(first as int, i as int + 1).take(3 * (i - 1)),
        decreases n - i,
    {
        index.push(first as u16);
        index.push((first + i) as u16);
        index.push((first + i + 1) as u16);
        proof {
            let s = spec_fan_indices(first as int, i as int + 2);
            let t = spec_fan_indices(first as int, i as int + 1);
            assert(s.take(3 * (i - 1)) =~= t.take(3 * (i - 1)));
            let j0 = 3 * (i - 1);
            assert(j0 % 3 == 0 && (j0 + 1) % 3 == 1 && (j0 + 2) % 3 == 2);
            assert((j0 + 1) / 3 == i - 1 && (j0 + 2) / 3 == i - 1);
            assert(index@ =~= base + s.take(3 * i));
        }
        i = i + 1;
    }
    proof {
        let s = spec_fan_indices(first as int, n as int);
        if n >= 2 {
            assert(i == n - 1);
            assert(s.take(3 * (i - 1)) =~= s);
        } else {
            assert(s =~= Seq::<u16>::empty());
            assert(spec_fan_indices(first as int, 2).take(0) =~= Seq::<u16>::empty());
        }
    }
}

/// Whether the lightmapped vertices of a brush model face must be rebuilt as
/// light styles animate: not when its only light style is style 0, which
/// never changes.
pub fn face_lightmap_animated(face: &BspFace) -> (r: bool)
    ensures
        r == !(face.lightmap_styles@[0] == 0 && face.num_lightmaps == 1),
{
    !(face.lightmap_styles[0] == 0 && face.num_lightmaps == 1)
}

/// A triangle fan over `n` (at least 2) vertices has `n - 2` triangles, and
/// one more vertex adds exactly one triangle at the end: the fan's first
/// vertex with the last two vertices, `(first, first + n - 1, first + n)`.
pub proof fn law_fan_grows_by_one_triangle(first: int, n: int)
    requires
        n >= 2,
    ensures
        spec_fan_indices(first, n).len() == 3 * (n - 2),
        spec_fan_indices(first, n + 1)
            == spec_fan_indices(first, n) + seq![first as u16, (first + n - 1) as u16, (first + n) as u16],
{
    let a = spec_fan_indices(first, n);
    let b = spec_fan_indices(first, n + 1);
    let c = a + seq![first as u16, (first + n - 1) as u16, (first + n) as u16];
    let j0 = 3 * (n - 2);
    assert(j0 % 3 == 0 && (j0 + 1) % 3 == 1 && (j0 + 2) % 3 == 2);
    assert(j0 / 3 == n - 2 && (j0 + 1) / 3 == n - 2 && (j0 + 2) / 3 == n - 2);
    assert forall|j: int| 0 <= j < b.len() implies b[j] == c[j] by {
        if j < j0 {
            assert(c[j] == a[j]);
        }
    }
    assert(b =~= c);
}

/// Faces are tinted white; a face is not drawn when it has the no-draw
/// (0x80) or sky (0x4) flag, and otherwise its alpha is a third of full
/// (`255 / 3`) with the 33% flag (0x10), two thirds with the 66% flag (0x20)
/// alone, and full without either: more translucency, lower alpha.
pub proof fn law_face_tint_translucency(flags: u32)
    ensures
        spec_face_tint(flags) is None <==> (flags & 0x80 != 0 || flags & 0x4 != 0),
        spec_face_tint(flags) matches Some(c) ==> c.r == 255 && c.g == 255 && c.b == 255,
        spec_face_tint(flags) matches Some(c) ==> c.a as int == (if flags & 0x10 != 0 {
            255int / 3
        } else if flags & 0x20 != 0 {
            2 * 255int / 3
        } else {
            255int
        }),
{
}

} // verus!
