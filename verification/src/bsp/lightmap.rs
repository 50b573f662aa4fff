//! Laying out the lightmaps of the map's faces in one atlas texture.
//!
//! Each lightmapped face has up to four lightmaps (one per light style) of
//! the same size; each gets its own region of the atlas, found by a
//! rectangle packer. The size of a face's lightmaps comes from its texture
//! extents, which the caller measures.
use vstd::prelude::*;
use crate::bsp::bspfile::{BspFile, BspFace, SURF_NOLM};
use crate::misc::Rectangle;
use crate::packing::{new_packer, pack, packer_config, packer_free, packer_new, packer_pack, packer_after,
    spec_all_disjoint, spec_placed_ok, spec_nonempty, lemma_place, lemma_append_empty};

verus! {

/// Width and height of the lightmap atlas, in texels.
pub const LM_SIZE: i32 = 1024;

/// The largest width or height of one face lightmap, in texels.
pub const LM_MAX_FACE_SIZE: usize = 16;

/// A measured lightmap size clamped to 1 ..= `LM_MAX_FACE_SIZE`.
pub open spec fn spec_lm_dim(v: usize) -> int {
    if v < 1 { 1 } else if v > LM_MAX_FACE_SIZE { LM_MAX_FACE_SIZE as int } else { v as int }
}

/// Whether face `f` has lightmaps: its texture does not forbid them and it
/// names at least one light style.
pub open spec fn spec_face_lightmapped(bsp: BspFile, f: int) -> bool {
    let face = bsp.face_lump.faces@[f];
    &&& bsp.tex_info_lump.textures@[face.texture_info as int].flags & SURF_NOLM == 0
    &&& face.num_lightmaps > 0
}

/// The empty rectangle, given to lightmaps that do not exist.
pub open spec fn spec_no_rect() -> Rectangle {
    Rectangle { x: 0, y: 0, w: 0, h: 0 }
}

/// Why the lightmaps could not be laid out.
#[derive(Debug, Clone, Copy, PartialEq, Eq, Structural)]
pub enum LightmapError {
    /// The atlas has no room left for a lightmap.
    AtlasFull,
}

/// Every face names an existing texture and at most four light styles, and
/// every face has a measured lightmap size.
pub open spec fn spec_layout_inputs_ok(bsp: BspFile, sizes: Seq<(usize, usize)>) -> bool {
    &&& sizes.len() == bsp.face_lump.faces@.len()
    &&& forall|f: int| 0 <= f < bsp.face_lump.faces@.len() ==> {
        let face = #[trigger] bsp.face_lump.faces@[f];
        &&& (face.texture_info as int) < bsp.tex_info_lump.textures@.len()
        &&& face.num_lightmaps <= 4
    }
}

/// The atlas regions of face `f`'s lightmaps, given its measured size: the
/// first `num_lightmaps` have the clamped size and lie inside the atlas; the
/// rest, and all four of a face without lightmaps, are empty.
pub open spec fn spec_face_regions_ok(bsp: BspFile, f: int, size: (usize, usize), rects: [Rectangle; 4]) -> bool {
    let face = bsp.face_lump.faces@[f];
    forall|i: int| 0 <= i < 4 ==> {
        let rc = #[trigger] rects@[i];
        if spec_face_lightmapped(bsp, f) && i < face.num_lightmaps {
            &&& rc.w == spec_lm_dim(size.0)
            &&& rc.h == spec_lm_dim(size.1)
            &&& 0 <= rc.x && rc.x + rc.w <= LM_SIZE
            &&& 0 <= rc.y && rc.y + rc.h <= LM_SIZE
        } else {
            rc == spec_no_rect()
        }
    }
}

/// The rectangles of a list of per-face lightmap regions, face after face.
pub open spec fn spec_flatten(v: Seq<[Rectangle; 4]>) -> Seq<Rectangle>
    decreases v.len(),
{
    if v.len() == 0 {
        Seq::empty()
    } else {
        spec_flatten(v.drop_last()) + v.last()@
    }
}

/// The packer left after packing `n` rectangles of `w` by `h` one after
/// the other, starting from `p`; `None` when one of them finds no room.
pub open spec fn spec_pack_repeat(p: rect_packer::Packer, n: int, w: i32, h: i32) -> Option<rect_packer::Packer>
    decreases n,
{
    if n <= 0 {
        Some(p)
    } else if packer_pack(p, w, h) is None {
        None
    } else {
        spec_pack_repeat(packer_after(p, w, h), n - 1, w, h)
    }
}

/// The atlas packer after laying out the lightmaps of the first `k` faces,
/// or `None` when the atlas ran out of room on the way.
pub open spec fn spec_layout_state(bsp: BspFile, sizes: Seq<(usize, usize)>, k: int) -> Option<rect_packer::Packer>
    decreases k,
{
    if k <= 0 {
        Some(packer_new(LM_SIZE, LM_SIZE))
    } else {
        match spec_layout_state(bsp, sizes, k - 1) {
            None => None,
            Some(p) => if !spec_face_lightmapped(bsp, k - 1) {
                Some(p)
            } else {
                spec_pack_repeat(p, bsp.face_lump.faces@[k - 1].num_lightmaps as int,
                    spec_lm_dim(sizes[k - 1].0) as i32, spec_lm_dim(sizes[k - 1].1) as i32)
            },
        }
    }
}

/// Whether every lightmap of the map finds room in the atlas, packed face
/// after face.
pub open spec fn spec_layout_fits(bsp: BspFile, sizes: Seq<(usize, usize)>) -> bool {
    spec_layout_state(bsp, sizes, bsp.face_lump.faces@.len() as int) is Some
}

/// Once the atlas ran out of room it stays out of room.
proof fn lemma_layout_stays_full(bsp: BspFile, sizes: Seq<(usize, usize)>, k: int, m: int)
    requires
        0 <= k <= m,
        spec_layout_state(bsp, sizes, k) is None,
    ensures
        spec_layout_state(bsp, sizes, m) is None,
    decreases m - k,
{
    if k < m {
        lemma_layout_stays_full(bsp, sizes, k, m - 1);
    }
}

/// The atlas regions of the lightmaps of every face, in face order;
/// `sizes` holds the measured lightmap size of each face. It succeeds
/// exactly when every lightmap finds room, and the regions of different
/// lightmaps never overlap.
pub fn layout_lightmaps(bsp: &BspFile, sizes: &Vec<(usize, usize)>) -> (r: Result<Vec<[Rectangle; 4]>, LightmapError>)
    requires
        spec_layout_inputs_ok(*bsp, sizes@),
    ensures
        r is Ok <==> spec_layout_fits(*bsp, sizes@),
        r matches Ok(v) ==> v@.len() == bsp.face_lump.faces@.len() && forall|f: int| 0 <= f < v@.len() ==>
            spec_face_regions_ok(*bsp, f, sizes@[f], #[trigger] v@[f]),
        r matches Ok(v) ==> spec_all_disjoint(spec_flatten(v@)),
        r is Err ==> exists|f: int| 0 <= f < bsp.face_lump.faces@.len() && #[trigger] spec_face_lightmapped(*bsp, f),
{
    let mut packer = new_packer(LM_SIZE, LM_SIZE);
    let mut results: Vec<[Rectangle; 4]> = Vec::new();
    let mut f: usize = 0;
    assert(spec_flatten(results@) =~= Seq::<Rectangle>::empty());
    while f < bsp.face_lump.faces.len()
        invariant
            spec_layout_inputs_ok(*bsp, sizes@),
            packer_config(packer) == (LM_SIZE, LM_SIZE, 0i32, 0i32),
            f <= bsp.face_lump.faces@.len(),
            results@.len() == f,
            forall|g: int| 0 <= g < f ==> spec_face_regions_ok(*bsp, g, sizes@[g], #[trigger] results@[g]),
            spec_layout_state(*bsp, sizes@, f as int) == Some(packer),
            spec_placed_ok(spec_flatten(results@), packer_free(packer)),
        decreases bsp.face_lump.faces@.len() - f,
    {
        let face = &bsp.face_lump.faces[f];
        proof {
            let _ = bsp.face_lump.faces@[f as int];
        }
        let tex_info = &bsp.tex_info_lump.textures[face.texture_info as usize];
        let empty = Rectangle { x: 0, y: 0, w: 0, h: 0 };
        let mut lm_rects: [Rectangle; 4] = [empty, empty, empty, empty];
        let ghost flat0 = spec_flatten(results@);
        let ghost r0 = results@;
        proof {
            assert forall|j: int| 0 <= j < lm_rects@.len() implies !spec_nonempty(#[trigger] lm_rects@[j]) by {}
            lemma_append_empty(flat0, lm_rects@, packer_free(packer));
        }
        if tex_info.flags & SURF_NOLM != 0 || face.num_lightmaps == 0 {
            results.push(lm_rects);
            proof {
                assert(spec_face_regions_ok(*bsp, f as int, sizes@[f as int], lm_rects));
                assert(results@.drop_last() =~= r0);
                assert(spec_flatten(results@) == flat0 + lm_rects@);
            }
            f = f + 1;
            continue;
        }
        let (raw_x, raw_y) = sizes[f];
        let sx: i32 = if raw_x < 1 { 1 } else if raw_x > LM_MAX_FACE_SIZE { LM_MAX_FACE_SIZE as i32 } else { raw_x as i32 };
        let sy: i32 = if raw_y < 1 { 1 } else if raw_y > LM_MAX_FACE_SIZE { LM_MAX_FACE_SIZE as i32 } else { raw_y as i32 };
        let n = face.num_lightmaps;
        let ghost p0 = packer;
        let mut i: usize = 0;
        while i < n
            invariant
                packer_config(packer) == (LM_SIZE, LM_SIZE, 0i32, 0i32),
                n <= 4,
                i <= n,
                sx == spec_lm_dim(raw_x),
                sy == spec_lm_dim(raw_y),
                forall|j: int| 0 <= j < 4 ==> {
                    let rc = #[trigger] lm_rects@[j];
                    if j < i {
                        &&& rc.w == sx && rc.h == sy
                        &&& 0 <= rc.x && rc.x + rc.w <= LM_SIZE
                        &&& 0 <= rc.y && rc.y + rc.h <= LM_SIZE
                    } else {
                        rc == spec_no_rect()
                    }
                },
                f < bsp.face_lump.faces@.len(),
                spec_face_lightmapped(*bsp, f as int),
                spec_pack_repeat(p0, n as int, sx, sy) == spec_pack_repeat(packer, n - i, sx, sy),
                spec_layout_state(*bsp, sizes@, f as int) == Some(p0),
                n == bsp.face_lump.faces@[f as int].num_lightmaps,
                sizes@[f as int] == (raw_x, raw_y),
                spec_placed_ok(flat0 + lm_rects@, packer_free(packer)),
            decreases n - i,
        {
            let ghost before = packer;
            let ghost s0 = flat0 + lm_rects@;
            match pack(&mut packer, sx, sy) {
                Some(rect) => {
                    lm_rects[i] = rect;
                    proof {
                        assert(s0[flat0.len() + i] == spec_no_rect());
                        lemma_place(s0, flat0.len() + i, rect, packer_free(before), packer_free(packer));
                        assert(s0.update(flat0.len() + i, rect) =~= flat0 + lm_rects@);
                    }
                },
                None => {
                    proof {
                        assert(spec_pack_repeat(before, n - i, sx, sy) is None);
                        assert(spec_layout_state(*bsp, sizes@, f + 1) is None);
                        lemma_layout_stays_full(*bsp, sizes@, f + 1, bsp.face_lump.faces@.len() as int);
                    }
                    return Err(LightmapError::AtlasFull);
                },
            }
            i = i + 1;
        }
        results.push(lm_rects);
        proof {
            assert(spec_face_regions_ok(*bsp, f as int, sizes@[f as int], lm_rects));
            assert(results@.drop_last() =~= r0);
            assert(spec_flatten(results@) == flat0 + lm_rects@);
            assert(spec_layout_state(*bsp, sizes@, f + 1) == Some(packer));
        }
        f = f + 1;
    }
    Ok(results)
}

/// Where lightmap `i` of `face`, of `slice_len` texels, starts and ends in
/// the lightmap lump (whose offsets count 3 bytes per texel).
pub fn lightmap_slice(face: &BspFace, i: usize, slice_len: usize) -> (r: (usize, usize))
    requires
        face.lightmap_offset / 3 + i * slice_len + slice_len <= usize::MAX,
    ensures
        r.0 == face.lightmap_offset / 3 + i * slice_len,
        r.1 == r.0 + slice_len,
{
    assert(i * slice_len <= face.lightmap_offset / 3 + i * slice_len + slice_len) by (nonlinear_arith)
        requires i >= 0, slice_len >= 0;
    let start = (face.lightmap_offset / 3) as usize + i * slice_len;
    (start, start + slice_len)
}

/// A measured lightmap size is clamped to 1 ..= 16: sizes inside that range
/// are kept, smaller ones become 1 and larger ones 16, and a larger measure
/// never gives a smaller size.
pub proof fn law_lm_dim_clamps(v: usize, w: usize)
    ensures
        1 <= spec_lm_dim(v) <= 16,
        1 <= v <= 16 ==> spec_lm_dim(v) == v,
        v == 0 ==> spec_lm_dim(v) == 1,
        v > 16 ==> spec_lm_dim(v) == 16,
        v <= w ==> spec_lm_dim(v) <= spec_lm_dim(w),
{
}

} // verus!
