//! The glyph atlas of a font: where each rasterized glyph is stored in the
//! atlas texture, and the texels it is stored as. Rasterizing glyphs and
//! laying out text are left to the caller.
use vstd::prelude::*;
use crate::misc::{Color32, Rectangle};
use crate::packing::{new_packer, pack, packer_config, packer_free, packer_pack, spec_placed_ok, spec_nonempty,
    spec_disjoint, spec_in_rect, spec_box_in, lemma_place, lemma_append_empty};

verus! {

/// Width and height of a font's glyph atlas, in texels.
pub const FONT_ATLAS_SIZE: i32 = 1024;

/// The regions of a glyph atlas, handed out as glyphs are rasterized.
pub struct GlyphAtlas {
    packer: rect_packer::Packer,
    /// The non-empty regions handed out so far, in order.
    placed: Ghost<Seq<Rectangle>>,
}

impl GlyphAtlas {
    #[verifier::type_invariant]
    spec fn well_placed(&self) -> bool {
        &&& packer_config(self.packer) == (FONT_ATLAS_SIZE, FONT_ATLAS_SIZE, 0i32, 0i32)
        &&& spec_placed_ok(self.placed@, packer_free(self.packer))
        &&& forall|i: int| 0 <= i < self.placed@.len() ==> spec_nonempty(#[trigger] self.placed@[i])
    }

    /// The non-empty regions handed out so far, in order.
    pub closed spec fn spec_placed(&self) -> Seq<Rectangle> {
        self.placed@
    }

    /// The cells of the atlas not yet taken: the packer's free cells.
    pub closed spec fn spec_free(&self) -> Set<(int, int)> {
        packer_free(self.packer)
    }

    /// Whether the packer finds a region of `width` by `height` texels.
    pub closed spec fn spec_fits(&self, width: i32, height: i32) -> bool {
        packer_pack(self.packer, width, height) is Some
    }

    /// An empty atlas: no region handed out, every texel free.
    pub fn new() -> (r: GlyphAtlas)
        ensures
            r.spec_placed() == Seq::<Rectangle>::empty(),
            forall|cx: int, cy: int| #[trigger] r.spec_free().contains((cx, cy)) <==>
                spec_in_rect(0, 0, FONT_ATLAS_SIZE as int, FONT_ATLAS_SIZE as int, cx, cy),
    {
        GlyphAtlas { packer: new_packer(FONT_ATLAS_SIZE, FONT_ATLAS_SIZE), placed: Ghost(Seq::empty()) }
    }

    /// The atlas region for a glyph bitmap of `width` by `height` texels: the
    /// empty rectangle at the origin for an empty bitmap (nothing is stored),
    /// else the region the packer finds, of exactly that size, inside the
    /// atlas and overlapping no region handed out before; `None` exactly
    /// when the packer finds none, which happens only when no block of that
    /// size is free (or one side is zero). Where the packer puts a region is
    /// its own choice (`spec_fits` names it), and is not described here.
    pub fn place_glyph(&mut self, width: usize, height: usize) -> (r: Option<Rectangle>)
        requires
            width <= 65536,
            height <= 65536,
        ensures
            width == 0 && height == 0 ==> r == Some(Rectangle { x: 0, y: 0, w: 0, h: 0 }),
            width == 0 && height == 0 ==> final(self).spec_placed() == old(self).spec_placed(),
            !(width == 0 && height == 0) ==> (r is None <==> !old(self).spec_fits(width as i32, height as i32)),
            !(width == 0 && height == 0) ==> (r matches Some(rc) ==> {
                &&& rc.w == width && rc.h == height
                &&& 0 <= rc.x && rc.x + rc.w <= FONT_ATLAS_SIZE
                &&& 0 <= rc.y && rc.y + rc.h <= FONT_ATLAS_SIZE
                &&& forall|i: int| 0 <= i < old(self).spec_placed().len() ==>
                    spec_disjoint(#[trigger] old(self).spec_placed()[i], rc)
                &&& final(self).spec_placed() == old(self).spec_placed().push(rc)
            }),
            r is None ==> final(self).spec_placed() == old(self).spec_placed(),
            !(width == 0 && height == 0) && (width == 0 || height == 0) ==> r is None,
            (width > 0 && height > 0 && r is None) ==> !exists|x: int, y: int|
                spec_box_in(old(self).spec_free(), x, y, width as int, height as int),
    {
        if width == 0 && height == 0 {
            return Some(Rectangle { x: 0, y: 0, w: 0, h: 0 });
        }
        proof { use_type_invariant(&*self); }
        let ghost placed0 = self.placed@;
        self.placed = Ghost(Seq::empty());
        let mut packer = new_packer(FONT_ATLAS_SIZE, FONT_ATLAS_SIZE);
        std::mem::swap(&mut packer, &mut self.packer);
        let ghost before = packer;
        let r = pack(&mut packer, width as i32, height as i32);
        let ghost placed1 = match r {
            Some(rc) => placed0.push(rc),
            None => placed0,
        };
        proof {
            match r {
                Some(rc) => {
                    let s0 = placed0.push(Rectangle { x: 0, y: 0, w: 0, h: 0 });
                    assert(spec_placed_ok(s0, packer_free(before))) by {
                        lemma_append_empty(placed0, seq![Rectangle { x: 0, y: 0, w: 0, h: 0 }], packer_free(before));
                        assert(placed0 + seq![Rectangle { x: 0, y: 0, w: 0, h: 0 }] =~= s0);
                    }
                    lemma_place(s0, placed0.len() as int, rc, packer_free(before), packer_free(packer));
                    assert(s0.update(placed0.len() as int, rc) =~= placed1);
                    assert forall|i: int| 0 <= i < placed0.len() implies spec_disjoint(#[trigger] placed0[i], rc) by {
                        assert(placed1[i] == placed0[i]);
                        assert(placed1[placed0.len() as int] == rc);
                    }
                },
                None => {},
            }
        }
        *self = GlyphAtlas { packer, placed: Ghost(placed1) };
        r
    }
}

/// The atlas texels of a glyph's coverage bitmap: white, with the coverage
/// as alpha.
pub fn coverage_texels(bitmap: &Vec<u8>) -> (r: Vec<Color32>)
    ensures
        r@.len() == bitmap@.len(),
        forall|i: int| 0 <= i < r@.len() ==> #[trigger] r@[i] == (Color32 { r: 255, g: 255, b: 255, a: bitmap@[i] }),
{
    let mut r: Vec<Color32> = Vec::new();
    let mut i: usize = 0;
    while i < bitmap.len()
        invariant
            i <= bitmap@.len(),
            r@.len() == i,
            forall|j: int| 0 <= j < i ==> #[trigger] r@[j] == (Color32 { r: 255, g: 255, b: 255, a: bitmap@[j] }),
        decreases bitmap@.len() - i,
    {
        r.push(Color32::new(255, 255, 255, bitmap[i]));
        i = i + 1;
    }
    r
}

} // verus!
