//! Placing rectangles in a texture atlas, backed by `rect_packer`.
//!
//! The packer keeps a skyline: for each column of the area, the first row
//! (rows count from 0) that is not yet taken. The cells of a column from that
//! row to the bottom of the area are free.
use vstd::prelude::*;
use crate::misc::Rectangle;

verus! {

/// `rect_packer::Packer`, which places rectangles in an atlas.
#[verifier::external_type_specification]
#[verifier::external_body]
pub struct ExPacker(rect_packer::Packer);

/// The configuration a packer was made with: width, height, border padding
/// and padding between rectangles (`Packer::config`).
pub uninterp spec fn packer_config(p: rect_packer::Packer) -> (i32, i32, i32, i32);

/// The free cells `(x, y)` of a packer: those of its area whose row `y` is at
/// or past the skyline of their column `x`. They are a function of the
/// skyline and the area, which the packer holds.
pub uninterp spec fn packer_free(p: rect_packer::Packer) -> Set<(int, int)>;

/// The packer that `Packer::new` makes for a `width` by `height` area
/// without padding.
pub uninterp spec fn packer_new(width: i32, height: i32) -> rect_packer::Packer;

/// What `Packer::pack(width, height, false)` returns on packer `p`: the
/// region `(x, y, width, height)` it gives, or `None`.
pub uninterp spec fn packer_pack(p: rect_packer::Packer, width: i32, height: i32) -> Option<(i32, i32, i32, i32)>;

/// The packer that `Packer::pack(width, height, false)` leaves from `p`.
pub uninterp spec fn packer_after(p: rect_packer::Packer, width: i32, height: i32) -> rect_packer::Packer;

/// The cells of the rectangle at `(x, y)` of size `w` by `h`.
pub open spec fn spec_in_rect(x: int, y: int, w: int, h: int, cx: int, cy: int) -> bool {
    x <= cx < x + w && y <= cy < y + h
}

/// Every cell of the `w` by `h` rectangle at `(x, y)` is in `cells`.
pub open spec fn spec_box_in(cells: Set<(int, int)>, x: int, y: int, w: int, h: int) -> bool {
    forall|cx: int, cy: int| spec_in_rect(x, y, w, h, cx, cy) ==> #[trigger] cells.contains((cx, cy))
}

/// No cell of rectangle `rc` is in `cells`.
pub open spec fn spec_avoids(cells: Set<(int, int)>, rc: Rectangle) -> bool {
    forall|cx: int, cy: int| spec_in_rect(rc.x as int, rc.y as int, rc.w as int, rc.h as int, cx, cy)
        ==> !#[trigger] cells.contains((cx, cy))
}

/// The region as a tuple.
pub open spec fn spec_region(r: Option<Rectangle>) -> Option<(i32, i32, i32, i32)> {
    match r {
        Some(rc) => Some((rc.x, rc.y, rc.w, rc.h)),
        None => None,
    }
}

/// `rect_packer::Packer::new` with no padding: a packer for a `width` by
/// `height` area.
/// Trusted, as its source shows: the packer keeps the configuration it was
/// given, its skyline lies at the bottom of the whole area (negative sizes
/// count as 0), so every cell of the area is free; it is a function of the
/// sizes alone.
#[verifier::external_body]
pub(crate) fn new_packer(width: i32, height: i32) -> (r: rect_packer::Packer)
    ensures
        r == packer_new(width, height),
        packer_config(r) == (width, height, 0i32, 0i32),
        forall|cx: int, cy: int| #[trigger] packer_free(r).contains((cx, cy)) <==>
            spec_in_rect(0, 0, if width < 0 { 0 } else { width as int }, if height < 0 { 0 } else { height as int }, cx, cy),
{
    rect_packer::Packer::new(rect_packer::Config { width, height, border_padding: 0, rectangle_padding: 0 })
}

/// `rect_packer::Packer::pack(width, height, false)`: a free region of the
/// packer's area for a `width` by `height` rectangle, or `None`.
/// Trusted, as its source shows for a packer without padding:
/// - the result and the packer left are functions of the packer and the
///   sizes (named `packer_pack` and `packer_after`); the configuration is
///   kept;
/// - a size that is not positive gives `None`;
/// - a region given has exactly the requested size (no rotation), lies on
///   free cells of the area, and those cells (with any free cells under
///   it) stop being free; no other cell becomes free;
/// - `None` changes no state;
/// - a region is given whenever some `width` by `height` block of free
///   cells exists: the packer tries every skyline segment as a left edge,
///   and a free block can be slid left to the start of the segment under
///   its left column.
/// The sizes are bounded so that the packer's sums do not overflow.
#[verifier::external_body]
pub(crate) fn pack(packer: &mut rect_packer::Packer, width: i32, height: i32) -> (r: Option<Rectangle>)
    requires
        packer_config(*old(packer)).2 == 0,
        packer_config(*old(packer)).3 == 0,
        packer_config(*old(packer)).0 <= 65536,
        packer_config(*old(packer)).1 <= 65536,
        width <= 65536,
        height <= 65536,
    ensures
        spec_region(r) == packer_pack(*old(packer), width, height),
        *final(packer) == packer_after(*old(packer), width, height),
        packer_config(*final(packer)) == packer_config(*old(packer)),
        (width <= 0 || height <= 0) ==> r is None,
        r matches Some(rc) ==> {
            let c = packer_config(*old(packer));
            &&& rc.w == width
            &&& rc.h == height
            &&& 0 <= rc.x
            &&& rc.x + width <= (if c.0 < 0 { 0 } else { c.0 as int })
            &&& 0 <= rc.y
            &&& rc.y + height <= (if c.1 < 0 { 0 } else { c.1 as int })
            &&& spec_box_in(packer_free(*old(packer)), rc.x as int, rc.y as int, width as int, height as int)
            &&& forall|cx: int, cy: int| #[trigger] packer_free(*final(packer)).contains((cx, cy)) ==>
                packer_free(*old(packer)).contains((cx, cy)) && !spec_in_rect(rc.x as int, rc.y as int, width as int, height as int, cx, cy)
        },
        r is None ==> packer_free(*final(packer)) == packer_free(*old(packer)),
        (width > 0 && height > 0 && exists|x: int, y: int| spec_box_in(packer_free(*old(packer)), x, y, width as int, height as int))
            ==> r is Some,
{
    match packer.pack(width, height, false) {
        Some(rc) => Some(Rectangle { x: rc.x, y: rc.y, w: rc.width, h: rc.height }),
        None => None,
    }
}

/// Two rectangles share no cell: one lies wholly left of, right of, above or
/// below the other.
pub open spec fn spec_disjoint(a: Rectangle, b: Rectangle) -> bool {
    a.x + a.w <= b.x || b.x + b.w <= a.x || a.y + a.h <= b.y || b.y + b.h <= a.y
}

/// A rectangle of positive size.
pub open spec fn spec_nonempty(a: Rectangle) -> bool {
    a.w > 0 && a.h > 0
}

/// Every two non-empty rectangles at different positions of `s` are
/// disjoint.
pub open spec fn spec_all_disjoint(s: Seq<Rectangle>) -> bool {
    forall|a: int, b: int| 0 <= a < s.len() && 0 <= b < s.len() && a != b
        && spec_nonempty(#[trigger] s[a]) && spec_nonempty(#[trigger] s[b]) ==> spec_disjoint(s[a], s[b])
}

/// The non-empty rectangles of `s` are pairwise disjoint, and none of them
/// covers a cell of `free`.
pub open spec fn spec_placed_ok(s: Seq<Rectangle>, free: Set<(int, int)>) -> bool {
    &&& spec_all_disjoint(s)
    &&& forall|a: int| 0 <= a < s.len() && spec_nonempty(#[trigger] s[a]) ==> spec_avoids(free, s[a])
}

/// A rectangle that covers none of the cells of `free` is disjoint from one
/// that lies on them.
pub proof fn lemma_free_disjoint(free: Set<(int, int)>, e: Rectangle, rc: Rectangle)
    requires
        spec_avoids(free, e),
        spec_nonempty(e),
        spec_nonempty(rc),
        spec_box_in(free, rc.x as int, rc.y as int, rc.w as int, rc.h as int),
    ensures
        spec_disjoint(e, rc),
{
    if !spec_disjoint(e, rc) {
        let cx = if e.x > rc.x { e.x as int } else { rc.x as int };
        let cy = if e.y > rc.y { e.y as int } else { rc.y as int };
        assert(spec_in_rect(rc.x as int, rc.y as int, rc.w as int, rc.h as int, cx, cy));
        assert(free.contains((cx, cy)));
        assert(spec_in_rect(e.x as int, e.y as int, e.w as int, e.h as int, cx, cy));
    }
}

/// Putting a region the packer gave into an empty slot of a list of placed
/// rectangles keeps them placed well against the packer's new free cells.
pub proof fn lemma_place(s: Seq<Rectangle>, k: int, rc: Rectangle, free0: Set<(int, int)>, free1: Set<(int, int)>)
    requires
        spec_placed_ok(s, free0),
        0 <= k < s.len(),
        !spec_nonempty(s[k]),
        spec_box_in(free0, rc.x as int, rc.y as int, rc.w as int, rc.h as int),
        forall|cx: int, cy: int| #[trigger] free1.contains((cx, cy)) ==>
            free0.contains((cx, cy)) && !spec_in_rect(rc.x as int, rc.y as int, rc.w as int, rc.h as int, cx, cy),
    ensures
        spec_placed_ok(s.update(k, rc), free1),
{
    let t = s.update(k, rc);
    assert forall|a: int, b: int| 0 <= a < t.len() && 0 <= b < t.len() && a != b
        && spec_nonempty(#[trigger] t[a]) && spec_nonempty(#[trigger] t[b]) implies spec_disjoint(t[a], t[b]) by {
        if a == k {
            assert(spec_avoids(free0, s[b]));
            lemma_free_disjoint(free0, s[b], rc);
        } else if b == k {
            assert(spec_avoids(free0, s[a]));
            lemma_free_disjoint(free0, s[a], rc);
        } else {
            assert(t[a] == s[a] && t[b] == s[b]);
        }
    }
    assert forall|a: int| 0 <= a < t.len() && spec_nonempty(#[trigger] t[a]) implies spec_avoids(free1, t[a]) by {
        if a != k {
            assert(spec_avoids(free0, s[a]));
        }
    }
}

/// Adding empty rectangles keeps a list placed well.
pub proof fn lemma_append_empty(s: Seq<Rectangle>, e: Seq<Rectangle>, free: Set<(int, int)>)
    requires
        spec_placed_ok(s, free),
        forall|i: int| 0 <= i < e.len() ==> !spec_nonempty(#[trigger] e[i]),
    ensures
        spec_placed_ok(s + e, free),
{
    let t = s + e;
    assert forall|a: int, b: int| 0 <= a < t.len() && 0 <= b < t.len() && a != b
        && spec_nonempty(#[trigger] t[a]) && spec_nonempty(#[trigger] t[b]) implies spec_disjoint(t[a], t[b]) by {
        if a >= s.len() {
            assert(t[a] == e[a - s.len()]);
        } else if b >= s.len() {
            assert(t[b] == e[b - s.len()]);
        } else {
            assert(t[a] == s[a] && t[b] == s[b]);
        }
    }
    assert forall|a: int| 0 <= a < t.len() && spec_nonempty(#[trigger] t[a]) implies spec_avoids(free, t[a]) by {
        if a >= s.len() {
            assert(t[a] == e[a - s.len()]);
        } else {
            assert(t[a] == s[a]);
        }
    }
}

} // verus!
