//! The source regions of a nine-slice sprite: a texture region cut by four
//! border widths into corners, edges and a middle. Where the pieces are
//! drawn, and how large, is computed by the caller in floating point.
use vstd::prelude::*;
use crate::misc::Rectangle;

verus! {

/// The nine source regions of texture region `tex` with borders
/// `(left, right, top, bottom)`, row by row: top-left, top, top-right,
/// left, middle, right, bottom-left, bottom, bottom-right.
pub open spec fn spec_nineslice(tex: Rectangle, borders: (i32, i32, i32, i32)) -> Seq<Rectangle> {
    let (l, r, t, b) = borders;
    let mw = tex.w - (l + r);
    let mh = tex.h - (t + b);
    let x0 = tex.x;
    let x1 = tex.x + l;
    let x2 = tex.x + (tex.w - r);
    let y0 = tex.y;
    let y1 = tex.y + t;
    let y2 = tex.y + (tex.h - b);
    seq![
        Rectangle { x: x0 as i32, y: y0 as i32, w: l, h: t },
        Rectangle { x: x1 as i32, y: y0 as i32, w: mw as i32, h: t },
        Rectangle { x: x2 as i32, y: y0 as i32, w: r, h: t },
        Rectangle { x: x0 as i32, y: y1 as i32, w: l, h: mh as i32 },
        Rectangle { x: x1 as i32, y: y1 as i32, w: mw as i32, h: mh as i32 },
        Rectangle { x: x2 as i32, y: y1 as i32, w: r, h: mh as i32 },
        Rectangle { x: x0 as i32, y: y2 as i32, w: l, h: b },
        Rectangle { x: x1 as i32, y: y2 as i32, w: mw as i32, h: b },
        Rectangle { x: x2 as i32, y: y2 as i32, w: r, h: b },
    ]
}

/// Whether the nine regions of `tex` and `borders` can be computed in
/// 32-bit arithmetic.
pub open spec fn spec_nineslice_fits(tex: Rectangle, borders: (i32, i32, i32, i32)) -> bool {
    let (l, r, t, b) = borders;
    &&& i32::MIN <= l + r <= i32::MAX
    &&& i32::MIN <= t + b <= i32::MAX
    &&& i32::MIN <= tex.w - (l + r) <= i32::MAX
    &&& i32::MIN <= tex.h - (t + b) <= i32::MAX
    &&& i32::MIN <= tex.w - r <= i32::MAX
    &&& i32::MIN <= tex.h - b <= i32::MAX
    &&& i32::MIN <= tex.x + l <= i32::MAX
    &&& i32::MIN <= tex.y + t <= i32::MAX
    &&& i32::MIN <= tex.x + (tex.w - r) <= i32::MAX
    &&& i32::MIN <= tex.y + (tex.h - b) <= i32::MAX
}

/// The nine source regions of a nine-slice sprite cut from texture region
/// `tex` by the borders `(left, right, top, bottom)`.
pub fn nineslice_rects(tex: Rectangle, borders: (i32, i32, i32, i32)) -> (r: [Rectangle; 9])
    requires
        spec_nineslice_fits(tex, borders),
    ensures
        r@ == spec_nineslice(tex, borders),
{
    let (l, r, t, b) = borders;
    let lr = l + r;
    let tb = t + b;
    let mw = tex.w - lr;
    let mh = tex.h - tb;
    let x1 = tex.x + l;
    let x2 = tex.x + (tex.w - r);
    let y1 = tex.y + t;
    let y2 = tex.y + (tex.h - b);
    let out = [
        Rectangle::new(tex.x, tex.y, l, t),
        Rectangle::new(x1, tex.y, mw, t),
        Rectangle::new(x2, tex.y, r, t),
        Rectangle::new(tex.x, y1, l, mh),
        Rectangle::new(x1, y1, mw, mh),
        Rectangle::new(x2, y1, r, mh),
        Rectangle::new(tex.x, y2, l, b),
        Rectangle::new(x1, y2, mw, b),
        Rectangle::new(x2, y2, r, b),
    ];
    assert(out@ =~= spec_nineslice(tex, borders));
    out
}

/// The nine draws of a nine-slice sprite of `w` by `h` units cut from
/// texture region `tex` by the borders `(left, right, top, bottom)`, row by
/// row and left to right within a row: each pairs the source region of the
/// texture with the piece of the sprite it is drawn to, whose position is
/// its offset from the sprite's corner (the draw's pivot is moved by it) and
/// whose size is the drawn size. The pieces cut the `w` by `h` sprite as the
/// source regions cut the texture region.
pub fn nineslice_layout(tex: Rectangle, w: i32, h: i32, borders: (i32, i32, i32, i32)) -> (r: [(Rectangle, Rectangle); 9])
    requires
        spec_nineslice_fits(tex, borders),
        spec_nineslice_fits(Rectangle { x: 0, y: 0, w, h }, borders),
    ensures
        forall|i: int| 0 <= i < 9 ==> (#[trigger] r@[i]).0 == spec_nineslice(tex, borders)[i]
            && r@[i].1 == spec_nineslice(Rectangle { x: 0, y: 0, w, h }, borders)[i],
{
    let src = nineslice_rects(tex, borders);
    let dst = nineslice_rects(Rectangle::new(0, 0, w, h), borders);
    let out = [
        (src[0], dst[0]),
        (src[1], dst[1]),
        (src[2], dst[2]),
        (src[3], dst[3]),
        (src[4], dst[4]),
        (src[5], dst[5]),
        (src[6], dst[6]),
        (src[7], dst[7]),
        (src[8], dst[8]),
    ];
    assert forall|i: int| 0 <= i < 9 implies (#[trigger] out@[i]).0 == src@[i] && out@[i].1 == dst@[i] by {
        assert(out@[0] == (src@[0], dst@[0]));
        assert(out@[1] == (src@[1], dst@[1]));
        assert(out@[2] == (src@[2], dst@[2]));
        assert(out@[3] == (src@[3], dst@[3]));
        assert(out@[4] == (src@[4], dst@[4]));
        assert(out@[5] == (src@[5], dst@[5]));
        assert(out@[6] == (src@[6], dst@[6]));
        assert(out@[7] == (src@[7], dst@[7]));
        assert(out@[8] == (src@[8], dst@[8]));
    }
    out
}

/// The nine pieces tile the region: in each row the three pieces sit side by
/// side from the region's left edge and their widths add up to its width,
/// and in each column the three pieces sit one below the other from its top
/// edge and their heights add up to its height; the corners have the border
/// sizes.
pub proof fn law_nineslice_tiles_region(tex: Rectangle, borders: (i32, i32, i32, i32), row: int, col: int)
    requires
        spec_nineslice_fits(tex, borders),
        0 <= row < 3,
        0 <= col < 3,
    ensures
        ({
            let s = spec_nineslice(tex, borders);
            let (l, r, t, b) = borders;
            &&& s[3 * row].x == tex.x
            &&& s[3 * row + 1].x == s[3 * row].x + s[3 * row].w
            &&& s[3 * row + 2].x == s[3 * row + 1].x + s[3 * row + 1].w
            &&& s[3 * row].w + s[3 * row + 1].w + s[3 * row + 2].w == tex.w
            &&& s[col].y == tex.y
            &&& s[3 + col].y == s[col].y + s[col].h
            &&& s[6 + col].y == s[3 + col].y + s[3 + col].h
            &&& s[col].h + s[3 + col].h + s[6 + col].h == tex.h
            &&& s[3 * row + col].h == s[3 * row].h
            &&& s[3 * row + col].w == s[col].w
            &&& s[0].w == l && s[2].w == r && s[0].h == t && s[6].h == b
        }),
{
}

} // verus!
