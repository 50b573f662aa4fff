//! Finding the light probes around a cell of the light grid.
//!
//! The probes are stored x-fastest, then y, then z. Which cell a position
//! falls in, and the weights of the eight probes around it, are computed by
//! the caller with floating-point arithmetic.
use vstd::prelude::*;
use crate::bsp::bspfile::LSHGridLump;

verus! {

/// The position of the probe at grid coordinates `(x, y, z)` in a grid of
/// `sx` by `sy` probes per layer.
pub open spec fn spec_probe_index(sx: int, sy: int, x: int, y: int, z: int) -> int {
    x + y * sx + z * sx * sy
}

/// The coordinates of probe `(x, y, z)` inside a grid of `sx * sy * sz`
/// probes give a position inside it.
pub proof fn lemma_probe_index_bounds(sx: int, sy: int, sz: int, x: int, y: int, z: int)
    requires
        0 <= x < sx,
        0 <= y < sy,
        0 <= z < sz,
    ensures
        0 <= spec_probe_index(sx, sy, x, y, z) < sx * sy * sz,
{
    assert(0 <= x + y * sx < sx * sy) by (nonlinear_arith)
        requires 0 <= x < sx, 0 <= y < sy;
    assert(0 <= x + y * sx + z * sx * sy < sx * sy * sz) by (nonlinear_arith)
        requires 0 <= x + y * sx < sx * sy, 0 <= z < sz, sx > 0, sy > 0;
}

impl LSHGridLump {
    /// The positions of the eight probes at the corners of grid cell
    /// `(cx, cy, cz)`, in the order (x, y, z) offsets 000, 100, 010, 110,
    /// 001, 101, 011, 111.
    pub fn cell_probes(&self, cx: i32, cy: i32, cz: i32) -> (r: [usize; 8])
        requires
            self.probes@.len() == self.grid_size.x as int * self.grid_size.y as int * self.grid_size.z as int,
            0 <= cx && cx + 1 < self.grid_size.x,
            0 <= cy && cy + 1 < self.grid_size.y,
            0 <= cz && cz + 1 < self.grid_size.z,
        ensures
            forall|k: int| 0 <= k < 8 ==> {
                &&& #[trigger] r@[k] == spec_probe_index(self.grid_size.x as int, self.grid_size.y as int,
                    cx + k % 2, cy + (k / 2) % 2, cz + k / 4)
                &&& r@[k] < self.probes@.len()
            },
    {
        let total = self.probes.len();
        let sx = self.grid_size.x as usize;
        let sy = self.grid_size.y as usize;
        let sz = self.grid_size.z as usize;
        let ghost (isx, isy, isz) = (sx as int, sy as int, sz as int);
        assert(isx * isy * isz == self.probes@.len());
        assert(isx * isy < isx * isy * isz) by (nonlinear_arith)
            requires isx > 0, isy > 0, isz > 1;
        let x0 = cx as usize;
        let y0 = cy as usize;
        let z0 = cz as usize;
        proof {
            lemma_probe_index_bounds(isx, isy, isz, x0 + 1, y0 + 1, z0 + 1);
            assert((y0 + 1) * isx <= spec_probe_index(isx, isy, x0 + 1, y0 + 1, z0 + 1)) by (nonlinear_arith)
                requires x0 >= 0, z0 >= 0, isx > 0, isy > 0;
            assert((z0 + 1) * isx * isy <= spec_probe_index(isx, isy, x0 + 1, y0 + 1, z0 + 1)) by (nonlinear_arith)
                requires x0 >= 0, y0 >= 0, isx > 0, isy > 0;
            assert(y0 * isx <= (y0 + 1) * isx) by (nonlinear_arith)
                requires isx > 0;
            assert(z0 * isx * isy <= (z0 + 1) * isx * isy) by (nonlinear_arith)
                requires isx > 0, isy > 0;
        }
        assert(isx * isy < total);
        assert((y0 + 1) * isx < total);
        assert((z0 + 1) * isx * isy < total);
        assert(y0 * isx < total);
        assert(z0 * isx * isy < total);
        let row0 = y0 * sx;
        let row1 = (y0 + 1) * sx;
        let layer = sx * sy;
        assert(z0 * layer == z0 * isx * isy && (z0 + 1) * layer == (z0 + 1) * isx * isy) by (nonlinear_arith)
            requires layer == isx * isy;
        let lay0 = z0 * layer;
        let lay1 = (z0 + 1) * layer;
        proof {
            lemma_probe_index_bounds(isx, isy, isz, x0 as int, y0 as int, z0 as int);
            lemma_probe_index_bounds(isx, isy, isz, x0 + 1, y0 as int, z0 as int);
            lemma_probe_index_bounds(isx, isy, isz, x0 as int, y0 + 1, z0 as int);
            lemma_probe_index_bounds(isx, isy, isz, x0 + 1, y0 + 1, z0 as int);
            lemma_probe_index_bounds(isx, isy, isz, x0 as int, y0 as int, z0 + 1);
            lemma_probe_index_bounds(isx, isy, isz, x0 + 1, y0 as int, z0 + 1);
            lemma_probe_index_bounds(isx, isy, isz, x0 as int, y0 + 1, z0 + 1);
        }
        let r = [
            x0 + row0 + lay0,
            x0 + 1 + row0 + lay0,
            x0 + row1 + lay0,
            x0 + 1 + row1 + lay0,
            x0 + row0 + lay1,
            x0 + 1 + row0 + lay1,
            x0 + row1 + lay1,
            x0 + 1 + row1 + lay1,
        ];
        assert forall|k: int| 0 <= k < 8 implies {
            &&& #[trigger] r@[k] == spec_probe_index(isx, isy, cx + k % 2, cy + (k / 2) % 2, cz + k / 4)
            &&& r@[k] < self.probes@.len()
        } by {
            assert(k == 0 || k == 1 || k == 2 || k == 3 || k == 4 || k == 5 || k == 6 || k == 7);
        }
        r
    }
}

/// Probes are stored x fastest, then y, then z: the probe at the origin is
/// the first, a step in x moves one probe on, a step in y one row of `sx`
/// probes, and a step in z one layer of `sx * sy` probes.
pub proof fn law_probe_index_steps(sx: int, sy: int, x: int, y: int, z: int)
    ensures
        spec_probe_index(sx, sy, 0, 0, 0) == 0,
        spec_probe_index(sx, sy, x + 1, y, z) == spec_probe_index(sx, sy, x, y, z) + 1,
        spec_probe_index(sx, sy, x, y + 1, z) == spec_probe_index(sx, sy, x, y, z) + sx,
        spec_probe_index(sx, sy, x, y, z + 1) == spec_probe_index(sx, sy, x, y, z) + sx * sy,
{
    assert((y + 1) * sx == y * sx + sx) by (nonlinear_arith);
    assert((z + 1) * sx * sy == z * sx * sy + sx * sy) by (nonlinear_arith);
    assert(0 * sx == 0 && 0 * sx * sy == 0) by (nonlinear_arith);
}

} // verus!
