//! Which material each map texture and static prop uses, and which textures
//! are drawn in the opaque and in the transparent pass.
use vstd::prelude::*;
use crate::text::concat;

verus! {

/// The material file of the map texture named `texture_name`.
pub fn material_path(texture_name: &str) -> (r: String)
    ensures
        r@ == "content/materials/"@ + texture_name@ + ".toml"@,
{
    let a = concat("content/materials/", texture_name);
    concat(a.as_str(), ".toml")
}

/// The material file of the static prop material named `name`.
pub fn prop_material_path(name: &str) -> (r: String)
    ensures
        r@ == "content/models/"@ + name@ + "_PROP.toml"@,
{
    let a = concat("content/models/", name);
    concat(a.as_str(), "_PROP.toml")
}

/// The positions among the first `n` flags of `flags` whose flag is `val`,
/// in order.
pub open spec fn spec_positions_where(flags: Seq<bool>, val: bool, n: int) -> Seq<usize>
    decreases n,
{
    if n <= 0 {
        Seq::empty()
    } else if flags[n - 1] == val {
        spec_positions_where(flags, val, n - 1).push((n - 1) as usize)
    } else {
        spec_positions_where(flags, val, n - 1)
    }
}

/// Splits the textures by whether their material is transparent: the
/// positions of the opaque ones, then those of the transparent ones, each in
/// order.
pub fn split_by_transparency(transparent: &Vec<bool>) -> (r: (Vec<usize>, Vec<usize>))
    ensures
        r.0@ == spec_positions_where(transparent@, false, transparent@.len() as int),
        r.1@ == spec_positions_where(transparent@, true, transparent@.len() as int),
{
    let mut opaque: Vec<usize> = Vec::new();
    let mut transp: Vec<usize> = Vec::new();
    let mut i: usize = 0;
    while i < transparent.len()
        invariant
            i <= transparent@.len(),
            opaque@ == spec_positions_where(transparent@, false, i as int),
            transp@ == spec_positions_where(transparent@, true, i as int),
        decreases transparent@.len() - i,
    {
        if transparent[i] {
            transp.push(i);
        } else {
            opaque.push(i);
        }
        i = i + 1;
    }
    (opaque, transp)
}

/// Every texture is drawn in exactly one pass: a position is listed as
/// opaque exactly when it is not listed as transparent, and only positions
/// of the list appear.
pub proof fn law_each_texture_in_one_pass(flags: Seq<bool>, n: int, i: usize)
    requires
        0 <= n <= flags.len(),
        flags.len() <= usize::MAX,
    ensures
        i < n ==> (spec_positions_where(flags, false, n).contains(i)
            != spec_positions_where(flags, true, n).contains(i)),
        forall|j: int| 0 <= j < spec_positions_where(flags, false, n).len()
            ==> #[trigger] spec_positions_where(flags, false, n)[j] < n,
        forall|j: int| 0 <= j < spec_positions_where(flags, true, n).len()
            ==> #[trigger] spec_positions_where(flags, true, n)[j] < n,
    decreases n,
{
    if n > 0 {
        law_each_texture_in_one_pass(flags, n - 1, i);
        let o = spec_positions_where(flags, false, n - 1);
        let t = spec_positions_where(flags, true, n - 1);
        let last = (n - 1) as usize;
        assert(!o.contains(last)) by {
            if o.contains(last) {
                let j = choose|j: int| 0 <= j < o.len() && o[j] == last;
                assert(o[j] < n - 1);
            }
        }
        assert(!t.contains(last)) by {
            if t.contains(last) {
                let j = choose|j: int| 0 <= j < t.len() && t[j] == last;
                assert(t[j] < n - 1);
            }
        }
        if i < n {
            let iu = i;
            if flags[n - 1] {
                assert(spec_positions_where(flags, true, n) == t.push(last));
                assert(spec_positions_where(flags, true, n).contains(iu) == (t.contains(iu) || iu == last)) by {
                    if spec_positions_where(flags, true, n).contains(iu) {
                        let j = choose|j: int| 0 <= j < t.push(last).len() && t.push(last)[j] == iu;
                        if j < t.len() { assert(t[j] == iu); }
                    }
                    if t.contains(iu) {
                        let j = choose|j: int| 0 <= j < t.len() && t[j] == iu;
                        assert(t.push(last)[j] == iu);
                    }
                    if iu == last {
                        assert(t.push(last)[t.len() as int] == last);
                    }
                }
            } else {
                assert(spec_positions_where(flags, false, n) == o.push(last));
                assert(spec_positions_where(flags, false, n).contains(iu) == (o.contains(iu) || iu == last)) by {
                    if spec_positions_where(flags, false, n).contains(iu) {
                        let j = choose|j: int| 0 <= j < o.push(last).len() && o.push(last)[j] == iu;
                        if j < o.len() { assert(o[j] == iu); }
                    }
                    if o.contains(iu) {
                        let j = choose|j: int| 0 <= j < o.len() && o[j] == iu;
                        assert(o.push(last)[j] == iu);
                    }
                    if iu == last {
                        assert(o.push(last)[o.len() as int] == last);
                    }
                }
            }
        }
    }
}

} // verus!
