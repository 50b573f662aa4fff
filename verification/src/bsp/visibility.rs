//! Per-frame visibility of the map: which clusters the camera's cluster can
//! see, and which faces the visible leaves contribute, each face once per
//! frame.
use vstd::prelude::*;
use crate::bsp::bspfile::{BspFile, Leaf, VisLump, spec_vis_decodes, spec_byte_marks, spec_bit_set};

verus! {

/// The face indices listed by leaf `l`, in order.
pub open spec fn spec_leaf_faces(bsp: BspFile, l: int) -> Seq<int> {
    let leaf = bsp.leaf_lump.leaves@[l];
    Seq::new(leaf.num_leaf_faces as nat, |k: int| bsp.leaf_face_lump.faces@[leaf.first_leaf_face + k] as int)
}

/// The face indices listed by the leaves `ls`, leaf after leaf.
pub open spec fn spec_faces_of_leaves(bsp: BspFile, ls: Seq<usize>) -> Seq<int>
    decreases ls.len(),
{
    if ls.len() == 0 {
        Seq::empty()
    } else {
        spec_faces_of_leaves(bsp, ls.drop_last()) + spec_leaf_faces(bsp, ls.last() as int)
    }
}

/// One drawing pass over the face indices `fs`: a face whose stamp is
/// already `frame` is skipped; any other is stamped with `frame` and drawn.
/// Gives the stamps afterwards and the faces drawn, in order.
pub open spec fn spec_draw_pass(stamps: Seq<u32>, frame: u32, fs: Seq<int>) -> (Seq<u32>, Seq<int>)
    decreases fs.len(),
{
    if fs.len() == 0 {
        (stamps, Seq::empty())
    } else {
        let (st, out) = spec_draw_pass(stamps, frame, fs.drop_last());
        let f = fs.last();
        if st[f] == frame {
            (st, out)
        } else {
            (st.update(f, frame), out.push(f))
        }
    }
}

/// Every leaf lists faces that exist in the leaf-face lump, and every face
/// it lists is below `num_faces`.
pub open spec fn spec_leaf_faces_ok(bsp: BspFile, num_faces: int) -> bool {
    forall|l: int| 0 <= l < bsp.leaf_lump.leaves@.len() ==> {
        let leaf = #[trigger] bsp.leaf_lump.leaves@[l];
        &&& leaf.first_leaf_face + leaf.num_leaf_faces <= bsp.leaf_face_lump.faces@.len()
        &&& forall|k: int| leaf.first_leaf_face <= k < leaf.first_leaf_face + leaf.num_leaf_faces
            ==> (#[trigger] bsp.leaf_face_lump.faces@[k]) < num_faces
    }
}

/// Whether every leaf lists existing faces below `num_faces`.
pub fn leaf_faces_ok(bsp: &BspFile, num_faces: usize) -> (r: bool)
    ensures
        r == spec_leaf_faces_ok(*bsp, num_faces as int),
{
    let mut l: usize = 0;
    while l < bsp.leaf_lump.leaves.len()
        invariant
            l <= bsp.leaf_lump.leaves@.len(),
            forall|m: int| 0 <= m < l ==> {
                let leaf = #[trigger] bsp.leaf_lump.leaves@[m];
                &&& leaf.first_leaf_face + leaf.num_leaf_faces <= bsp.leaf_face_lump.faces@.len()
                &&& forall|k: int| leaf.first_leaf_face <= k < leaf.first_leaf_face + leaf.num_leaf_faces
                    ==> (#[trigger] bsp.leaf_face_lump.faces@[k]) < num_faces
            },
        decreases bsp.leaf_lump.leaves@.len() - l,
    {
        let leaf = &bsp.leaf_lump.leaves[l];
        let start = leaf.first_leaf_face as usize;
        let end = start + leaf.num_leaf_faces as usize;
        if end > bsp.leaf_face_lump.faces.len() {
            return false;
        }
        let mut k: usize = start;
        while k < end
            invariant
                l < bsp.leaf_lump.leaves@.len(),
                start == bsp.leaf_lump.leaves@[l as int].first_leaf_face,
                end == start + bsp.leaf_lump.leaves@[l as int].num_leaf_faces,
                end <= bsp.leaf_face_lump.faces@.len(),
                start <= k <= end,
                forall|j: int| start <= j < k ==> (#[trigger] bsp.leaf_face_lump.faces@[j]) < num_faces,
            decreases end - k,
        {
            if bsp.leaf_face_lump.faces[k] as usize >= num_faces {
                return false;
            }
            k = k + 1;
        }
        l = l + 1;
    }
    true
}

/// The leaf of the map with cluster index `cluster` is in no cluster when
/// the index is the `u16` maximum.
pub const NO_CLUSTER: u16 = 0xffff;

/// The visibility state of the map renderer.
pub struct MapVisibility {
    vis: Vec<bool>,
    prev_leaf: i32,
    drawn_faces: Vec<u32>,
    cur_frame: u32,
}

impl MapVisibility {
    /// Which clusters are visible from the current one.
    pub closed spec fn spec_vis(&self) -> Seq<bool> {
        self.vis@
    }

    /// The leaf whose visibility is loaded; -1 before the first frame.
    pub closed spec fn spec_prev_leaf(&self) -> int {
        self.prev_leaf as int
    }

    /// The frame in which each face was last drawn.
    pub closed spec fn spec_stamps(&self) -> Seq<u32> {
        self.drawn_faces@
    }

    /// The current frame number.
    pub closed spec fn spec_frame(&self) -> u32 {
        self.cur_frame
    }

    /// No cluster visible, no leaf loaded, no face drawn, frame 0.
    pub fn new(num_clusters: usize, num_faces: usize) -> (r: MapVisibility)
        ensures
            r.spec_vis() == Seq::new(num_clusters as nat, |i: int| false),
            r.spec_prev_leaf() == -1,
            r.spec_stamps() == Seq::new(num_faces as nat, |i: int| 0u32),
            r.spec_frame() == 0,
    {
        let mut vis: Vec<bool> = Vec::new();
        let mut i: usize = 0;
        while i < num_clusters
            invariant
                i <= num_clusters,
                vis@ == Seq::new(i as nat, |j: int| false),
            decreases num_clusters - i,
        {
            vis.push(false);
            i = i + 1;
            assert(vis@ =~= Seq::new(i as nat, |j: int| false));
        }
        let mut drawn: Vec<u32> = Vec::new();
        let mut i: usize = 0;
        while i < num_faces
            invariant
                i <= num_faces,
                drawn@ == Seq::new(i as nat, |j: int| 0u32),
            decreases num_faces - i,
        {
            drawn.push(0);
            i = i + 1;
            assert(drawn@ =~= Seq::new(i as nat, |j: int| 0u32));
        }
        MapVisibility { vis, prev_leaf: -1, drawn_faces: drawn, cur_frame: 0 }
    }

    /// Starts a frame with the camera in leaf `leaf_index`, of cluster
    /// `cluster`: the frame number advances (wrapping), and when the camera
    /// changed leaf, the visible clusters become those of its cluster (none
    /// when the leaf is in no cluster).
    pub fn begin_frame(&mut self, vis_lump: &VisLump, leaf_index: i32, cluster: u16)
        requires
            leaf_index != old(self).spec_prev_leaf() && cluster != NO_CLUSTER ==> {
                &&& (cluster as int) < vis_lump.clusters@.len()
                &&& vis_lump.clusters@.len() + 2048 <= usize::MAX
                &&& vis_lump.spec_unpacks_into(cluster as int, old(self).spec_vis().len() as int)
            },
        ensures
            final(self).spec_frame() == old(self).spec_frame().wrapping_add(1),
            final(self).spec_stamps() == old(self).spec_stamps(),
            final(self).spec_prev_leaf() == leaf_index,
            final(self).spec_vis().len() == old(self).spec_vis().len(),
            leaf_index == old(self).spec_prev_leaf() ==> final(self).spec_vis() == old(self).spec_vis(),
            leaf_index != old(self).spec_prev_leaf() ==> forall|i: int| 0 <= i < final(self).spec_vis().len() ==>
                #[trigger] final(self).spec_vis()[i] == (cluster != NO_CLUSTER && vis_lump.spec_visible_from(cluster as int).contains(i)),
    {
        self.cur_frame = self.cur_frame.wrapping_add(1);
        if leaf_index != self.prev_leaf {
            self.prev_leaf = leaf_index;
            let mut i: usize = 0;
            let ghost n = self.vis@.len();
            let ghost st = self.drawn_faces@;
            let ghost fr = self.cur_frame;
            while i < self.vis.len()
                invariant
                    self.vis@.len() == n,
                    self.drawn_faces@ == st,
                    self.cur_frame == fr,
                    self.prev_leaf == leaf_index,
                    i <= n,
                    forall|j: int| 0 <= j < i ==> !self.vis@[j],
                decreases n - i,
            {
                self.vis.set(i, false);
                i = i + 1;
            }
            if cluster != NO_CLUSTER {
                vis_lump.unpack_vis(cluster as usize, self.vis.as_mut_slice());
            }
        }
    }

    /// Whether `leaf` is in a visible cluster.
    pub fn leaf_visible(&self, leaf: &Leaf) -> (r: bool)
        requires
            leaf.cluster != NO_CLUSTER ==> (leaf.cluster as int) < self.spec_vis().len(),
        ensures
            r == (leaf.cluster != NO_CLUSTER && self.spec_vis()[leaf.cluster as int]),
    {
        if leaf.cluster == NO_CLUSTER {
            return false;
        }
        self.vis[leaf.cluster as usize]
    }

    /// The faces to draw this frame for the leaves `visible_leaves`, in the
    /// order the leaves list them; a face already drawn this frame (listed
    /// earlier, or stamped with this frame before) is left out.
    pub fn collect_faces(&mut self, bsp: &BspFile, visible_leaves: &Vec<usize>) -> (r: Vec<usize>)
        requires
            spec_leaf_faces_ok(*bsp, old(self).spec_stamps().len() as int),
            forall|i: int| 0 <= i < visible_leaves@.len() ==> (#[trigger] visible_leaves@[i]) < bsp.leaf_lump.leaves@.len(),
        ensures
            ({
                let (st, out) = spec_draw_pass(old(self).spec_stamps(), old(self).spec_frame(),
                    spec_faces_of_leaves(*bsp, visible_leaves@));
                &&& final(self).spec_stamps() == st
                &&& r@.map_values(|f: usize| f as int) == out
            }),
            final(self).spec_frame() == old(self).spec_frame(),
            final(self).spec_vis() == old(self).spec_vis(),
            final(self).spec_prev_leaf() == old(self).spec_prev_leaf(),
    {
        let frame = self.cur_frame;
        let ghost st0 = self.drawn_faces@;
        let ghost nf = st0.len() as int;
        let ghost vis0 = self.vis@;
        let ghost leaf0 = self.prev_leaf;
        let mut out: Vec<usize> = Vec::new();
        let mut i: usize = 0;
        while i < visible_leaves.len()
            invariant
                frame == self.cur_frame,
                self.vis@ == vis0,
                self.prev_leaf == leaf0,
                self.drawn_faces@.len() == nf,
                spec_leaf_faces_ok(*bsp, nf),
                forall|j: int| 0 <= j < visible_leaves@.len() ==> (#[trigger] visible_leaves@[j]) < bsp.leaf_lump.leaves@.len(),
                i <= visible_leaves@.len(),
                ({
                    let (st, o) = spec_draw_pass(st0, frame, spec_faces_of_leaves(*bsp, visible_leaves@.take(i as int)));
                    &&& self.drawn_faces@ == st
                    &&& out@.map_values(|f: usize| f as int) == o
                }),
            decreases visible_leaves@.len() - i,
        {
            let l = visible_leaves[i];
            let leaf = &bsp.leaf_lump.leaves[l];
            let start = leaf.first_leaf_face as usize;
            let n = leaf.num_leaf_faces as usize;
            let ghost pre = spec_faces_of_leaves(*bsp, visible_leaves@.take(i as int));
            let ghost lf = spec_leaf_faces(*bsp, l as int);
            proof {
                assert(visible_leaves@.take(i + 1).drop_last() =~= visible_leaves@.take(i as int));
                assert(spec_faces_of_leaves(*bsp, visible_leaves@.take(i + 1)) == pre + lf);
                let _ = bsp.leaf_lump.leaves@[l as int];
            }
            let mut k: usize = 0;
            while k < n
                invariant
                    frame == self.cur_frame,
                    self.vis@ == vis0,
                    self.prev_leaf == leaf0,
                    self.drawn_faces@.len() == nf,
                    spec_leaf_faces_ok(*bsp, nf),
                    l < bsp.leaf_lump.leaves@.len(),
                    start == bsp.leaf_lump.leaves@[l as int].first_leaf_face,
                    n == bsp.leaf_lump.leaves@[l as int].num_leaf_faces,
                    lf == spec_leaf_faces(*bsp, l as int),
                    k <= n,
                    ({
                        let (st, o) = spec_draw_pass(st0, frame, pre + lf.take(k as int));
                        &&& self.drawn_faces@ == st
                        &&& out@.map_values(|f: usize| f as int) == o
                    }),
                decreases n - k,
            {
                proof {
                    let leaf_v = bsp.leaf_lump.leaves@[l as int];
                    assert(start + k < start + n);
                    assert(bsp.leaf_face_lump.faces@[start + k] < nf);
                    assert((pre + lf.take(k + 1)).drop_last() =~= pre + lf.take(k as int));
                    assert((pre + lf.take(k + 1)).last() == lf[k as int]);
                }
                let f = bsp.leaf_face_lump.faces[start + k] as usize;
                if self.drawn_faces[f] != frame {
                    self.drawn_faces.set(f, frame);
                    out.push(f);
                    proof {
                        let (st, o) = spec_draw_pass(st0, frame, pre + lf.take(k as int));
                        assert(out@.map_values(|g: usize| g as int) =~= o.push(f as int));
                    }
                }
                k = k + 1;
            }
            proof {
                assert(lf.take(n as int) =~= lf);
            }
            i = i + 1;
        }
        proof {
            assert(visible_leaves@.take(visible_leaves@.len() as int) =~= visible_leaves@);
        }
        out
    }
}

/// In one drawing pass no face is drawn twice; a listed face is drawn
/// exactly when its stamp was not already the frame's; only listed faces are
/// drawn; and afterwards the faces drawn carry the frame's stamp while every
/// other face keeps its stamp.
pub proof fn law_draw_pass_once(stamps: Seq<u32>, frame: u32, fs: Seq<int>)
    requires
        forall|i: int| 0 <= i < fs.len() ==> 0 <= #[trigger] fs[i] < stamps.len(),
    ensures
        ({
            let (st, out) = spec_draw_pass(stamps, frame, fs);
            &&& st.len() == stamps.len()
            &&& out.no_duplicates()
            &&& forall|f: int| #[trigger] out.contains(f) ==> fs.contains(f)
            &&& forall|f: int| fs.contains(f) && stamps[f] != frame ==> #[trigger] out.contains(f)
            &&& forall|f: int| 0 <= f < stamps.len() ==>
                #[trigger] st[f] == (if out.contains(f) { frame } else { stamps[f] })
        }),
    decreases fs.len(),
{
    if fs.len() > 0 {
        let p = fs.drop_last();
        assert forall|i: int| 0 <= i < p.len() implies 0 <= #[trigger] p[i] < stamps.len() by {
            assert(p[i] == fs[i]);
        }
        law_draw_pass_once(stamps, frame, p);
        let (st1, out1) = spec_draw_pass(stamps, frame, p);
        let f = fs.last();
        assert(fs[fs.len() - 1] == f);
        assert forall|g: int| p.contains(g) implies fs.contains(g) by {
            let i = choose|i: int| 0 <= i < p.len() && p[i] == g;
            assert(fs[i] == g);
        }
        assert forall|g: int| fs.contains(g) && g != f implies p.contains(g) by {
            let i = choose|i: int| 0 <= i < fs.len() && fs[i] == g;
            assert(i != fs.len() - 1);
            assert(p[i] == g);
        }
        if st1[f] == frame {
        } else {
            let out2 = out1.push(f);
            assert(!out1.contains(f));
            assert forall|g: int| #[trigger] out2.contains(g) implies out1.contains(g) || g == f by {
                let i = choose|i: int| 0 <= i < out2.len() && out2[i] == g;
                if i < out1.len() {
                    assert(out1[i] == g);
                }
            }
            assert forall|g: int| out1.contains(g) implies #[trigger] out2.contains(g) by {
                let i = choose|i: int| 0 <= i < out1.len() && out1[i] == g;
                assert(out2[i] == g);
            }
            assert(out2[out1.len() as int] == f);
            assert forall|a: int, b: int| 0 <= a < out2.len() && 0 <= b < out2.len() && a != b
                implies out2[a] != out2[b] by {
                if a < out1.len() && b < out1.len() {
                } else if a == out1.len() {
                    assert(out1[b] == out2[b]);
                } else {
                    assert(out1[a] == out2[a]);
                }
            }
        }
    }
}

impl VisLump {
    /// Whether the visibility data of cluster `cluster_index` can be
    /// unpacked into `m` entries: the cluster exists, its run-length data
    /// lies inside the buffer, and it marks only clusters below `m`.
    pub fn unpacks_into(&self, cluster_index: usize, m: usize) -> (r: bool)
        ensures
            r == (cluster_index < self.clusters@.len() && self.clusters@.len() + 2048 <= usize::MAX
                && self.spec_unpacks_into(cluster_index as int, m as int)),
    {
        if cluster_index >= self.clusters.len() || self.clusters.len() > usize::MAX - 2048 {
            return false;
        }
        let ghost buf = self.vis_buffer@;
        let n = self.clusters.len();
        let ghost start = self.clusters@[cluster_index as int].vis_offset as int;
        let mut v = self.clusters[cluster_index].vis_offset;
        let mut c: usize = 0;
        while c < n
            invariant
                buf == self.vis_buffer@,
                n == self.clusters@.len(),
                n + 2048 <= usize::MAX,
                c < n + 2041,
                start == self.clusters@[cluster_index as int].vis_offset,
                cluster_index < n,
                spec_vis_decodes(buf, start, 0, n as int, m as int) == spec_vis_decodes(buf, v as int, c as int, n as int, m as int),
            decreases buf.len() - v,
        {
            if v >= self.vis_buffer.len() {
                return false;
            }
            let x = self.vis_buffer[v];
            if x == 0 {
                if v + 1 >= self.vis_buffer.len() {
                    return false;
                }
                c = c + 8 * (self.vis_buffer[v + 1] as usize);
                v = v + 2;
            } else {
                let mut bit: u8 = 0;
                while bit < 8
                    invariant
                        bit <= 8,
                        c < n,
                        n + 2048 <= usize::MAX,
                        n == self.clusters@.len(),
                        buf == self.vis_buffer@,
                        v < buf.len(),
                        buf[v as int] == x,
                        x != 0,
                        cluster_index < n,
                        start == self.clusters@[cluster_index as int].vis_offset,
                        spec_vis_decodes(buf, start, 0, n as int, m as int) == spec_vis_decodes(buf, v as int, c as int, n as int, m as int),
                        forall|b: u8| b < bit && #[trigger] spec_bit_set(x, b) ==> c + b < m,
                    decreases 8 - bit,
                {
                    if x & (1u8 << bit) != 0 && c + (bit as usize) >= m {
                        proof {
                            assert(spec_byte_marks(x, c as int).contains(c + bit));
                            assert(spec_bit_set(x, ((c + bit) - c) as u8));
                        }
                        return false;
                    }
                    bit = bit + 1;
                }
                proof {
                    assert forall|i: int| #[trigger] spec_byte_marks(x, c as int).contains(i) implies i < m by {
                        let b = (i - c) as u8;
                        assert(spec_bit_set(x, b));
                    }
                }
                c = c + 8;
                v = v + 1;
            }
        }
        true
    }
}

/// Every node's children come after it (or are leaves), and every child
/// names an existing node or leaf; map compilers write the tree this way,
/// parents first.
pub open spec fn spec_nodes_ordered(bsp: BspFile) -> bool {
    let nodes = bsp.node_lump.nodes@;
    let nleaves = bsp.leaf_lump.leaves@.len();
    forall|n: int| 0 <= n < nodes.len() ==> {
        let node = #[trigger] nodes[n];
        &&& (node.front_child >= 0 ==> n < node.front_child < nodes.len())
        &&& (node.front_child < 0 ==> -node.front_child - 1 < nleaves)
        &&& (node.back_child >= 0 ==> n < node.back_child < nodes.len())
        &&& (node.back_child < 0 ==> -node.back_child - 1 < nleaves)
    }
}

/// Whether leaf `l` is in a cluster marked visible in `vis`.
pub open spec fn spec_leaf_shows(bsp: BspFile, vis: Seq<bool>, l: int) -> bool {
    let c = bsp.leaf_lump.leaves@[l].cluster;
    c != NO_CLUSTER && vis[c as int]
}

/// The leaves under child `c` of a node: the leaf itself when `c` names a
/// leaf (if it shows), else those under node `c`.
pub open spec fn spec_child_leaves(bsp: BspFile, in_frustum: Seq<bool>, vis: Seq<bool>, parent: int, c: int) -> Set<int>
    decreases bsp.node_lump.nodes@.len() - parent, 0int,
{
    if c < 0 {
        if spec_leaf_shows(bsp, vis, -c - 1) { set![-c - 1] } else { Set::empty() }
    } else if parent < c < bsp.node_lump.nodes@.len() && 0 <= parent {
        spec_node_leaves(bsp, in_frustum, vis, c)
    } else {
        Set::empty()
    }
}

/// The visible leaves under node `n`: nothing when the node's bounds are
/// outside the view (`in_frustum`), else the visible leaves under both of
/// its children.
pub open spec fn spec_node_leaves(bsp: BspFile, in_frustum: Seq<bool>, vis: Seq<bool>, n: int) -> Set<int>
    decreases bsp.node_lump.nodes@.len() - n, 1int,
{
    if n < 0 || n >= bsp.node_lump.nodes@.len() || !in_frustum[n] {
        Set::empty()
    } else {
        let node = bsp.node_lump.nodes@[n];
        spec_child_leaves(bsp, in_frustum, vis, n, node.front_child as int)
            .union(spec_child_leaves(bsp, in_frustum, vis, n, node.back_child as int))
    }
}

/// Whether `out` lists distinct leaves, exactly those marked in `seen`.
pub open spec fn spec_marked_list(seen: Seq<bool>, out: Seq<usize>) -> bool {
    &&& forall|i: int| 0 <= i < out.len() ==> (#[trigger] out[i]) < seen.len() && seen[out[i] as int]
    &&& forall|l: int| 0 <= l < seen.len() && #[trigger] seen[l] ==> out.contains(l as usize)
    &&& out.no_duplicates()
}

/// The set of leaves that a list holds.
pub open spec fn spec_list_set(out: Seq<usize>) -> Set<int> {
    Set::new(|l: int| exists|i: int| 0 <= i < out.len() && out[i] as int == l)
}

impl MapVisibility {
    /// Adds leaf `l` to `out` if it shows and is not listed yet.
    fn add_leaf(&self, bsp: &BspFile, l: usize, seen: &mut Vec<bool>, out: &mut Vec<usize>)
        requires
            l < bsp.leaf_lump.leaves@.len(),
            old(seen)@.len() == bsp.leaf_lump.leaves@.len(),
            spec_marked_list(old(seen)@, old(out)@),
            forall|m: int| 0 <= m < bsp.leaf_lump.leaves@.len() ==> {
                let c = (#[trigger] bsp.leaf_lump.leaves@[m]).cluster;
                c != NO_CLUSTER ==> (c as int) < self.spec_vis().len()
            },
        ensures
            final(seen)@.len() == old(seen)@.len(),
            spec_marked_list(final(seen)@, final(out)@),
            spec_list_set(final(out)@) == spec_list_set(old(out)@).union(
                if spec_leaf_shows(*bsp, self.spec_vis(), l as int) { set![l as int] } else { Set::empty() }),
    {
        let leaf = &bsp.leaf_lump.leaves[l];
        proof {
            let _ = bsp.leaf_lump.leaves@[l as int];
        }
        let shows = self.leaf_visible(leaf);
        if shows && !seen[l] {
            seen.set(l, true);
            out.push(l);
            proof {
                assert forall|i: int| 0 <= i < out@.len() implies (#[trigger] out@[i]) < seen@.len() && seen@[out@[i] as int] by {
                    if i < old(out)@.len() {
                        assert(out@[i] == old(out)@[i]);
                    }
                }
                assert forall|m: int| 0 <= m < seen@.len() && #[trigger] seen@[m] implies out@.contains(m as usize) by {
                    if m != l {
                        assert(old(seen)@[m]);
                        let j = choose|j: int| 0 <= j < old(out)@.len() && old(out)@[j] == m as usize;
                        assert(out@[j] == m as usize);
                    } else {
                        assert(out@[old(out)@.len() as int] == l);
                    }
                }
                assert forall|a: int, b: int| 0 <= a < out@.len() && 0 <= b < out@.len() && a != b implies out@[a] != out@[b] by {
                    if a < old(out)@.len() && b < old(out)@.len() {
                        assert(old(out)@[a] == out@[a] && old(out)@[b] == out@[b]);
                    } else if a == old(out)@.len() {
                        assert(old(out)@[b] == out@[b]);
                        assert(seen@[out@[b] as int] == old(seen)@[old(out)@[b] as int] || out@[b] == l);
                    } else {
                        assert(old(out)@[a] == out@[a]);
                    }
                }
                assert(spec_list_set(out@) =~= spec_list_set(old(out)@).union(set![l as int])) by {
                    assert forall|x: int| spec_list_set(out@).contains(x) implies spec_list_set(old(out)@).union(set![l as int]).contains(x) by {
                        let j = choose|j: int| 0 <= j < out@.len() && out@[j] as int == x;
                        if j < old(out)@.len() {
                            assert(old(out)@[j] == out@[j]);
                        }
                    }
                    assert forall|x: int| spec_list_set(old(out)@).union(set![l as int]).contains(x) implies spec_list_set(out@).contains(x) by {
                        if x == l {
                            assert(out@[old(out)@.len() as int] == l);
                        } else {
                            let j = choose|j: int| 0 <= j < old(out)@.len() && old(out)@[j] as int == x;
                            assert(out@[j] == old(out)@[j]);
                        }
                    }
                }
            }
        } else {
            proof {
                if shows {
                    assert(old(seen)@[l as int]);
                    assert(out@.contains(l));
                    let j = choose|j: int| 0 <= j < out@.len() && out@[j] == l;
                    assert(spec_list_set(out@).contains(l as int));
                    assert(spec_list_set(out@) =~= spec_list_set(out@).union(set![l as int]));
                } else {
                    assert(spec_list_set(out@) =~= spec_list_set(out@).union(Set::empty()));
                }
            }
        }
    }

    /// Adds the visible leaves under node `n` to `out`.
    fn update_recursive(&self, bsp: &BspFile, n: usize, in_frustum: &Vec<bool>, seen: &mut Vec<bool>, out: &mut Vec<usize>)
        requires
            spec_nodes_ordered(*bsp),
            n < bsp.node_lump.nodes@.len(),
            in_frustum@.len() == bsp.node_lump.nodes@.len(),
            old(seen)@.len() == bsp.leaf_lump.leaves@.len(),
            spec_marked_list(old(seen)@, old(out)@),
            forall|m: int| 0 <= m < bsp.leaf_lump.leaves@.len() ==> {
                let c = (#[trigger] bsp.leaf_lump.leaves@[m]).cluster;
                c != NO_CLUSTER ==> (c as int) < self.spec_vis().len()
            },
        ensures
            final(seen)@.len() == old(seen)@.len(),
            spec_marked_list(final(seen)@, final(out)@),
            spec_list_set(final(out)@) == spec_list_set(old(out)@).union(
                spec_node_leaves(*bsp, in_frustum@, self.spec_vis(), n as int)),
        decreases bsp.node_lump.nodes@.len() - n,
    {
        if !in_frustum[n] {
            assert(spec_list_set(out@) =~= spec_list_set(out@).union(Set::empty()));
            return;
        }
        let node = &bsp.node_lump.nodes[n];
        proof {
            let _ = bsp.node_lump.nodes@[n as int];
        }
        let ghost s0 = spec_list_set(out@);
        let front = node.front_child;
        let back = node.back_child;
        if front < 0 {
            self.add_leaf(bsp, (-(front + 1)) as usize, seen, out);
        } else {
            self.update_recursive(bsp, front as usize, in_frustum, seen, out);
        }
        let ghost s1 = spec_list_set(out@);
        if back < 0 {
            self.add_leaf(bsp, (-(back + 1)) as usize, seen, out);
        } else {
            self.update_recursive(bsp, back as usize, in_frustum, seen, out);
        }
        proof {
            let fl = spec_child_leaves(*bsp, in_frustum@, self.spec_vis(), n as int, front as int);
            let bl = spec_child_leaves(*bsp, in_frustum@, self.spec_vis(), n as int, back as int);
            assert(s1 == s0.union(fl));
            assert(spec_list_set(out@) == s1.union(bl));
            assert(spec_node_leaves(*bsp, in_frustum@, self.spec_vis(), n as int) == fl.union(bl));
            assert(spec_list_set(out@) =~= s0.union(fl.union(bl)));
        }
    }

    /// The visible leaves: those in a visible cluster under the nodes whose
    /// bounds are in view (`in_frustum`, one flag per node), walking the tree
    /// from the root; each leaf once.
    pub fn visible_leaves(&self, bsp: &BspFile, in_frustum: &Vec<bool>) -> (r: Vec<usize>)
        requires
            spec_nodes_ordered(*bsp),
            bsp.node_lump.nodes@.len() > 0,
            in_frustum@.len() == bsp.node_lump.nodes@.len(),
            forall|m: int| 0 <= m < bsp.leaf_lump.leaves@.len() ==> {
                let c = (#[trigger] bsp.leaf_lump.leaves@[m]).cluster;
                c != NO_CLUSTER ==> (c as int) < self.spec_vis().len()
            },
        ensures
            r@.no_duplicates(),
            spec_list_set(r@) == spec_node_leaves(*bsp, in_frustum@, self.spec_vis(), 0),
            forall|i: int| 0 <= i < r@.len() ==> (#[trigger] r@[i]) < bsp.leaf_lump.leaves@.len(),
    {
        let mut seen: Vec<bool> = Vec::new();
        let mut i: usize = 0;
        while i < bsp.leaf_lump.leaves.len()
            invariant
                i <= bsp.leaf_lump.leaves@.len(),
                seen@.len() == i,
                forall|j: int| 0 <= j < i ==> !seen@[j],
            decreases bsp.leaf_lump.leaves@.len() - i,
        {
            seen.push(false);
            i = i + 1;
        }
        let mut out: Vec<usize> = Vec::new();
        assert(spec_list_set(out@) =~= Set::<int>::empty());
        self.update_recursive(bsp, 0, in_frustum, &mut seen, &mut out);
        assert(spec_list_set(out@) =~= spec_node_leaves(*bsp, in_frustum@, self.spec_vis(), 0));
        out
    }
}

/// Whether every node's children come after it and name existing nodes or
/// leaves.
pub fn nodes_ordered(bsp: &BspFile) -> (r: bool)
    ensures
        r == spec_nodes_ordered(*bsp),
{
    let n = bsp.node_lump.nodes.len();
    let nleaves = bsp.leaf_lump.leaves.len();
    let mut i: usize = 0;
    while i < n
        invariant
            n == bsp.node_lump.nodes@.len(),
            nleaves == bsp.leaf_lump.leaves@.len(),
            i <= n,
            forall|m: int| 0 <= m < i ==> {
                let node = #[trigger] bsp.node_lump.nodes@[m];
                &&& (node.front_child >= 0 ==> m < node.front_child < n)
                &&& (node.front_child < 0 ==> -node.front_child - 1 < nleaves)
                &&& (node.back_child >= 0 ==> m < node.back_child < n)
                &&& (node.back_child < 0 ==> -node.back_child - 1 < nleaves)
            },
        decreases n - i,
    {
        let node = &bsp.node_lump.nodes[i];
        let f = node.front_child;
        let b = node.back_child;
        let f_ok = if f >= 0 { i < (f as usize) && (f as usize) < n } else { ((-(f + 1)) as usize) < nleaves };
        let b_ok = if b >= 0 { i < (b as usize) && (b as usize) < n } else { ((-(b + 1)) as usize) < nleaves };
        if !f_ok || !b_ok {
            return false;
        }
        i = i + 1;
    }
    true
}

} // verus!
