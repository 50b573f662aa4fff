use nanogame3d::bsp::bspfile::{BspError, BspFile, IntVector3, LSHGridLump, LSHProbe, RawVector3, RawVector4, BspLumpInfo, Edge, EdgeLump, FaceLump, VisLump, SURF_NODRAW, SURF_SKY, SURF_TRANS33, SURF_TRANS66, SURF_NOLM};
use nanogame3d::bsp::faces::{face_lightmap_animated, face_outline, face_refs_ok, face_tint, push_fan_indices};
use nanogame3d::bsp::lightmap::{layout_lightmaps, lightmap_slice, LightmapError, LM_SIZE};
use nanogame3d::bsp::visibility::{leaf_faces_ok, nodes_ordered, MapVisibility};
use nanogame3d::parse_utils::{get_prop_str, parse_prop};

fn put_u32(v: &mut Vec<u8>, x: u32) {
    v.extend_from_slice(&x.to_le_bytes());
}

fn put_name(v: &mut Vec<u8>, name: &str) {
    let mut field = [0u8; 24];
    field[..name.len()].copy_from_slice(name.as_bytes());
    v.extend_from_slice(&field);
}

/// A map with the given main lumps (index, bytes) and the five extension
/// lumps, each empty.
fn build_bsp(lumps: &[(usize, Vec<u8>)]) -> Vec<u8> {
    let mut body: Vec<u8> = Vec::new();
    let mut dir = vec![(160u32, 0u32); 19];
    for (idx, bytes) in lumps {
        dir[*idx] = (160 + body.len() as u32, bytes.len() as u32);
        body.extend_from_slice(bytes);
    }
    let mut out: Vec<u8> = Vec::new();
    out.extend_from_slice(b"IBSP");
    put_u32(&mut out, 38);
    for (off, len) in &dir {
        put_u32(&mut out, *off);
        put_u32(&mut out, *len);
    }
    out.extend_from_slice(&body);
    while out.len() % 4 != 0 {
        out.push(0);
    }
    // extension directory
    let bspx_start = out.len();
    let names = ["LSH_GRID", "SPROP", "SPROP_INDICES", "SPROP_VERTICES", "SPROP_MATERIALS"];
    let data_start = bspx_start + 8 + 32 * names.len();
    out.extend_from_slice(b"BSPX");
    put_u32(&mut out, names.len() as u32);
    let mut lump_data: Vec<u8> = Vec::new();
    for name in names.iter() {
        let bytes: Vec<u8> = if *name == "LSH_GRID" { vec![0u8; 36] } else { vec![0u8; 4] };
        put_name(&mut out, name);
        put_u32(&mut out, (data_start + lump_data.len()) as u32);
        put_u32(&mut out, bytes.len() as u32);
        lump_data.extend_from_slice(&bytes);
    }
    out.extend_from_slice(&lump_data);
    out
}

fn minimal_lumps(entities: &str) -> Vec<(usize, Vec<u8>)> {
    let mut ent = entities.as_bytes().to_vec();
    ent.push(0);
    vec![(0, ent), (3, vec![0, 0, 0, 0])]
}

#[test]
fn bsp_minimal_map_parses() {
    let data = build_bsp(&minimal_lumps("{\n\"classname\" \"worldspawn\"\n}\n"));
    let bsp = BspFile::new(&data).unwrap();
    assert_eq!(bsp.entity_lump.entities, "{\n\"classname\" \"worldspawn\"\n}\n");
    assert_eq!(bsp.vis_lump.clusters.len(), 0);
    assert_eq!(bsp.face_lump.faces.len(), 0);
    assert_eq!(bsp.sprop_lump.props.len(), 0);
    assert_eq!(bsp.lsh_grid_lump.probes.len(), 0);
}

#[test]
fn bsp_bad_magic() {
    let mut data = build_bsp(&minimal_lumps(""));
    data[0] = b'X';
    assert!(matches!(BspFile::new(&data), Err(BspError::BadMagic)));
}

#[test]
fn bsp_bad_version() {
    let mut data = build_bsp(&minimal_lumps(""));
    data[4] = 37;
    assert!(matches!(BspFile::new(&data), Err(BspError::BadVersion)));
}

#[test]
fn bsp_truncated_header() {
    let data = build_bsp(&minimal_lumps(""));
    assert!(matches!(BspFile::new(&data[..100]), Err(BspError::UnexpectedEof)));
    assert!(matches!(BspFile::new(&data[..2]), Err(BspError::UnexpectedEof)));
}

#[test]
fn bsp_missing_extension_header() {
    let data = build_bsp(&minimal_lumps(""));
    // cut the file right where the extension header starts
    let mut ent = b"".to_vec();
    ent.push(0);
    let bspx_at = 160 + ent.len() + 4;
    let start = (bspx_at + 3) / 4 * 4;
    assert!(matches!(BspFile::new(&data[..start]), Err(BspError::NoBspx)));
}

#[test]
fn bsp_missing_extension_lump() {
    let mut data = build_bsp(&minimal_lumps(""));
    // rename the SPROP entry
    let pos = data.windows(5).position(|w| w == b"SPROP").unwrap();
    data[pos] = b'X';
    assert!(matches!(BspFile::new(&data), Err(BspError::MissingBspxLump)));
}

#[test]
fn edge_lump_reads_pairs() {
    let data = vec![1u8, 0, 2, 0, 3, 0, 4, 1];
    let lump = EdgeLump::new(&data, &BspLumpInfo { offset: 0, length: 8 }).unwrap();
    assert_eq!(lump.edges, vec![Edge { a: 1, b: 2 }, Edge { a: 3, b: 260 }]);
    assert!(matches!(EdgeLump::new(&data, &BspLumpInfo { offset: 4, length: 8 }), Err(BspError::UnexpectedEof)));
}

fn face_bytes(first_edge: u32, num_edges: u16, texinfo: u16, styles: [u8; 4], lm_offset: u32) -> Vec<u8> {
    let mut v = Vec::new();
    v.extend_from_slice(&0u16.to_le_bytes());
    v.extend_from_slice(&0u16.to_le_bytes());
    v.extend_from_slice(&first_edge.to_le_bytes());
    v.extend_from_slice(&num_edges.to_le_bytes());
    v.extend_from_slice(&texinfo.to_le_bytes());
    v.extend_from_slice(&styles);
    v.extend_from_slice(&lm_offset.to_le_bytes());
    v
}

#[test]
fn face_lump_counts_lightmap_styles() {
    let mut data = face_bytes(3, 4, 1, [0, 1, 255, 255], 30);
    data.extend(face_bytes(0, 3, 0, [255, 0, 0, 0], 0));
    data.extend(face_bytes(0, 3, 0, [5, 6, 7, 8], 0));
    let lump = FaceLump::new(&data, &BspLumpInfo { offset: 0, length: 60 }).unwrap();
    assert_eq!(lump.faces.len(), 3);
    assert_eq!(lump.faces[0].first_edge, 3);
    assert_eq!(lump.faces[0].num_edges, 4);
    assert_eq!(lump.faces[0].texture_info, 1);
    assert_eq!(lump.faces[0].num_lightmaps, 2);
    assert_eq!(lump.faces[0].lightmap_offset, 30);
    assert_eq!(lump.faces[1].num_lightmaps, 0);
    assert_eq!(lump.faces[2].num_lightmaps, 4);
}

/// A vis lump of two clusters: cluster 0 sees clusters 0 and 1, cluster 1
/// sees only itself.
fn two_cluster_vis() -> VisLump {
    let mut data = Vec::new();
    put_u32(&mut data, 2);
    put_u32(&mut data, 20);
    put_u32(&mut data, 0);
    put_u32(&mut data, 21);
    put_u32(&mut data, 0);
    data.push(0b11);
    data.push(0b10);
    VisLump::new(&data, &BspLumpInfo { offset: 0, length: data.len() as u32 }).unwrap()
}

#[test]
fn vis_unpack_sets_visible_clusters() {
    let vis = two_cluster_vis();
    assert_eq!(vis.clusters.len(), 2);
    let mut out = vec![false; 2];
    vis.unpack_vis(0, &mut out);
    assert_eq!(out, vec![true, true]);
    let mut out = vec![false; 2];
    vis.unpack_vis(1, &mut out);
    assert_eq!(out, vec![false, true]);
}

#[test]
fn vis_unpack_keeps_earlier_entries() {
    let vis = two_cluster_vis();
    let mut out = vec![true, false];
    vis.unpack_vis(1, &mut out);
    assert_eq!(out, vec![true, true]);
}

#[test]
fn vis_offset_inside_header_is_rejected() {
    let mut data = Vec::new();
    put_u32(&mut data, 1);
    put_u32(&mut data, 4);
    put_u32(&mut data, 0);
    data.push(1);
    assert!(matches!(VisLump::new(&data, &BspLumpInfo { offset: 0, length: 13 }), Err(BspError::InvalidLayout)));
}

#[test]
fn entities_parse_into_property_maps() {
    let data = build_bsp(&minimal_lumps(
        "{\n\"classname\" \"worldspawn\"\n\"message\" \"a map\"\n}\n{\n\"classname\" \"light\"\n\"origin\" \"0 0 64\"\n\"light\" \"300\"\n}\n",
    ));
    let bsp = BspFile::new(&data).unwrap();
    let ents = bsp.entity_lump.parse();
    assert_eq!(ents.len(), 2);
    assert_eq!(get_prop_str(&ents[0], "classname", ""), "worldspawn");
    assert_eq!(get_prop_str(&ents[0], "message", ""), "a map");
    assert_eq!(get_prop_str(&ents[1], "origin", ""), "0 0 64");
    assert_eq!(parse_prop(&ents[1], "light", 0i32), 300);
    assert_eq!(parse_prop(&ents[1], "missing", 7i32), 7);
}

#[test]
fn entities_later_key_wins() {
    let data = build_bsp(&minimal_lumps("{\n\"a\" \"1\"\n\"a\" \"2\"\n}\n"));
    let bsp = BspFile::new(&data).unwrap();
    let ents = bsp.entity_lump.parse();
    assert_eq!(ents.len(), 1);
    assert_eq!(get_prop_str(&ents[0], "a", ""), "2");
}

#[test]
fn entities_brace_at_start_cannot_be_cut() {
    let data = build_bsp(&minimal_lumps("}{\n\"a\" \"1\"\n}"));
    let bsp = BspFile::new(&data).unwrap();
    assert!(bsp.entity_lump.entity_blocks().is_none());
}

#[test]
fn entities_empty_block_cannot_be_cut() {
    let data = build_bsp(&minimal_lumps("{}"));
    let bsp = BspFile::new(&data).unwrap();
    assert!(bsp.entity_lump.entity_blocks().is_none());
}

#[test]
fn entities_blocks_end_before_the_last_byte() {
    let data = build_bsp(&minimal_lumps("{ab}x{cd\n}"));
    let bsp = BspFile::new(&data).unwrap();
    let blocks = bsp.entity_lump.entity_blocks().unwrap();
    assert_eq!(blocks, vec!["a".to_string(), "cd".to_string()]);
}

#[test]
fn face_tint_by_surface_flags() {
    assert!(face_tint(SURF_NODRAW).is_none());
    assert!(face_tint(SURF_SKY | SURF_TRANS33).is_none());
    assert_eq!(face_tint(0).unwrap().a, 255);
    assert_eq!(face_tint(SURF_TRANS33).unwrap().a, 85);
    assert_eq!(face_tint(SURF_TRANS66).unwrap().a, 170);
    assert_eq!(face_tint(SURF_TRANS33 | SURF_TRANS66).unwrap().a, 85);
    let c = face_tint(SURF_TRANS66).unwrap();
    assert_eq!((c.r, c.g, c.b), (255, 255, 255));
}

#[test]
fn fan_indices_cover_polygon() {
    let mut idx: Vec<u16> = vec![99];
    push_fan_indices(&mut idx, 10, 4);
    assert_eq!(idx, vec![99, 10, 11, 12, 10, 12, 13]);
    let mut idx: Vec<u16> = Vec::new();
    push_fan_indices(&mut idx, 0, 2);
    assert!(idx.is_empty());
    push_fan_indices(&mut idx, 0, 1);
    assert!(idx.is_empty());
    push_fan_indices(&mut idx, 65535, 3);
    assert_eq!(idx, vec![65535, 0, 1]);
}

fn texinfo_bytes(flags: u32, name: &str) -> Vec<u8> {
    let mut v = vec![0u8; 32];
    put_u32(&mut v, flags);
    put_u32(&mut v, 0);
    let mut field = [0u8; 32];
    field[..name.len()].copy_from_slice(name.as_bytes());
    v.extend_from_slice(&field);
    put_u32(&mut v, 0);
    v
}

fn leaf_bytes(cluster: u16, first_face: u16, num_faces: u16) -> Vec<u8> {
    let mut v = Vec::new();
    put_u32(&mut v, 0);
    v.extend_from_slice(&cluster.to_le_bytes());
    v.extend_from_slice(&0u16.to_le_bytes());
    v.extend_from_slice(&[0u8; 12]);
    v.extend_from_slice(&first_face.to_le_bytes());
    v.extend_from_slice(&num_faces.to_le_bytes());
    v.extend_from_slice(&0u16.to_le_bytes());
    v.extend_from_slice(&0u16.to_le_bytes());
    v
}

fn node_bytes(front: i32, back: i32) -> Vec<u8> {
    let mut v = Vec::new();
    put_u32(&mut v, 0);
    v.extend_from_slice(&front.to_le_bytes());
    v.extend_from_slice(&back.to_le_bytes());
    v.extend_from_slice(&[0u8; 16]);
    v
}

/// A map with a square face (0) of edges 1, 2, -3, -4 and a triangle face
/// (1), two textures (the second without lightmaps), and three leaves: leaf
/// 0 lists faces 0 and 1, leaf 1 lists face 1, leaf 2 lists face 0.
fn geometry_map() -> BspFile {
    let mut edges = Vec::new();
    for (a, b) in [(0u16, 0u16), (0, 1), (1, 2), (3, 2), (0, 3), (4, 5)] {
        edges.extend_from_slice(&a.to_le_bytes());
        edges.extend_from_slice(&b.to_le_bytes());
    }
    let mut face_edges = Vec::new();
    for e in [1i32, 2, -3, -4, 5, 1, 2] {
        face_edges.extend_from_slice(&e.to_le_bytes());
    }
    let mut faces = face_bytes(0, 4, 0, [0, 255, 255, 255], 0);
    faces.extend(face_bytes(4, 3, 1, [0, 1, 255, 255], 300));
    let mut texinfo = texinfo_bytes(0, "base/floor");
    texinfo.extend(texinfo_bytes(SURF_NOLM, "base/sky"));
    let mut leaves = leaf_bytes(0, 0, 2);
    leaves.extend(leaf_bytes(1, 2, 1));
    leaves.extend(leaf_bytes(0xffff, 3, 1));
    let mut leaf_faces = Vec::new();
    for f in [0u16, 1, 1, 0] {
        leaf_faces.extend_from_slice(&f.to_le_bytes());
    }
    let mut nodes = node_bytes(1, -1);
    nodes.extend(node_bytes(-2, -3));
    let mut lumps = minimal_lumps("");
    lumps.push((4, nodes));
    lumps.push((5, texinfo));
    lumps.push((6, faces));
    lumps.push((8, leaves));
    lumps.push((9, leaf_faces));
    lumps.push((11, edges));
    lumps.push((12, face_edges));
    BspFile::new(&build_bsp(&lumps)).unwrap()
}

#[test]
fn face_outline_turns_backward_edges() {
    let bsp = geometry_map();
    assert!(face_refs_ok(&bsp, 0));
    assert!(face_refs_ok(&bsp, 1));
    assert!(!face_refs_ok(&bsp, 2));
    let outline = face_outline(&bsp, 0);
    assert_eq!(outline, vec![Edge { a: 0, b: 1 }, Edge { a: 1, b: 2 }, Edge { a: 2, b: 3 }, Edge { a: 3, b: 0 }]);
    let outline = face_outline(&bsp, 1);
    assert_eq!(outline, vec![Edge { a: 4, b: 5 }, Edge { a: 0, b: 1 }, Edge { a: 1, b: 2 }]);
}

#[test]
fn face_refs_reject_missing_edges() {
    let mut bsp = geometry_map();
    bsp.face_edge_lump.edges[0] = 6;
    assert!(!face_refs_ok(&bsp, 0));
    bsp.face_edge_lump.edges[0] = i32::MIN;
    assert!(!face_refs_ok(&bsp, 0));
    bsp.face_edge_lump.edges[0] = -5;
    assert!(face_refs_ok(&bsp, 0));
}

#[test]
fn visibility_draws_each_face_once_per_frame() {
    let bsp = geometry_map();
    let vis = two_cluster_vis();
    assert!(leaf_faces_ok(&bsp, bsp.face_lump.faces.len()));
    assert!(!leaf_faces_ok(&bsp, 1));
    let mut state = MapVisibility::new(2, bsp.face_lump.faces.len());
    state.begin_frame(&vis, 1, 1);
    assert!(!state.leaf_visible(&bsp.leaf_lump.leaves[0]));
    assert!(state.leaf_visible(&bsp.leaf_lump.leaves[1]));
    assert!(!state.leaf_visible(&bsp.leaf_lump.leaves[2]));
    let faces = state.collect_faces(&bsp, &vec![0, 1, 2]);
    assert_eq!(faces, vec![0, 1]);
    // the same frame draws nothing twice
    let again = state.collect_faces(&bsp, &vec![1]);
    assert!(again.is_empty());
    // the next frame draws again
    state.begin_frame(&vis, 1, 1);
    let faces = state.collect_faces(&bsp, &vec![1, 0]);
    assert_eq!(faces, vec![1, 0]);
    // moving to a leaf of cluster 0 makes both clusters visible
    state.begin_frame(&vis, 0, 0);
    assert!(state.leaf_visible(&bsp.leaf_lump.leaves[0]));
    assert!(state.leaf_visible(&bsp.leaf_lump.leaves[1]));
}

#[test]
fn lightmap_layout_sizes_and_bounds() {
    let bsp = geometry_map();
    let sizes = vec![(40usize, 0usize), (3usize, 5usize)];
    let rects = layout_lightmaps(&bsp, &sizes).unwrap();
    assert_eq!(rects.len(), 2);
    // face 0: one style, clamped to 16 x 1
    assert_eq!((rects[0][0].w, rects[0][0].h), (16, 1));
    assert!(rects[0][0].x >= 0 && rects[0][0].x + 16 <= LM_SIZE);
    assert_eq!((rects[0][1].w, rects[0][1].h), (0, 0));
    // face 1: its texture has no lightmaps
    for r in rects[1].iter() {
        assert_eq!((r.x, r.y, r.w, r.h), (0, 0, 0, 0));
    }
    let (start, end) = lightmap_slice(&bsp.face_lump.faces[1], 1, 15);
    assert_eq!((start, end), (115, 130));
}

#[test]
fn vis_unpacks_into_checks_bounds() {
    let vis = two_cluster_vis();
    assert!(vis.unpacks_into(0, 2));
    assert!(!vis.unpacks_into(0, 1));
    assert!(vis.unpacks_into(1, 2));
    assert!(!vis.unpacks_into(1, 1));
    assert!(!vis.unpacks_into(2, 2));
    assert!(vis.unpacks_into(1, 5));
}

#[test]
fn light_grid_cell_probes() {
    let zero4 = RawVector4 { x: 0, y: 0, z: 0, w: 0 };
    let zero3 = RawVector3 { x: 0, y: 0, z: 0 };
    let grid = LSHGridLump {
        grid_dist: zero3,
        grid_size: IntVector3 { x: 3, y: 2, z: 2 },
        grid_mins: zero3,
        probes: vec![LSHProbe { sh_r: zero4, sh_g: zero4, sh_b: zero4 }; 12],
    };
    assert_eq!(grid.cell_probes(0, 0, 0), [0, 1, 3, 4, 6, 7, 9, 10]);
    assert_eq!(grid.cell_probes(1, 0, 0), [1, 2, 4, 5, 7, 8, 10, 11]);
}

#[test]
fn brush_model_faces_with_only_style_zero_stay_static() {
    let bsp = geometry_map();
    // face 0: styles [0, 255, ...], one lightmap
    assert!(!face_lightmap_animated(&bsp.face_lump.faces[0]));
    // face 1: styles [0, 1, ...], two lightmaps
    assert!(face_lightmap_animated(&bsp.face_lump.faces[1]));
}

#[test]
fn visible_leaves_walk_the_tree() {
    let bsp = geometry_map();
    let vis = two_cluster_vis();
    assert!(nodes_ordered(&bsp));
    let mut state = MapVisibility::new(2, bsp.face_lump.faces.len());
    state.begin_frame(&vis, 1, 1);
    assert_eq!(state.visible_leaves(&bsp, &vec![true, true]), vec![1]);
    state.begin_frame(&vis, 0, 0);
    let mut leaves = state.visible_leaves(&bsp, &vec![true, true]);
    leaves.sort();
    assert_eq!(leaves, vec![0, 1]);
    assert_eq!(state.visible_leaves(&bsp, &vec![true, false]), vec![0]);
    assert!(state.visible_leaves(&bsp, &vec![false, true]).is_empty());
}

#[test]
fn nodes_must_come_after_their_parent() {
    let mut bsp = geometry_map();
    bsp.node_lump.nodes[1].front_child = 0;
    assert!(!nodes_ordered(&bsp));
    let mut bsp = geometry_map();
    bsp.node_lump.nodes[1].back_child = -4;
    assert!(!nodes_ordered(&bsp));
}

fn overlaps(a: &nanogame3d::misc::Rectangle, b: &nanogame3d::misc::Rectangle) -> bool {
    a.x < b.x + b.w && b.x < a.x + a.w && a.y < b.y + b.h && b.y < a.y + a.h
}

#[test]
fn lightmap_layout_regions_do_not_overlap() {
    let mut bsp = geometry_map();
    bsp.face_lump.faces[0].lightmap_styles = [0, 1, 2, 255];
    bsp.face_lump.faces[0].num_lightmaps = 3;
    let sizes = vec![(9usize, 4usize), (3usize, 5usize)];
    let rects = layout_lightmaps(&bsp, &sizes).unwrap();
    let placed: Vec<_> = rects.iter().flat_map(|r| r.iter()).filter(|r| r.w > 0).collect();
    assert_eq!(placed.len(), 3);
    for r in placed.iter() {
        assert_eq!((r.w, r.h), (9, 4));
        assert!(r.x >= 0 && r.y >= 0 && r.x + r.w <= LM_SIZE && r.y + r.h <= LM_SIZE);
    }
    for i in 0..placed.len() {
        for j in 0..placed.len() {
            if i != j {
                assert!(!overlaps(placed[i], placed[j]));
            }
        }
    }
    assert_eq!((rects[0][3].w, rects[0][3].h), (0, 0));
}

#[test]
fn lightmap_layout_reports_full_atlas() {
    let mut bsp = geometry_map();
    let mut face = bsp.face_lump.faces[0];
    face.lightmap_styles = [0, 1, 2, 3];
    face.num_lightmaps = 4;
    // 1024 x 1024 texels hold 4096 lightmaps of 16 x 16: 1024 faces fill it
    bsp.face_lump.faces = vec![face; 1024];
    let sizes = vec![(16usize, 16usize); 1024];
    assert!(layout_lightmaps(&bsp, &sizes).is_ok());
    bsp.face_lump.faces.push(face);
    let sizes = vec![(16usize, 16usize); 1025];
    assert!(matches!(layout_lightmaps(&bsp, &sizes), Err(LightmapError::AtlasFull)));
}
