use richter::bsp::load::{
    load_entities, load_models, load_texinfos, section_bytes,
    check_limits, check_version, load_collision_nodes, load_edge_list, load_edges, load_faces,
    load_face_list, load_leaves, load_render_nodes, BspFileError, BspFileSection,
    BspFileSectionId, BspFileTable,
};
use richter::bsp::{
    collision_node_counts, model_leaf_ids, render_as_collision_nodes, BspRenderNode,
    decompress_pvs, face_lightmaps, get_pvs, BspFace, BspLeaf,
    BspCollisionNodeChild, BspEdgeDirection, BspError, BspFaceSide, BspLeafContents,
    BspRenderNodeChild,
};

fn le16(v: i16) -> [u8; 2] {
    v.to_le_bytes()
}

fn le32(v: i32) -> [u8; 4] {
    v.to_le_bytes()
}

#[test]
fn version_is_checked() {
    let mut pos = 0usize;
    assert!(check_version(&le32(29), &mut pos).is_ok());
    assert_eq!(pos, 4);
    let mut pos = 0usize;
    assert!(matches!(check_version(&le32(30), &mut pos), Err(BspFileError::UnsupportedVersion(30))));
    let mut pos = 0usize;
    assert!(matches!(check_version(&[1, 2], &mut pos), Err(BspFileError::Io)));
}

fn table_bytes(sizes: &[i32; 15]) -> Vec<u8> {
    let mut v = Vec::new();
    for (k, s) in sizes.iter().enumerate() {
        v.extend_from_slice(&le32(100 * k as i32));
        v.extend_from_slice(&le32(*s));
    }
    v
}

#[test]
fn table_reads_and_checks_sizes() {
    let sizes = [10, 40, 3, 24, 7, 48, 40, 20, 9, 16, 28, 4, 8, 8, 64];
    let bytes = table_bytes(&sizes);
    let mut pos = 0usize;
    let t = BspFileTable::read_from(&bytes, &mut pos).unwrap();
    assert_eq!(pos, 120);
    assert_eq!(t.section(BspFileSectionId::Faces), BspFileSection { offset: 700, size: 20 });
    assert!(check_limits(&t).is_ok());

    let mut bad = sizes;
    bad[1] = 30;
    let bytes = table_bytes(&bad);
    let mut pos = 0usize;
    assert!(matches!(
        BspFileTable::read_from(&bytes, &mut pos),
        Err(BspFileError::InvalidSectionSize { section: BspFileSectionId::Planes, size: 30 })
    ));

    let mut neg = table_bytes(&sizes);
    neg[8..12].copy_from_slice(&le32(-4));
    let mut pos = 0usize;
    assert!(matches!(BspFileTable::read_from(&neg, &mut pos), Err(BspFileError::NegativeSectionOffset(-4))));

    let mut no_models = sizes;
    no_models[14] = 0;
    let bytes = table_bytes(&no_models);
    let mut pos = 0usize;
    let t = BspFileTable::read_from(&bytes, &mut pos).unwrap();
    assert!(matches!(check_limits(&t), Err(BspError::Other(_))));
    assert_eq!(BspFileSectionId::Models.element_size(), 64);
}

#[test]
fn render_nodes_and_children() {
    let mut b = Vec::new();
    b.extend_from_slice(&le32(3));
    b.extend_from_slice(&le16(5));
    b.extend_from_slice(&le16(-1));
    for v in [-1i16, -2, -3, 1, 2, 3] {
        b.extend_from_slice(&le16(v));
    }
    b.extend_from_slice(&le16(7));
    b.extend_from_slice(&8u16.to_le_bytes());
    let nodes = load_render_nodes(&b, 0, 24).unwrap();
    assert_eq!(nodes.len(), 1);
    assert_eq!(nodes[0].plane_id, 3);
    assert_eq!(nodes[0].children, [BspRenderNodeChild::Node(5), BspRenderNodeChild::Leaf(0)]);
    assert_eq!(nodes[0].min, [-1, -2, -3]);
    assert_eq!(nodes[0].face_id, 7);
    assert_eq!(nodes[0].face_count, 8);
    assert!(matches!(load_render_nodes(&b, 0, 48), Err(BspError::Io)));
    let mut bad = b.clone();
    bad[0..4].copy_from_slice(&le32(-1));
    assert!(matches!(load_render_nodes(&bad, 0, 24), Err(BspError::Other(_))));
}

#[test]
fn faces_are_checked() {
    let mut f = Vec::new();
    f.extend_from_slice(&le16(2));
    f.extend_from_slice(&le16(1));
    f.extend_from_slice(&le32(10));
    f.extend_from_slice(&le16(3));
    f.extend_from_slice(&le16(0));
    f.extend_from_slice(&[1, 2, 3, 4]);
    f.extend_from_slice(&le32(-1));
    let faces = load_faces(&f, 0, 20, 5, 5).unwrap();
    assert_eq!(faces[0].side, BspFaceSide::Back);
    assert_eq!(faces[0].edge_id, 10);
    assert_eq!(faces[0].light_styles, [1, 2, 3, 4]);
    assert_eq!(faces[0].lightmap_id, None);
    assert!(matches!(load_faces(&f, 0, 20, 1, 5), Err(BspError::Other(_))));
    let mut two_edges = f.clone();
    two_edges[8..10].copy_from_slice(&le16(2));
    assert!(load_faces(&two_edges, 0, 20, 5, 5).is_err());
}

#[test]
fn collision_nodes_leaves_and_edges() {
    let mut c = Vec::new();
    c.extend_from_slice(&le32(0));
    c.extend_from_slice(&le16(4));
    c.extend_from_slice(&le16(-2));
    let nodes = load_collision_nodes(&c, 0, 8).unwrap();
    assert_eq!(
        nodes[0].children,
        [BspCollisionNodeChild::Node(4), BspCollisionNodeChild::Contents(BspLeafContents::Solid)]
    );
    let mut bad = c.clone();
    bad[6..8].copy_from_slice(&le16(-6));
    assert!(load_collision_nodes(&bad, 0, 8).is_err());

    let mut l = Vec::new();
    l.extend_from_slice(&le32(-3));
    l.extend_from_slice(&le32(16));
    for v in [0i16, 0, 0, 1, 1, 1] {
        l.extend_from_slice(&le16(v));
    }
    l.extend_from_slice(&2u16.to_le_bytes());
    l.extend_from_slice(&3u16.to_le_bytes());
    l.extend_from_slice(&[9, 8, 7, 6]);
    let leaves = load_leaves(&l, 0, 28).unwrap();
    assert_eq!(leaves[0].contents, BspLeafContents::Water);
    assert_eq!(leaves[0].vis_offset, Some(16));
    assert_eq!(leaves[0].facelist_count, 3);
    assert_eq!(leaves[0].sounds, [9, 8, 7, 6]);

    let e = [1u8, 0, 2, 0, 3, 0, 4, 0];
    let edges = load_edges(&e, 0, 8).unwrap();
    assert_eq!(edges[1].vertex_ids, [3, 4]);
    assert_eq!(load_face_list(&e, 4, 4).unwrap(), vec![3, 4]);

    let mut el = Vec::new();
    el.extend_from_slice(&le32(5));
    el.extend_from_slice(&le32(-7));
    let idx = load_edge_list(&el, 0, 8).unwrap();
    assert_eq!(idx[0].direction, BspEdgeDirection::Forward);
    assert_eq!(idx[0].index, 5);
    assert_eq!(idx[1].direction, BspEdgeDirection::Backward);
    assert_eq!(idx[1].index, 7);
    assert!(load_edge_list(&el, 100, 0).unwrap().is_empty());
}

#[test]
fn visibility_runs_decode() {
    // leaves 1.. : byte 0b101 marks leaves 1 and 3; a zero byte with 2 skips 16 leaves; then
    // byte 0x80 marks leaf 9 + 16 + 7 = 32.
    let vis = [0b0000_0101u8, 0, 2, 0x80];
    assert_eq!(decompress_pvs(&vis, 0, 30), vec![1, 3, 32]);
    assert_eq!(decompress_pvs(&vis, 0, 9), vec![1, 3]);
    assert_eq!(decompress_pvs(&vis, 0, 1), Vec::<usize>::new());
    let leaf = |vis_offset| BspLeaf {
        contents: BspLeafContents::Empty,
        vis_offset,
        min: [0; 3],
        max: [0; 3],
        facelist_id: 0,
        facelist_count: 0,
        sounds: [0; 4],
    };
    let leaves = vec![leaf(None), leaf(Some(0)), leaf(None)];
    assert!(get_pvs(&leaves, &vis, 0, 30).is_empty());
    assert_eq!(get_pvs(&leaves, &vis, 1, 30), vec![1, 3, 32]);
    assert!(get_pvs(&leaves, &vis, 2, 30).is_empty());
}

#[test]
fn lightmaps_of_a_face() {
    let face = BspFace {
        plane_id: 0,
        side: BspFaceSide::Front,
        edge_id: 0,
        edge_count: 3,
        texinfo_id: 0,
        light_styles: [0, 1, 255, 2],
        lightmap_id: Some(1),
        texture_mins: [0, 0],
        extents: [16, 0],
    };
    let data: Vec<u8> = (0..10).collect();
    let maps = face_lightmaps(&[face], &data, 0);
    assert_eq!(maps.len(), 2);
    assert_eq!(maps[0].width(), 2);
    assert_eq!(maps[0].height(), 1);
    assert_eq!(maps[0].data(), &[1, 2]);
    assert_eq!(maps[1].data(), &[3, 4]);
}

#[test]
fn texinfo_models_and_entities() {
    let mut t = Vec::new();
    for w in [1u32, 2, 3, 4, 5, 6, 7, 8] {
        t.extend_from_slice(&w.to_le_bytes());
    }
    t.extend_from_slice(&le32(2));
    t.extend_from_slice(&le32(1));
    let infos = load_texinfos(&t, 0, 40, 3).unwrap();
    assert_eq!(infos[0].s_vector, [1, 2, 3]);
    assert_eq!(infos[0].t_offset, 8);
    assert_eq!(infos[0].tex_id, 2);
    assert!(infos[0].special);
    assert!(load_texinfos(&t, 0, 40, 1).is_err());

    let mut m = vec![0u8; 36];
    for v in [0i32, 1, 2, 3, 4, 5, 6] {
        m.extend_from_slice(&le32(v));
    }
    let models = load_models(&m, 0, 64).unwrap();
    assert_eq!(models[0].collision_node_ids, [0, 1, 2]);
    assert_eq!(models[0].leaf_count, 4);
    assert_eq!(models[0].face_id, 5);
    assert_eq!(models[0].face_count, 6);
    assert_eq!(collision_node_counts(&models[0], 10), [10, 9, 8]);
    let mut two = m.clone();
    two.extend_from_slice(&m);
    let both = load_models(&two, 0, 128).unwrap();
    assert_eq!(model_leaf_ids(&both), vec![0, 4]);

    let ents = b"{ }\0rest";
    assert_eq!(load_entities(ents, 0, 4).unwrap(), "{ }\0");
    assert!(load_entities(ents, 0, 8).is_err());
    assert_eq!(load_entities(b"abc", 1, 2).unwrap(), "bc");
    assert!(load_entities(&[0xff, 0], 0, 2).is_err());
    assert_eq!(load_entities(b"abc", 7, 0).unwrap(), "");
    assert_eq!(section_bytes(b"abcdef", 2, 3).unwrap(), b"cde".to_vec());
    assert!(section_bytes(b"abcdef", 2, 10).is_err());
    assert!(section_bytes(b"abc", 9, 0).unwrap().is_empty());
    assert!(section_bytes(b"abc", 9, 1).is_err());
}

#[test]
fn hull_from_render_tree() {
    let leaf = BspLeaf {
        contents: BspLeafContents::Lava,
        vis_offset: None,
        min: [0; 3],
        max: [0; 3],
        facelist_id: 0,
        facelist_count: 0,
        sounds: [0; 4],
    };
    let node = BspRenderNode {
        plane_id: 7,
        children: [BspRenderNodeChild::Node(1), BspRenderNodeChild::Leaf(0)],
        min: [0; 3],
        max: [0; 3],
        face_id: 0,
        face_count: 0,
    };
    let hull = render_as_collision_nodes(&vec![node], &vec![leaf]);
    assert_eq!(hull[0].plane_id, 7);
    assert_eq!(
        hull[0].children,
        [BspCollisionNodeChild::Node(1), BspCollisionNodeChild::Contents(BspLeafContents::Lava)]
    );
}
