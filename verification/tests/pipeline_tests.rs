use obj_loader::ObjError;
use obj_loader::assemble::TextureOutcome;
use obj_loader::assemble::assemble_scene;
use obj_loader::geometry::FetchOutcome;
use obj_loader::geometry::parse_geometry;
use obj_loader::geometry::resolve_material_libs;
use obj_loader::material::collect_texture_refs;
use obj_loader::scanner::get_material_lib_paths;

fn err_of<T, E>(r: Result<T, E>) -> E {
    match r {
        Err(e) => e,
        Ok(_) => panic!("expected an error"),
    }
}

const TRIANGLE_OBJ: &[u8] = b"o tri\nv 0 0 0\nv 1 0 0\nv 0 1 0\nf 1 2 3\n";

const TEXTURED_OBJ: &[u8] =
    b"mtllib scene.mtl\no quad\nv 0 0 0\nv 1 0 0\nv 0 1 0\nusemtl painted\nf 1 2 3\n";

const SCENE_MTL: &[u8] = b"newmtl painted\nKd 0.5 0.25 1.0\nNs 16\nmap_Kd wall.png\n";

#[test]
fn empty_material_index_load_proceeds() {
    let paths = get_material_lib_paths(TRIANGLE_OBJ).unwrap();
    assert!(paths.is_empty());
    let libs = resolve_material_libs(&paths, &Vec::new()).unwrap();
    assert!(libs.is_empty());
    let parsed = parse_geometry(TRIANGLE_OBJ, &libs).unwrap();
    assert_eq!(parsed.meshes.len(), 1);
    assert!(parsed.materials.is_empty());
}

#[test]
fn missing_material_library_fails_the_load_with_fetch_error() {
    let paths = get_material_lib_paths(TEXTURED_OBJ).unwrap();
    assert_eq!(paths, vec![b"scene.mtl".to_vec()]);
    let fetched = vec![FetchOutcome::Missing];
    assert_eq!(err_of(resolve_material_libs(&paths, &fetched)), ObjError::FetchError);
}

#[test]
fn unparseable_material_library_fails_the_load() {
    let paths = vec![b"scene.mtl".to_vec()];
    let fetched = vec![FetchOutcome::Fetched(b"newmtl ok\nKd 1 oops 0\n".to_vec())];
    assert_eq!(err_of(resolve_material_libs(&paths, &fetched)), ObjError::InvalidObjFormat);
}

#[test]
fn reference_absent_from_index_is_a_reference_error() {
    let libs = resolve_material_libs(&Vec::new(), &Vec::new()).unwrap();
    assert_eq!(err_of(parse_geometry(TEXTURED_OBJ, &libs)), ObjError::ReferenceError);
}

#[test]
fn malformed_geometry_is_invalid_format() {
    let libs = resolve_material_libs(&Vec::new(), &Vec::new()).unwrap();
    let bad = b"v 1 zz 0\n";
    assert_eq!(err_of(parse_geometry(bad, &libs)), ObjError::InvalidObjFormat);
}

#[test]
fn one_triangle_emits_one_of_each_asset() {
    let paths = get_material_lib_paths(TRIANGLE_OBJ).unwrap();
    let libs = resolve_material_libs(&paths, &Vec::new()).unwrap();
    let parsed = parse_geometry(TRIANGLE_OBJ, &libs).unwrap();
    let outcomes = Vec::new();
    assert!(collect_texture_refs(&parsed.materials).is_empty());
    let out = assemble_scene(&parsed, &outcomes).unwrap();

    assert_eq!(out.meshes.len(), 1);
    assert_eq!(out.meshes[0].label, b"tri".to_vec());
    assert_eq!(out.meshes[0].data.positions.len(), 3);
    let zero = 0.0f32.to_bits();
    let one = 1.0f32.to_bits();
    assert_eq!(out.meshes[0].data.positions[0], vec![zero, zero, zero]);
    assert_eq!(out.meshes[0].data.positions[1], vec![one, zero, zero]);
    assert_eq!(out.meshes[0].data.positions[2], vec![zero, one, zero]);
    assert!(out.meshes[0].data.normals.is_empty());
    assert!(out.meshes[0].data.texcoords.is_empty());
    assert_eq!(out.meshes[0].data.indices, vec![0u32, 1, 2]);

    assert_eq!(out.submeshes.len(), 1);
    assert_eq!(out.submeshes[0].label, b"ObjMesh0".to_vec());
    assert_eq!(out.submeshes[0].mesh, b"tri".to_vec());
    assert!(out.submeshes[0].material.is_none());

    assert!(out.scene.materials.is_empty());
    assert_eq!(out.scene.meshes.len(), 1);
    assert_eq!(out.graph.children.len(), 1);
    assert_eq!(out.graph.children[0].mesh, b"tri".to_vec());
    assert!(out.textures.is_empty());
    assert!(out.materials.is_empty());
}

#[test]
fn textured_load_links_material_and_shares_texture() {
    let paths = get_material_lib_paths(TEXTURED_OBJ).unwrap();
    let fetched = vec![FetchOutcome::Fetched(SCENE_MTL.to_vec())];
    let libs = resolve_material_libs(&paths, &fetched).unwrap();
    let parsed = parse_geometry(TEXTURED_OBJ, &libs).unwrap();
    assert_eq!(parsed.materials.len(), 1);
    let d = &parsed.materials[0];
    assert_eq!(d.name, b"painted".to_vec());
    assert_eq!(d.diffuse, (0.5f32.to_bits(), 0.25f32.to_bits(), 1.0f32.to_bits()));
    assert_eq!(d.shininess, 16.0f32.to_bits());
    assert_eq!(d.diffuse_texture, b"wall.png".to_vec());

    let refs = collect_texture_refs(&parsed.materials);
    assert_eq!(refs, vec![b"wall.png".to_vec()]);
    let outcomes = vec![TextureOutcome::Decoded { width: 1, height: 1, rgba: vec![9, 9, 9, 9] }];
    let out = assemble_scene(&parsed, &outcomes).unwrap();
    assert_eq!(out.textures.len(), 1);
    assert_eq!(out.textures[0].label, b"wall.png".to_vec());
    assert_eq!(out.materials.len(), 1);
    assert_eq!(out.materials[0].label, b"painted".to_vec());
    assert_eq!(
        out.materials[0].record.base_color_texture.as_ref().unwrap(),
        &b"wall.png".to_vec(),
    );
    assert_eq!(out.submeshes[0].material.as_ref().unwrap(), &b"painted".to_vec());
}

#[test]
fn materials_from_two_libraries_are_flattened_in_order() {
    let src: &[u8] = b"mtllib a.mtl\nmtllib b.mtl\nv 0 0 0\nv 1 0 0\nv 0 1 0\nusemtl second\nf 1 2 3\n";
    let paths = get_material_lib_paths(src).unwrap();
    assert_eq!(paths, vec![b"a.mtl".to_vec(), b"b.mtl".to_vec()]);
    let fetched = vec![
        FetchOutcome::Fetched(b"newmtl first\nKd 1 0 0\n".to_vec()),
        FetchOutcome::Fetched(b"newmtl second\nKd 0 1 0\n".to_vec()),
    ];
    let libs = resolve_material_libs(&paths, &fetched).unwrap();
    let parsed = parse_geometry(src, &libs).unwrap();
    assert_eq!(parsed.materials.len(), 2);
    assert_eq!(parsed.materials[0].name, b"first".to_vec());
    assert_eq!(parsed.materials[1].name, b"second".to_vec());
    assert_eq!(parsed.meshes.len(), 1);
    assert_eq!(parsed.meshes[0].material_id, Some(1));
    let out = assemble_scene(&parsed, &Vec::new()).unwrap();
    assert_eq!(out.submeshes[0].material.as_ref().unwrap(), &b"second".to_vec());
    assert_eq!(out.scene.materials, vec![b"first".to_vec(), b"second".to_vec()]);
}

#[test]
fn failed_texture_fetch_aborts_with_fetch_error() {
    let paths = get_material_lib_paths(TEXTURED_OBJ).unwrap();
    let fetched = vec![FetchOutcome::Fetched(SCENE_MTL.to_vec())];
    let libs = resolve_material_libs(&paths, &fetched).unwrap();
    let parsed = parse_geometry(TEXTURED_OBJ, &libs).unwrap();
    let outcomes = vec![TextureOutcome::FetchFailed];
    assert_eq!(err_of(assemble_scene(&parsed, &outcomes)), ObjError::FetchError);
}

#[test]
fn failed_texture_decode_aborts_with_decode_error() {
    let paths = get_material_lib_paths(TEXTURED_OBJ).unwrap();
    let fetched = vec![FetchOutcome::Fetched(SCENE_MTL.to_vec())];
    let libs = resolve_material_libs(&paths, &fetched).unwrap();
    let parsed = parse_geometry(TEXTURED_OBJ, &libs).unwrap();
    let outcomes = vec![TextureOutcome::DecodeFailed];
    assert_eq!(err_of(assemble_scene(&parsed, &outcomes)), ObjError::DecodeError);
    let short = vec![TextureOutcome::Decoded { width: 2, height: 2, rgba: vec![0, 0, 0, 0] }];
    assert_eq!(err_of(assemble_scene(&parsed, &short)), ObjError::DecodeError);
}

#[test]
fn corrupt_sibling_record_aborts_the_whole_load() {
    let libs = resolve_material_libs(&Vec::new(), &Vec::new()).unwrap();
    let parsed = parse_geometry(TRIANGLE_OBJ, &libs).unwrap();
    let mut broken = parsed;
    // A second record whose flat position array is not divisible by 3.
    broken.meshes.push(obj_loader::mesh::RawMesh {
        name: b"bad".to_vec(),
        positions: vec![1, 2, 3, 4],
        normals: Vec::new(),
        texcoords: Vec::new(),
        indices: Vec::new(),
        material_id: None,
    });
    let out = assemble_scene(&broken, &Vec::new());
    assert_eq!(err_of(out), ObjError::ChunkError);
}

#[test]
fn bare_usemtl_line_is_rejected_as_invalid() {
    let libs = resolve_material_libs(&Vec::new(), &Vec::new()).unwrap();
    let bad = b"usemtl\nv 0 0 0\n";
    assert_eq!(err_of(parse_geometry(bad, &libs)), ObjError::InvalidObjFormat);
}

#[test]
fn multibyte_whitespace_before_keyword_is_rejected() {
    let libs = resolve_material_libs(&Vec::new(), &Vec::new()).unwrap();
    let led = "\u{00A0}o thing\nv 0 0 0\n".as_bytes();
    assert_eq!(err_of(parse_geometry(led, &libs)), ObjError::InvalidObjFormat);
    let split = "usemtl\u{00A0}m\nv 0 0 0\n".as_bytes();
    assert_eq!(err_of(parse_geometry(split, &libs)), ObjError::InvalidObjFormat);
}

#[test]
fn overlong_face_field_is_rejected_as_invalid() {
    let libs = resolve_material_libs(&Vec::new(), &Vec::new()).unwrap();
    let bad = b"v 0 0 0\nv 1 0 0\nv 0 1 0\nf 1/1/1/1 2 3\n";
    assert_eq!(err_of(parse_geometry(bad, &libs)), ObjError::InvalidObjFormat);
}

#[test]
fn out_of_range_face_indices_are_rejected_as_invalid() {
    let libs = resolve_material_libs(&Vec::new(), &Vec::new()).unwrap();
    let zero = b"v 0 0 0\nv 1 0 0\nv 0 1 0\nf 0 1 2\n";
    assert_eq!(err_of(parse_geometry(zero, &libs)), ObjError::InvalidObjFormat);
    let deep = b"v 0 0 0\nf -2 -2 -2\n";
    assert_eq!(err_of(parse_geometry(deep, &libs)), ObjError::InvalidObjFormat);
}

#[test]
fn face_field_without_vertex_component_is_rejected() {
    let libs = resolve_material_libs(&Vec::new(), &Vec::new()).unwrap();
    let bad = b"v 0 0 0\nv 1 0 0\nv 0 1 0\nf /1 2 3\n";
    assert_eq!(err_of(parse_geometry(bad, &libs)), ObjError::InvalidObjFormat);
}

#[test]
fn in_range_relative_face_indices_still_load() {
    let libs = resolve_material_libs(&Vec::new(), &Vec::new()).unwrap();
    let src = b"o rel\nv 0 0 0\nv 1 0 0\nv 0 1 0\nf -3 -2 -1\n";
    let parsed = parse_geometry(src, &libs).unwrap();
    assert_eq!(parsed.meshes.len(), 1);
    assert_eq!(parsed.meshes[0].indices, vec![0u32, 1, 2]);
}

#[test]
fn byte_identical_loads_yield_identical_values() {
    let run = || {
        let paths = get_material_lib_paths(TEXTURED_OBJ).unwrap();
        let fetched = vec![FetchOutcome::Fetched(SCENE_MTL.to_vec())];
        let libs = resolve_material_libs(&paths, &fetched).unwrap();
        let parsed = parse_geometry(TEXTURED_OBJ, &libs).unwrap();
        let outcomes =
            vec![TextureOutcome::Decoded { width: 1, height: 1, rgba: vec![1, 2, 3, 4] }];
        assemble_scene(&parsed, &outcomes).unwrap()
    };
    let a = run();
    let b = run();
    assert_eq!(a.meshes.len(), b.meshes.len());
    for (ma, mb) in a.meshes.iter().zip(b.meshes.iter()) {
        assert_eq!(ma.label, mb.label);
        assert_eq!(ma.data.positions, mb.data.positions);
        assert_eq!(ma.data.normals, mb.data.normals);
        assert_eq!(ma.data.texcoords, mb.data.texcoords);
        assert_eq!(ma.data.indices, mb.data.indices);
    }
    assert_eq!(a.materials.len(), b.materials.len());
    for (ra, rb) in a.materials.iter().zip(b.materials.iter()) {
        assert_eq!(ra.label, rb.label);
        assert_eq!(ra.record.base_color, rb.record.base_color);
        assert_eq!(ra.record.reflectance, rb.record.reflectance);
        assert_eq!(ra.record.base_color_texture, rb.record.base_color_texture);
    }
    assert_eq!(a.scene.materials, b.scene.materials);
    assert_eq!(a.scene.meshes, b.scene.meshes);
}
