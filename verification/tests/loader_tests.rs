use obj_loader::ObjError;
use obj_loader::ObjLoader;
use obj_loader::bytes_eq;
use obj_loader::clone_bytes;
use obj_loader::assemble::obj_mesh_label;
use obj_loader::assemble::push_decimal;
use obj_loader::material::FilterMode;
use obj_loader::material::MaterialDescriptor;
use obj_loader::material::TextureFormat;
use obj_loader::material::build_material;
use obj_loader::material::collect_texture_refs;
use obj_loader::material::material_label;
use obj_loader::material::normalize_texture;
use obj_loader::material::texture_label;
use obj_loader::material::texture_sampler;
use obj_loader::mesh::RawMesh;
use obj_loader::mesh::build_mesh_data;
use obj_loader::mesh::chunk_by;
use obj_loader::scanner::get_material_lib_paths;

fn err_of<T, E>(r: Result<T, E>) -> E {
    match r {
        Err(e) => e,
        Ok(_) => panic!("expected an error"),
    }
}

fn descriptor(name: &str, diffuse_texture: &str) -> MaterialDescriptor {
    MaterialDescriptor {
        name: name.as_bytes().to_vec(),
        diffuse: (0, 0, 0),
        shininess: 0,
        diffuse_texture: diffuse_texture.as_bytes().to_vec(),
        normal_texture: Vec::new(),
        specular_texture: Vec::new(),
        ambient_texture: Vec::new(),
    }
}

#[test]
fn scanner_no_mtllib_is_empty() {
    let src = b"v 0 0 0\nv 1 0 0\nv 0 1 0\nf 1 2 3\n";
    let paths = get_material_lib_paths(src).unwrap();
    assert!(paths.is_empty());
}

#[test]
fn scanner_finds_paths_in_order_with_duplicates() {
    let src = b"mtllib a.mtl\nv 0 0 0\nmtllib b.mtl\nmtllib a.mtl";
    let paths = get_material_lib_paths(src).unwrap();
    assert_eq!(paths, vec![b"a.mtl".to_vec(), b"b.mtl".to_vec(), b"a.mtl".to_vec()]);
}

#[test]
fn scanner_handles_indentation_and_crlf() {
    let src = b"  mtllib \t one.mtl extra\r\nusemtl x\n";
    let paths = get_material_lib_paths(src).unwrap();
    assert_eq!(paths, vec![b"one.mtl".to_vec()]);
}

#[test]
fn scanner_splits_on_all_ascii_whitespace() {
    let src = b"mtllib\x0ca.mtl\nmtllib\x0bb.mtl\n";
    let paths = get_material_lib_paths(src).unwrap();
    assert_eq!(paths, vec![b"a.mtl".to_vec(), b"b.mtl".to_vec()]);
}

#[test]
fn scanner_rejects_mtllib_without_path() {
    let src = b"mtllib\nv 0 0 0\n";
    assert_eq!(err_of(get_material_lib_paths(src)), ObjError::InvalidObjFormat);
}

#[test]
fn scanner_rejects_non_text_bytes() {
    let src = [0xffu8, 0xfe, 0x6d, 0x74];
    assert_eq!(err_of(get_material_lib_paths(&src)), ObjError::InvalidObjFormat);
}

#[test]
fn chunk_by_cuts_exact_triples() {
    let flat = [1u32, 2, 3, 4, 5, 6];
    let chunks = chunk_by(&flat, 3).unwrap();
    assert_eq!(chunks, vec![vec![1u32, 2, 3], vec![4u32, 5, 6]]);
}

#[test]
fn chunk_by_empty_is_no_error() {
    let flat: [u32; 0] = [];
    assert!(chunk_by(&flat, 3).unwrap().is_empty());
}

#[test]
fn chunk_by_rejects_ragged_length() {
    let flat = [1u32, 2, 3, 4];
    assert_eq!(err_of(chunk_by(&flat, 3)), ObjError::ChunkError);
}

#[test]
fn build_mesh_data_rejects_ragged_positions() {
    let m = RawMesh {
        name: b"bad".to_vec(),
        positions: vec![1, 2, 3, 4],
        normals: Vec::new(),
        texcoords: Vec::new(),
        indices: vec![0],
        material_id: None,
    };
    assert_eq!(err_of(build_mesh_data(&m)), ObjError::ChunkError);
}

#[test]
fn build_mesh_data_keeps_indices_verbatim() {
    let m = RawMesh {
        name: b"tri".to_vec(),
        positions: vec![10, 11, 12, 20, 21, 22, 30, 31, 32],
        normals: Vec::new(),
        texcoords: vec![1, 2, 3, 4, 5, 6],
        indices: vec![0, 1, 2],
        material_id: None,
    };
    let data = build_mesh_data(&m).unwrap();
    assert_eq!(data.positions, vec![vec![10u32, 11, 12], vec![20u32, 21, 22], vec![30u32, 31, 32]]);
    assert!(data.normals.is_empty());
    assert_eq!(data.texcoords, vec![vec![1u32, 2], vec![3u32, 4], vec![5u32, 6]]);
    assert_eq!(data.indices, vec![0u32, 1, 2]);
}

#[test]
fn build_mesh_data_rejects_out_of_range_index() {
    let m = RawMesh {
        name: b"oob".to_vec(),
        positions: vec![1, 2, 3],
        normals: Vec::new(),
        texcoords: Vec::new(),
        indices: vec![1],
        material_id: None,
    };
    assert_eq!(err_of(build_mesh_data(&m)), ObjError::InvalidObjFormat);
}

#[test]
fn empty_diffuse_texture_means_no_base_color_texture() {
    let record = build_material(&descriptor("plain", ""));
    assert!(record.base_color_texture.is_none());
    assert!(record.normal_map.is_none());
    assert!(record.metallic_roughness_texture.is_none());
    assert!(record.occlusion_texture.is_none());
}

#[test]
fn non_empty_diffuse_texture_fills_base_color_slot() {
    let record = build_material(&descriptor("painted", "wall.png"));
    assert_eq!(record.base_color_texture.unwrap(), b"wall.png".to_vec());
}

#[test]
fn build_material_maps_legacy_channels() {
    let d = MaterialDescriptor {
        name: b"m".to_vec(),
        diffuse: (0.25f32.to_bits(), 0.5f32.to_bits(), 1.0f32.to_bits()),
        shininess: 8.0f32.to_bits(),
        diffuse_texture: b"d.png".to_vec(),
        normal_texture: b"n.png".to_vec(),
        specular_texture: b"s.png".to_vec(),
        ambient_texture: b"a.png".to_vec(),
    };
    let r = build_material(&d);
    assert_eq!(r.base_color, (0.25f32.to_bits(), 0.5f32.to_bits(), 1.0f32.to_bits()));
    assert_eq!(r.reflectance, 8.0f32.to_bits());
    assert_eq!(r.base_color_texture.unwrap(), b"d.png".to_vec());
    assert_eq!(r.normal_map.unwrap(), b"n.png".to_vec());
    assert_eq!(r.metallic_roughness_texture.unwrap(), b"s.png".to_vec());
    assert_eq!(r.occlusion_texture.unwrap(), b"a.png".to_vec());
}

#[test]
fn shared_texture_reference_is_collected_once() {
    let ds = vec![
        descriptor("first", "shared.png"),
        descriptor("second", "shared.png"),
        descriptor("third", "other.png"),
    ];
    let refs = collect_texture_refs(&ds);
    assert_eq!(refs, vec![b"shared.png".to_vec(), b"other.png".to_vec()]);
}

#[test]
fn empty_references_are_not_collected() {
    let ds = vec![descriptor("first", ""), descriptor("second", "")];
    assert!(collect_texture_refs(&ds).is_empty());
}

#[test]
fn sampler_policy_is_linear() {
    let s = texture_sampler();
    assert_eq!(s.mag_filter, FilterMode::Linear);
    assert_eq!(s.min_filter, FilterMode::Linear);
}

#[test]
fn normalized_texture_carries_policy_and_pixels() {
    let t = normalize_texture(1, 1, vec![1, 2, 3, 4]);
    assert_eq!(t.format, TextureFormat::Rgba8UnormSrgb);
    assert_eq!(t.sampler, texture_sampler());
    assert_eq!(t.rgba, vec![1u8, 2, 3, 4]);
}

#[test]
fn labels_are_the_literal_names() {
    assert_eq!(texture_label(&b"tex.png".to_vec()), b"tex.png".to_vec());
    assert_eq!(material_label(&descriptor("steel", "")), b"steel".to_vec());
    assert_eq!(obj_mesh_label(0), b"ObjMesh0".to_vec());
    assert_eq!(obj_mesh_label(12), b"ObjMesh12".to_vec());
}

#[test]
fn decimal_rendering_matches_formatting() {
    for n in [0usize, 7, 10, 99, 100, 65536, 1000000] {
        let mut out = Vec::new();
        push_decimal(&mut out, n);
        assert_eq!(out, format!("{}", n).into_bytes());
    }
}

#[test]
fn byte_helpers_behave() {
    assert!(bytes_eq(b"abc", b"abc"));
    assert!(!bytes_eq(b"abc", b"abd"));
    assert!(!bytes_eq(b"abc", b"ab"));
    assert_eq!(clone_bytes(b"xy"), b"xy".to_vec());
}

#[test]
fn loader_registers_the_obj_extension() {
    let loader = ObjLoader::default();
    assert_eq!(loader.extensions(), vec!["obj"]);
}
