//! Material descriptors, renderer material records, and texture policy.
//!
//! A parsed material descriptor keeps the fields of the legacy shading
//! model; building a record maps them onto a physically-based layout:
//! diffuse becomes base color, shininess passes through as reflectance,
//! and the diffuse/normal/specular/ambient texture references fill the
//! base-color/normal-map/metallic-roughness/occlusion slots. That channel
//! mapping is a deliberate, lossy reinterpretation kept for compatibility,
//! not a physically correct conversion.
//!
//! Color and shininess scalars are carried as the 32-bit patterns of the
//! source file's floating-point values.

use vstd::prelude::*;
use crate::clone_bytes;
use crate::bytes_eq;

verus! {

/// A parsed material: name, diffuse color triple, shininess scalar, and up
/// to four texture-reference strings, each possibly empty.
pub struct MaterialDescriptor {
    pub name: Vec<u8>,
    pub diffuse: (u32, u32, u32),
    pub shininess: u32,
    pub diffuse_texture: Vec<u8>,
    pub normal_texture: Vec<u8>,
    pub specular_texture: Vec<u8>,
    pub ambient_texture: Vec<u8>,
}

/// The mathematical value of a material descriptor.
pub ghost struct MaterialDescView {
    pub name: Seq<u8>,
    pub diffuse: (u32, u32, u32),
    pub shininess: u32,
    pub diffuse_texture: Seq<u8>,
    pub normal_texture: Seq<u8>,
    pub specular_texture: Seq<u8>,
    pub ambient_texture: Seq<u8>,
}

impl View for MaterialDescriptor {
    type V = MaterialDescView;

    open spec fn view(&self) -> MaterialDescView {
        MaterialDescView {
            name: self.name@,
            diffuse: self.diffuse,
            shininess: self.shininess,
            diffuse_texture: self.diffuse_texture@,
            normal_texture: self.normal_texture@,
            specular_texture: self.specular_texture@,
            ambient_texture: self.ambient_texture@,
        }
    }
}

impl DeepView for MaterialDescriptor {
    type V = MaterialDescView;

    open spec fn deep_view(&self) -> MaterialDescView {
        self.view()
    }
}

/// A built renderer material: base color, reflectance, and up to four
/// optional texture handles. A handle is the label of the texture asset,
/// which is the literal reference string of the descriptor.
pub struct MaterialRecord {
    pub base_color: (u32, u32, u32),
    pub reflectance: u32,
    pub base_color_texture: Option<Vec<u8>>,
    pub normal_map: Option<Vec<u8>>,
    pub metallic_roughness_texture: Option<Vec<u8>>,
    pub occlusion_texture: Option<Vec<u8>>,
}

/// The mathematical value of a material record.
pub ghost struct MaterialRecordView {
    pub base_color: (u32, u32, u32),
    pub reflectance: u32,
    pub base_color_texture: Option<Seq<u8>>,
    pub normal_map: Option<Seq<u8>>,
    pub metallic_roughness_texture: Option<Seq<u8>>,
    pub occlusion_texture: Option<Seq<u8>>,
}

impl View for MaterialRecord {
    type V = MaterialRecordView;

    open spec fn view(&self) -> MaterialRecordView {
        MaterialRecordView {
            base_color: self.base_color,
            reflectance: self.reflectance,
            base_color_texture: match self.base_color_texture {
                Some(ref p) => Some(p@),
                None => None,
            },
            normal_map: match self.normal_map {
                Some(ref p) => Some(p@),
                None => None,
            },
            metallic_roughness_texture: match self.metallic_roughness_texture {
                Some(ref p) => Some(p@),
                None => None,
            },
            occlusion_texture: match self.occlusion_texture {
                Some(ref p) => Some(p@),
                None => None,
            },
        }
    }
}

/// Texture filtering for one sampler axis.
#[derive(Debug, Clone, Copy, PartialEq, Eq, Structural)]
pub enum FilterMode {
    Nearest,
    Linear,
}

/// The fixed sampler policy of every resolved texture.
#[derive(Debug, Clone, Copy, PartialEq, Eq, Structural)]
pub struct SamplerPolicy {
    pub mag_filter: FilterMode,
    pub min_filter: FilterMode,
}

/// The pixel format every decoded image is normalized to.
#[derive(Debug, Clone, Copy, PartialEq, Eq, Structural)]
pub enum TextureFormat {
    Rgba8UnormSrgb,
}

/// A decoded texture normalized to 8-bit-per-channel RGBA with
/// gamma-corrected sampling and linear filtering.
pub struct TextureAsset {
    pub width: u32,
    pub height: u32,
    pub rgba: Vec<u8>,
    pub sampler: SamplerPolicy,
    pub format: TextureFormat,
}

impl TextureAsset {
    /// The pixel buffer holds exactly four bytes per pixel, and the
    /// normalization policy is in force.
    pub open spec fn wf(self) -> bool {
        &&& self.rgba@.len() == 4 * self.width * self.height
        &&& self.sampler == (SamplerPolicy { mag_filter: FilterMode::Linear, min_filter: FilterMode::Linear })
        &&& self.format == TextureFormat::Rgba8UnormSrgb
    }
}

/// The fixed sampler policy: linear magnification and minification.
pub fn texture_sampler() -> (r: SamplerPolicy)
    ensures
        r == (SamplerPolicy { mag_filter: FilterMode::Linear, min_filter: FilterMode::Linear }),
{
    SamplerPolicy { mag_filter: FilterMode::Linear, min_filter: FilterMode::Linear }
}

/// Normalizes a decoded pixel buffer: the fixed sampler policy and the
/// forced 8-bit RGBA sRGB format are applied unconditionally.
pub fn normalize_texture(width: u32, height: u32, rgba: Vec<u8>) -> (r: TextureAsset)
    requires
        rgba@.len() == 4 * width * height,
    ensures
        r.wf(),
        r.width == width,
        r.height == height,
        r.rgba@ == rgba@,
{
    TextureAsset {
        width,
        height,
        rgba,
        sampler: texture_sampler(),
        format: TextureFormat::Rgba8UnormSrgb,
    }
}

/// The label of the texture asset resolved for a reference string: the
/// literal reference itself.
pub fn texture_label(texture: &Vec<u8>) -> (r: Vec<u8>)
    ensures
        r@ == texture@,
{
    clone_bytes(texture.as_slice())
}

/// The label of the material asset built for a descriptor: its name.
pub fn material_label(material: &MaterialDescriptor) -> (r: Vec<u8>)
    ensures
        r@ == material@.name,
{
    clone_bytes(material.name.as_slice())
}

/// The optional texture handle for one reference string: none for the
/// empty reference, else the label of the resolved texture.
pub open spec fn opt_handle(p: Seq<u8>) -> Option<Seq<u8>> {
    if p.len() == 0 {
        None
    } else {
        Some(p)
    }
}

/// The record built for a descriptor: base color and reflectance taken
/// verbatim, and each texture slot filled from its legacy channel.
pub open spec fn build_material_spec(d: MaterialDescView) -> MaterialRecordView {
    MaterialRecordView {
        base_color: d.diffuse,
        reflectance: d.shininess,
        base_color_texture: opt_handle(d.diffuse_texture),
        normal_map: opt_handle(d.normal_texture),
        metallic_roughness_texture: opt_handle(d.specular_texture),
        occlusion_texture: opt_handle(d.ambient_texture),
    }
}

/// Builds the optional handle for one reference string.
fn opt_handle_exec(p: &Vec<u8>) -> (r: Option<Vec<u8>>)
    ensures
        match r {
            Some(h) => opt_handle(p@) == Some(h@),
            None => opt_handle(p@) is None,
        },
{
    if p.len() == 0 {
        None
    } else {
        Some(clone_bytes(p.as_slice()))
    }
}

/// Builds the renderer material record for one descriptor.
///
/// An empty reference string in any channel yields no texture for that
/// slot; it is not an error.
pub fn build_material(d: &MaterialDescriptor) -> (r: MaterialRecord)
    ensures
        r@ == build_material_spec(d@),
{
    let r = MaterialRecord {
        base_color: d.diffuse,
        reflectance: d.shininess,
        base_color_texture: opt_handle_exec(&d.diffuse_texture),
        normal_map: opt_handle_exec(&d.normal_texture),
        metallic_roughness_texture: opt_handle_exec(&d.specular_texture),
        occlusion_texture: opt_handle_exec(&d.ambient_texture),
    };
    r
}

/// A descriptor with an empty reference in a channel gets no texture
/// handle in the corresponding slot of its built record.
pub proof fn lemma_empty_texture_ref(d: MaterialDescView)
    ensures
        d.diffuse_texture.len() == 0 ==> build_material_spec(d).base_color_texture is None,
        d.normal_texture.len() == 0 ==> build_material_spec(d).normal_map is None,
        d.specular_texture.len() == 0 ==> build_material_spec(d).metallic_roughness_texture is None,
        d.ambient_texture.len() == 0 ==> build_material_spec(d).occlusion_texture is None,
{
}

/// The four texture references of one descriptor, in channel order.
pub open spec fn refs_of_desc(d: MaterialDescView) -> Seq<Seq<u8>> {
    seq![d.diffuse_texture, d.normal_texture, d.specular_texture, d.ambient_texture]
}

/// Every texture reference of every descriptor, in encounter order.
pub open spec fn all_refs(ds: Seq<MaterialDescView>) -> Seq<Seq<u8>>
    decreases ds.len(),
{
    if ds.len() == 0 {
        Seq::empty()
    } else {
        all_refs(ds.drop_last()) + refs_of_desc(ds.last())
    }
}

/// Appends a reference to the distinct-reference list unless it is empty
/// or already present.
pub open spec fn add_ref(acc: Seq<Seq<u8>>, r: Seq<u8>) -> Seq<Seq<u8>> {
    if r.len() == 0 || acc.contains(r) {
        acc
    } else {
        acc + seq![r]
    }
}

/// The distinct non-empty references of a reference list, in first-encounter
/// order.
pub open spec fn dedup_refs(rs: Seq<Seq<u8>>) -> Seq<Seq<u8>>
    decreases rs.len(),
{
    if rs.len() == 0 {
        Seq::empty()
    } else {
        add_ref(dedup_refs(rs.drop_last()), rs.last())
    }
}

/// The set of texture references one load resolves: each distinct non-empty
/// reference string of the descriptors, once, in first-encounter order.
pub open spec fn collect_refs_spec(ds: Seq<MaterialDescView>) -> Seq<Seq<u8>> {
    dedup_refs(all_refs(ds))
}

/// Whether the list holds an element with these bytes.
fn contains_bytes(rs: &Vec<Vec<u8>>, x: &Vec<u8>) -> (r: bool)
    ensures
        r == rs.deep_view().contains(x@),
{
    let mut t: usize = 0;
    while t < rs.len()
        invariant
            t <= rs@.len(),
            forall|i: int| 0 <= i < t ==> rs.deep_view()[i] != x@,
        decreases rs@.len() - t,
    {
        let hit = bytes_eq(rs[t].as_slice(), x.as_slice());
        assert(rs.deep_view()[t as int] == rs@[t as int]@);
        if hit {
            assert(rs.deep_view()[t as int] == x@);
            return true;
        }
        t = t + 1;
    }
    assert(forall|i: int| 0 <= i < rs.deep_view().len() ==> rs.deep_view()[i] != x@);
    false
}

/// Collects the distinct non-empty texture references of the descriptors,
/// in first-encounter order; repeated references across materials resolve
/// to the one shared entry.
pub fn collect_texture_refs(ds: &Vec<MaterialDescriptor>) -> (r: Vec<Vec<u8>>)
    ensures
        r.deep_view() == collect_refs_spec(ds.deep_view()),
{
    let mut flat: Vec<Vec<u8>> = Vec::new();
    let mut i: usize = 0;
    while i < ds.len()
        invariant
            i <= ds@.len(),
            flat.deep_view() == all_refs(ds.deep_view().take(i as int)),
        decreases ds@.len() - i,
    {
        let ghost pre = flat.deep_view();
        let d = &ds[i];
        flat.push(clone_bytes(d.diffuse_texture.as_slice()));
        flat.push(clone_bytes(d.normal_texture.as_slice()));
        flat.push(clone_bytes(d.specular_texture.as_slice()));
        flat.push(clone_bytes(d.ambient_texture.as_slice()));
        proof {
            let dsv = ds.deep_view();
            assert(flat.deep_view() =~~= pre + refs_of_desc(dsv[i as int]));
            assert(dsv.take(i + 1).drop_last() =~= dsv.take(i as int));
            assert(dsv.take(i + 1).last() == dsv[i as int]);
            assert(all_refs(dsv.take(i + 1)) == all_refs(dsv.take(i as int)) + refs_of_desc(dsv[i as int]));
        }
        i = i + 1;
    }
    proof {
        assert(ds.deep_view().take(ds@.len() as int) =~= ds.deep_view());
    }
    let mut out: Vec<Vec<u8>> = Vec::new();
    let mut j: usize = 0;
    while j < flat.len()
        invariant
            j <= flat@.len(),
            out.deep_view() == dedup_refs(flat.deep_view().take(j as int)),
        decreases flat@.len() - j,
    {
        let ghost pre = out.deep_view();
        let ghost fv = flat.deep_view();
        let x = &flat[j];
        assert(fv[j as int] == flat@[j as int]@);
        if x.len() != 0 && !contains_bytes(&out, x) {
            out.push(clone_bytes(x.as_slice()));
            proof {
                assert(out.deep_view() =~~= pre + seq![fv[j as int]]);
            }
        }
        proof {
            assert(fv.take(j + 1).drop_last() =~= fv.take(j as int));
            assert(fv.take(j + 1).last() == fv[j as int]);
            assert(dedup_refs(fv.take(j + 1)) == add_ref(dedup_refs(fv.take(j as int)), fv[j as int]));
        }
        j = j + 1;
    }
    proof {
        assert(flat.deep_view().take(flat@.len() as int) =~= flat.deep_view());
    }
    out
}

/// The distinct-reference list holds no duplicates, and holds exactly the
/// non-empty references of the list it was built from.
pub proof fn lemma_dedup_refs_distinct(rs: Seq<Seq<u8>>)
    ensures
        forall|i: int, j: int|
            0 <= i < j < dedup_refs(rs).len() ==> dedup_refs(rs)[i] != dedup_refs(rs)[j],
        forall|r: Seq<u8>|
            #[trigger] dedup_refs(rs).contains(r) <==> (rs.contains(r) && r.len() != 0),
    decreases rs.len(),
{
    if rs.len() == 0 {
        assert forall|r: Seq<u8>| !(#[trigger] dedup_refs(rs).contains(r)) by {
            assert(dedup_refs(rs).len() == 0);
        }
        assert forall|r: Seq<u8>| !rs.contains(r) by {
            assert(rs.len() == 0);
        }
    } else {
        let prev = dedup_refs(rs.drop_last());
        let x = rs.last();
        lemma_dedup_refs_distinct(rs.drop_last());
        assert forall|r: Seq<u8>|
            #[trigger] dedup_refs(rs).contains(r) <==> (rs.contains(r) && r.len() != 0) by {
            if x.len() == 0 || prev.contains(x) {
                assert(dedup_refs(rs) == prev);
                if rs.contains(r) && r.len() != 0 {
                    let w = choose|w: int| 0 <= w < rs.len() && rs[w] == r;
                    if w < rs.len() - 1 {
                        assert(rs.drop_last()[w] == r);
                        assert(rs.drop_last().contains(r));
                    } else {
                        assert(r == x);
                        assert(prev.contains(r));
                    }
                }
                if prev.contains(r) {
                    let w = choose|w: int| 0 <= w < prev.len() && prev[w] == r;
                    assert(rs.drop_last().contains(r) && r.len() != 0);
                    let u = choose|u: int| 0 <= u < rs.drop_last().len() && rs.drop_last()[u] == r;
                    assert(rs[u] == r);
                    assert(rs.contains(r));
                }
            } else {
                assert(dedup_refs(rs) == prev + seq![x]);
                if rs.contains(r) && r.len() != 0 {
                    let w = choose|w: int| 0 <= w < rs.len() && rs[w] == r;
                    if w < rs.len() - 1 {
                        assert(rs.drop_last()[w] == r);
                        assert(rs.drop_last().contains(r));
                        assert(prev.contains(r));
                        let u = choose|u: int| 0 <= u < prev.len() && prev[u] == r;
                        assert(dedup_refs(rs)[u] == r);
                        assert(dedup_refs(rs).contains(r));
                    } else {
                        assert(r == x);
                        assert(dedup_refs(rs)[prev.len() as int] == x);
                        assert(dedup_refs(rs).contains(r));
                    }
                }
                if dedup_refs(rs).contains(r) {
                    let w = choose|w: int| 0 <= w < dedup_refs(rs).len() && dedup_refs(rs)[w] == r;
                    if w < prev.len() {
                        assert(prev.contains(r));
                        let u = choose|u: int| 0 <= u < rs.drop_last().len() && rs.drop_last()[u] == r;
                        assert(rs[u] == r);
                        assert(rs.contains(r));
                    } else {
                        assert(r == x);
                        assert(rs.contains(r)) by {
                            assert(rs[rs.len() - 1] == x);
                        }
                    }
                }
            }
        }
        if !(x.len() == 0 || prev.contains(x)) {
            assert forall|i: int, j: int|
                0 <= i < j < dedup_refs(rs).len()
                implies dedup_refs(rs)[i] != dedup_refs(rs)[j] by {
                if j < prev.len() {
                } else {
                    assert(dedup_refs(rs)[j] == x);
                    assert(dedup_refs(rs)[i] == prev[i]);
                    assert(prev.contains(prev[i]));
                }
            }
        }
    }
}

/// Every non-empty texture reference of a descriptor in the sequence is
/// among its collected references.
pub proof fn lemma_all_refs_contains(ds: Seq<MaterialDescView>, i: int)
    requires
        0 <= i < ds.len(),
    ensures
        forall|r: Seq<u8>| refs_of_desc(ds[i]).contains(r) ==> #[trigger] all_refs(ds).contains(r),
    decreases ds.len(),
{
    assert forall|r: Seq<u8>| refs_of_desc(ds[i]).contains(r)
        implies #[trigger] all_refs(ds).contains(r) by {
        if i == ds.len() - 1 {
            let w = choose|w: int| 0 <= w < refs_of_desc(ds[i]).len() && refs_of_desc(ds[i])[w] == r;
            assert(all_refs(ds)[all_refs(ds.drop_last()).len() + w] == r);
            assert(all_refs(ds).contains(r));
        } else {
            lemma_all_refs_contains(ds.drop_last(), i);
            assert(ds.drop_last()[i] == ds[i]);
            assert(all_refs(ds.drop_last()).contains(r));
            let w = choose|w: int| 0 <= w < all_refs(ds.drop_last()).len() && all_refs(ds.drop_last())[w] == r;
            assert(all_refs(ds)[w] == r);
            assert(all_refs(ds).contains(r));
        }
    }
}

/// Two materials that cite the same non-empty texture reference share one
/// resolved texture asset: the reference occurs exactly once among the
/// collected references, and both built records carry the same handle.
pub proof fn lemma_texture_sharing(ds: Seq<MaterialDescView>, i: int, j: int)
    requires
        0 <= i < ds.len(),
        0 <= j < ds.len(),
        ds[i].diffuse_texture == ds[j].diffuse_texture,
        ds[i].diffuse_texture.len() != 0,
    ensures
        collect_refs_spec(ds).contains(ds[i].diffuse_texture),
        forall|k1: int, k2: int|
            (0 <= k1 < collect_refs_spec(ds).len() && 0 <= k2 < collect_refs_spec(ds).len()
                && collect_refs_spec(ds)[k1] == ds[i].diffuse_texture
                && collect_refs_spec(ds)[k2] == ds[i].diffuse_texture) ==> k1 == k2,
        build_material_spec(ds[i]).base_color_texture == build_material_spec(ds[j]).base_color_texture,
{
    let r = ds[i].diffuse_texture;
    lemma_all_refs_contains(ds, i);
    assert(refs_of_desc(ds[i])[0] == r);
    assert(refs_of_desc(ds[i]).contains(r));
    lemma_dedup_refs_distinct(all_refs(ds));
    assert(collect_refs_spec(ds).contains(r));
    assert forall|k1: int, k2: int|
        (0 <= k1 < collect_refs_spec(ds).len() && 0 <= k2 < collect_refs_spec(ds).len()
            && collect_refs_spec(ds)[k1] == r && collect_refs_spec(ds)[k2] == r)
        implies k1 == k2 by {
        if k1 != k2 {
            if k1 < k2 {
                assert(collect_refs_spec(ds)[k1] != collect_refs_spec(ds)[k2]);
            } else {
                assert(collect_refs_spec(ds)[k2] != collect_refs_spec(ds)[k1]);
            }
        }
    }
}

} // verus!
