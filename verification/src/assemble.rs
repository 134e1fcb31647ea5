//! Scene assembler: emits labeled mesh, material, texture and scene
//! assets from a parsed OBJ, its built materials, and its resolved
//! textures.
//!
//! Assets are emitted only after every prior stage has succeeded: a
//! failure anywhere aborts the whole load and nothing is handed to the
//! registry, so visibility is all-or-nothing. Each mesh asset is labeled
//! by its mesh name (two records sharing a name collide, and the
//! registry's last registration wins); each combined mesh+material asset
//! by its positional index; the aggregate scene description and the node
//! tree are one asset each.

use vstd::prelude::*;
use crate::ObjError;
use crate::clone_bytes;
use crate::geometry::ParsedObj;
use crate::geometry::ParsedObjView;
use crate::material::MaterialDescView;
use crate::material::MaterialRecord;
use crate::material::MaterialRecordView;
use crate::material::TextureAsset;
use crate::material::build_material;
use crate::material::build_material_spec;
use crate::material::collect_refs_spec;
use crate::material::collect_texture_refs;
use crate::material::lemma_texture_sharing;
use crate::material::material_label;
use crate::material::normalize_texture;
use crate::material::texture_label;
use crate::mesh::MeshData;
use crate::mesh::MeshDataView;
use crate::mesh::RawMesh;
use crate::mesh::RawMeshView;
use crate::mesh::build_mesh_data;
use crate::mesh::build_mesh_spec;
use crate::mesh::chunkable;
use crate::mesh::counts_consistent;

verus! {

/// The decimal digits of `n`, most significant first.
pub open spec fn dec_digits(n: nat) -> Seq<u8>
    decreases n,
{
    if n < 10 {
        seq![(48 + n) as u8]
    } else {
        dec_digits(n / 10) + seq![(48 + n % 10) as u8]
    }
}

/// Appends the decimal digits of `n`.
pub fn push_decimal(out: &mut Vec<u8>, n: usize)
    ensures
        final(out)@ == old(out)@ + dec_digits(n as nat),
    decreases n,
{
    if n < 10 {
        out.push(48 + (n as u8));
        assert(out@ =~= old(out)@ + dec_digits(n as nat));
    } else {
        push_decimal(out, n / 10);
        out.push(48 + ((n % 10) as u8));
        assert(out@ =~= old(out)@ + dec_digits(n as nat));
    }
}

/// The label of the combined mesh+material asset at position `i`:
/// `ObjMesh` followed by the decimal index.
pub open spec fn obj_mesh_label_spec(i: nat) -> Seq<u8> {
    seq![79u8, 98u8, 106u8, 77u8, 101u8, 115u8, 104u8] + dec_digits(i)
}

/// Builds the label of the combined mesh+material asset at position `i`.
pub fn obj_mesh_label(i: usize) -> (r: Vec<u8>)
    ensures
        r@ == obj_mesh_label_spec(i as nat),
{
    let mut r: Vec<u8> = Vec::new();
    r.push(79);
    r.push(98);
    r.push(106);
    r.push(77);
    r.push(101);
    r.push(115);
    r.push(104);
    assert(r@ =~= seq![79u8, 98u8, 106u8, 77u8, 101u8, 115u8, 104u8]);
    push_decimal(&mut r, i);
    r
}

/// The label of the mesh asset built for a record: its mesh name.
pub fn model_label(model: &RawMesh) -> (r: Vec<u8>)
    ensures
        r@ == model@.name,
{
    clone_bytes(model.name.as_slice())
}

/// The outcome the caller's texture capability reports for one reference:
/// decoded pixels, a failed fetch, or a failed decode.
pub enum TextureOutcome {
    Decoded { width: u32, height: u32, rgba: Vec<u8> },
    FetchFailed,
    DecodeFailed,
}

/// The mathematical value of a texture outcome.
pub ghost enum TextureOutcomeView {
    Decoded { width: u32, height: u32, rgba: Seq<u8> },
    FetchFailed,
    DecodeFailed,
}

impl View for TextureOutcome {
    type V = TextureOutcomeView;

    open spec fn view(&self) -> TextureOutcomeView {
        match self {
            TextureOutcome::Decoded { width, height, rgba } => TextureOutcomeView::Decoded {
                width: *width,
                height: *height,
                rgba: rgba@,
            },
            TextureOutcome::FetchFailed => TextureOutcomeView::FetchFailed,
            TextureOutcome::DecodeFailed => TextureOutcomeView::DecodeFailed,
        }
    }
}

impl DeepView for TextureOutcome {
    type V = TextureOutcomeView;

    open spec fn deep_view(&self) -> TextureOutcomeView {
        self.view()
    }
}

/// The error of the first failed texture resolution, in reference order:
/// a failed fetch is `FetchError`; a failed decode, or a decode whose
/// pixel buffer is not four bytes per pixel, is `DecodeError`.
pub open spec fn texture_error_spec(outs: Seq<TextureOutcomeView>) -> Option<ObjError>
    decreases outs.len(),
{
    if outs.len() == 0 {
        None
    } else {
        match outs[0] {
            TextureOutcomeView::FetchFailed => Some(ObjError::FetchError),
            TextureOutcomeView::DecodeFailed => Some(ObjError::DecodeError),
            TextureOutcomeView::Decoded { width, height, rgba } => if rgba.len() == 4 * width
                * height {
                texture_error_spec(outs.skip(1))
            } else {
                Some(ObjError::DecodeError)
            },
        }
    }
}

/// The error of one record's vertex buffer build, if any.
pub open spec fn record_error_spec(m: RawMeshView) -> Option<ObjError> {
    if !chunkable(m) {
        Some(ObjError::ChunkError)
    } else if !counts_consistent(m) {
        Some(ObjError::InvalidObjFormat)
    } else {
        None
    }
}

/// The error of the first record whose vertex buffers fail to build, in
/// record order.
pub open spec fn mesh_error_spec(ms: Seq<RawMeshView>) -> Option<ObjError>
    decreases ms.len(),
{
    if ms.len() == 0 {
        None
    } else if record_error_spec(ms[0]) is Some {
        record_error_spec(ms[0])
    } else {
        mesh_error_spec(ms.skip(1))
    }
}

/// Whether one texture outcome is a decode with a well-sized pixel buffer.
pub open spec fn outcome_clean(o: TextureOutcomeView) -> bool {
    match o {
        TextureOutcomeView::Decoded { width, height, rgba } => rgba.len() == 4 * width * height,
        _ => false,
    }
}

proof fn lemma_texture_error_skip(outs: Seq<TextureOutcomeView>, t: int)
    requires
        0 <= t <= outs.len(),
        forall|k: int| 0 <= k < t ==> outcome_clean(#[trigger] outs[k]),
    ensures
        texture_error_spec(outs) == texture_error_spec(outs.skip(t)),
    decreases t,
{
    if t > 0 {
        lemma_texture_error_skip(outs, t - 1);
        let s = outs.skip(t - 1);
        assert(s[0] == outs[t - 1]);
        assert(outcome_clean(outs[t - 1]));
        assert(s.skip(1) =~= outs.skip(t));
        assert(texture_error_spec(s) == texture_error_spec(s.skip(1)));
    } else {
        assert(outs.skip(0) =~= outs);
    }
}

proof fn lemma_mesh_error_skip(ms: Seq<RawMeshView>, t: int)
    requires
        0 <= t <= ms.len(),
        forall|k: int| 0 <= k < t ==> record_error_spec(ms[k]) is None,
    ensures
        mesh_error_spec(ms) == mesh_error_spec(ms.skip(t)),
    decreases t,
{
    if t > 0 {
        lemma_mesh_error_skip(ms, t - 1);
        let s = ms.skip(t - 1);
        assert(s[0] == ms[t - 1]);
        assert(s.skip(1) =~= ms.skip(t));
        assert(mesh_error_spec(s) == mesh_error_spec(s.skip(1)));
    } else {
        assert(ms.skip(0) =~= ms);
    }
}

/// One emitted mesh asset: label and vertex buffers.
pub struct MeshAsset {
    pub label: Vec<u8>,
    pub data: MeshData,
}

pub ghost struct MeshAssetView {
    pub label: Seq<u8>,
    pub data: MeshDataView,
}

impl View for MeshAsset {
    type V = MeshAssetView;

    open spec fn view(&self) -> MeshAssetView {
        MeshAssetView { label: self.label@, data: self.data@ }
    }
}

impl DeepView for MeshAsset {
    type V = MeshAssetView;

    open spec fn deep_view(&self) -> MeshAssetView {
        self.view()
    }
}

/// One combined mesh+material asset: its positional label, the mesh
/// asset's label, and the material asset's label if the record cited one.
pub struct SubMesh {
    pub label: Vec<u8>,
    pub mesh: Vec<u8>,
    pub material: Option<Vec<u8>>,
}

pub ghost struct SubMeshView {
    pub label: Seq<u8>,
    pub mesh: Seq<u8>,
    pub material: Option<Seq<u8>>,
}

impl View for SubMesh {
    type V = SubMeshView;

    open spec fn view(&self) -> SubMeshView {
        SubMeshView {
            label: self.label@,
            mesh: self.mesh@,
            material: match self.material {
                Some(ref m) => Some(m@),
                None => None,
            },
        }
    }
}

impl DeepView for SubMesh {
    type V = SubMeshView;

    open spec fn deep_view(&self) -> SubMeshView {
        self.view()
    }
}

/// One emitted material asset: label and built record.
pub struct MaterialAsset {
    pub label: Vec<u8>,
    pub record: MaterialRecord,
}

pub ghost struct MaterialAssetView {
    pub label: Seq<u8>,
    pub record: MaterialRecordView,
}

impl View for MaterialAsset {
    type V = MaterialAssetView;

    open spec fn view(&self) -> MaterialAssetView {
        MaterialAssetView { label: self.label@, record: self.record@ }
    }
}

impl DeepView for MaterialAsset {
    type V = MaterialAssetView;

    open spec fn deep_view(&self) -> MaterialAssetView {
        self.view()
    }
}

/// One emitted texture asset: label (the literal reference string) and
/// the normalized texture.
pub struct TextureEntry {
    pub label: Vec<u8>,
    pub texture: TextureAsset,
}

pub ghost struct TextureEntryView {
    pub label: Seq<u8>,
    pub width: u32,
    pub height: u32,
    pub rgba: Seq<u8>,
}

impl View for TextureEntry {
    type V = TextureEntryView;

    open spec fn view(&self) -> TextureEntryView {
        TextureEntryView {
            label: self.label@,
            width: self.texture.width,
            height: self.texture.height,
            rgba: self.texture.rgba@,
        }
    }
}

impl DeepView for TextureEntry {
    type V = TextureEntryView;

    open spec fn deep_view(&self) -> TextureEntryView {
        self.view()
    }
}

/// The aggregate scene description: every material handle and every
/// combined mesh+material handle of the load, and nothing else.
pub struct SceneAsset {
    pub materials: Vec<Vec<u8>>,
    pub meshes: Vec<Vec<u8>>,
}

/// One child of the scene graph's shared identity-transform root: a
/// mesh+material pairing.
pub struct SceneNode {
    pub mesh: Vec<u8>,
    pub material: Option<Vec<u8>>,
}

pub ghost struct SceneNodeView {
    pub mesh: Seq<u8>,
    pub material: Option<Seq<u8>>,
}

impl View for SceneNode {
    type V = SceneNodeView;

    open spec fn view(&self) -> SceneNodeView {
        SceneNodeView {
            mesh: self.mesh@,
            material: match self.material {
                Some(ref m) => Some(m@),
                None => None,
            },
        }
    }
}

impl DeepView for SceneNode {
    type V = SceneNodeView;

    open spec fn deep_view(&self) -> SceneNodeView {
        self.view()
    }
}

/// The scene-graph asset: one identity-transform root with one child per
/// submesh.
pub struct SceneGraph {
    pub children: Vec<SceneNode>,
}

/// Everything one successful load emits.
pub struct LoadedObj {
    pub textures: Vec<TextureEntry>,
    pub materials: Vec<MaterialAsset>,
    pub meshes: Vec<MeshAsset>,
    pub submeshes: Vec<SubMesh>,
    pub scene: SceneAsset,
    pub graph: SceneGraph,
}

/// The material handle of the record at position `k`: the cited
/// descriptor's name, or absent when the record cites no material or an
/// index past the flattened sequence.
pub open spec fn mat_ref_spec(pv: ParsedObjView, k: int) -> Option<Seq<u8>> {
    match pv.meshes[k].material_id {
        None => None,
        Some(mi) => if mi < pv.materials.len() {
            Some(pv.materials[mi as int].name)
        } else {
            None
        },
    }
}

/// The texture assets of a load: one per distinct reference, labeled by
/// the literal reference, with the decoded pixels normalized.
pub open spec fn textures_spec(refs: Seq<Seq<u8>>, outs: Seq<TextureOutcomeView>) -> Seq<
    TextureEntryView,
>
    recommends
        refs.len() == outs.len(),
        texture_error_spec(outs) is None,
{
    Seq::new(
        refs.len(),
        |k: int| match outs[k] {
            TextureOutcomeView::Decoded { width, height, rgba } => TextureEntryView {
                label: refs[k],
                width,
                height,
                rgba,
            },
            _ => TextureEntryView { label: refs[k], width: 0, height: 0, rgba: Seq::empty() },
        },
    )
}

/// The material assets of a load, in descriptor order.
pub open spec fn material_assets_spec(ds: Seq<MaterialDescView>) -> Seq<MaterialAssetView> {
    Seq::new(
        ds.len(),
        |k: int| MaterialAssetView { label: ds[k].name, record: build_material_spec(ds[k]) },
    )
}

/// The mesh assets of a load, in record order.
pub open spec fn mesh_assets_spec(ms: Seq<RawMeshView>) -> Seq<MeshAssetView> {
    Seq::new(ms.len(), |k: int| MeshAssetView { label: ms[k].name, data: build_mesh_spec(ms[k]) })
}

/// The combined mesh+material assets of a load, in record order.
pub open spec fn submeshes_spec(pv: ParsedObjView) -> Seq<SubMeshView> {
    Seq::new(
        pv.meshes.len(),
        |k: int| SubMeshView {
            label: obj_mesh_label_spec(k as nat),
            mesh: pv.meshes[k].name,
            material: mat_ref_spec(pv, k),
        },
    )
}

/// The scene-graph children of a load, in record order.
pub open spec fn graph_spec(pv: ParsedObjView) -> Seq<SceneNodeView> {
    Seq::new(
        pv.meshes.len(),
        |k: int| SceneNodeView { mesh: pv.meshes[k].name, material: mat_ref_spec(pv, k) },
    )
}

/// The mathematical value of the aggregate scene description.
pub ghost struct SceneAssetView {
    pub materials: Seq<Seq<u8>>,
    pub meshes: Seq<Seq<u8>>,
}

impl View for SceneAsset {
    type V = SceneAssetView;

    open spec fn view(&self) -> SceneAssetView {
        SceneAssetView {
            materials: self.materials.deep_view(),
            meshes: self.meshes.deep_view(),
        }
    }
}

/// The mathematical value of everything one successful load emits.
pub ghost struct LoadedObjView {
    pub textures: Seq<TextureEntryView>,
    pub materials: Seq<MaterialAssetView>,
    pub meshes: Seq<MeshAssetView>,
    pub submeshes: Seq<SubMeshView>,
    pub scene: SceneAssetView,
    pub graph: Seq<SceneNodeView>,
}

impl View for LoadedObj {
    type V = LoadedObjView;

    open spec fn view(&self) -> LoadedObjView {
        LoadedObjView {
            textures: self.textures.deep_view(),
            materials: self.materials.deep_view(),
            meshes: self.meshes.deep_view(),
            submeshes: self.submeshes.deep_view(),
            scene: self.scene@,
            graph: self.graph.children.deep_view(),
        }
    }
}

/// The aggregate scene description of a load: every material handle and
/// every combined mesh+material handle.
pub open spec fn scene_asset_spec(pv: ParsedObjView) -> SceneAssetView {
    SceneAssetView {
        materials: Seq::new(pv.materials.len(), |k: int| pv.materials[k].name),
        meshes: Seq::new(pv.meshes.len(), |k: int| obj_mesh_label_spec(k as nat)),
    }
}

/// What assembly makes of a parsed OBJ and its texture outcomes: the
/// first texture failure, else the first vertex-buffer failure, else
/// every emitted asset of the load.
pub open spec fn assemble_spec(pv: ParsedObjView, outs: Seq<TextureOutcomeView>) -> Result<
    LoadedObjView,
    ObjError,
> {
    match texture_error_spec(outs) {
        Some(e) => Err(e),
        None => match mesh_error_spec(pv.meshes) {
            Some(e) => Err(e),
            None => Ok(
                LoadedObjView {
                    textures: textures_spec(collect_refs_spec(pv.materials), outs),
                    materials: material_assets_spec(pv.materials),
                    meshes: mesh_assets_spec(pv.meshes),
                    submeshes: submeshes_spec(pv),
                    scene: scene_asset_spec(pv),
                    graph: graph_spec(pv),
                },
            ),
        },
    }
}

/// Two materials that cite the same non-empty texture reference share one
/// decoded texture asset within a load: exactly one emitted texture entry
/// carries that reference as its label, and both built records hold the
/// same handle in their base-color slot.
pub proof fn lemma_one_shared_texture_asset(
    ds: Seq<MaterialDescView>,
    outs: Seq<TextureOutcomeView>,
    i: int,
    j: int,
)
    requires
        0 <= i < ds.len(),
        0 <= j < ds.len(),
        ds[i].diffuse_texture == ds[j].diffuse_texture,
        ds[i].diffuse_texture.len() != 0,
        outs.len() == collect_refs_spec(ds).len(),
    ensures
        build_material_spec(ds[i]).base_color_texture
            == build_material_spec(ds[j]).base_color_texture,
        exists|k: int|
            0 <= k < textures_spec(collect_refs_spec(ds), outs).len()
                && (#[trigger] textures_spec(collect_refs_spec(ds), outs)[k]).label
                == ds[i].diffuse_texture,
        forall|k1: int, k2: int|
            (0 <= k1 < textures_spec(collect_refs_spec(ds), outs).len()
                && 0 <= k2 < textures_spec(collect_refs_spec(ds), outs).len()
                && (#[trigger] textures_spec(collect_refs_spec(ds), outs)[k1]).label
                    == ds[i].diffuse_texture
                && (#[trigger] textures_spec(collect_refs_spec(ds), outs)[k2]).label
                    == ds[i].diffuse_texture) ==> k1 == k2,
{
    let refs = collect_refs_spec(ds);
    let entries = textures_spec(refs, outs);
    lemma_texture_sharing(ds, i, j);
    assert forall|k: int| 0 <= k < entries.len()
        implies (#[trigger] entries[k]).label == refs[k] by {}
    let w = choose|w: int| 0 <= w < refs.len() && refs[w] == ds[i].diffuse_texture;
    assert(entries[w].label == ds[i].diffuse_texture);
}

/// Assembles every asset of one load from the parsed OBJ and the resolved
/// texture outcomes, one outcome per collected distinct reference.
///
/// A failed texture fetch aborts with `FetchError` and a failed or
/// ill-sized decode with `DecodeError`, before any mesh is built; a
/// record whose flat arrays do not cut into their tuple widths aborts
/// with `ChunkError` even if its sibling records are well-formed.
/// Nothing is emitted on any failure.
pub fn assemble_scene(parsed: &ParsedObj, outcomes: &Vec<TextureOutcome>) -> (r: Result<
    LoadedObj,
    ObjError,
>)
    requires
        outcomes@.len() == collect_refs_spec(parsed@.materials).len(),
    ensures
        match r {
            Ok(out) => {
                &&& assemble_spec(parsed@, outcomes.deep_view()) == Ok::<_, ObjError>(out@)
                &&& texture_error_spec(outcomes.deep_view()) is None
                &&& mesh_error_spec(parsed@.meshes) is None
                &&& out.textures.deep_view() == textures_spec(
                    collect_refs_spec(parsed@.materials),
                    outcomes.deep_view(),
                )
                &&& out.materials.deep_view() == material_assets_spec(parsed@.materials)
                &&& out.meshes.deep_view() == mesh_assets_spec(parsed@.meshes)
                &&& out.submeshes.deep_view() == submeshes_spec(parsed@)
                &&& out.scene.materials.deep_view() == Seq::new(
                    parsed@.materials.len(),
                    |k: int| parsed@.materials[k].name,
                )
                &&& out.scene.meshes.deep_view() == Seq::new(
                    parsed@.meshes.len(),
                    |k: int| obj_mesh_label_spec(k as nat),
                )
                &&& out.graph.children.deep_view() == graph_spec(parsed@)
                &&& forall|k: int| 0 <= k < out.textures@.len()
                    ==> (#[trigger] out.textures@[k].texture).wf()
                &&& forall|k: int| 0 <= k < out.meshes@.len()
                    ==> (#[trigger] out.meshes@[k].data).wf()
            },
            Err(e) => {
                &&& assemble_spec(parsed@, outcomes.deep_view()) == Err::<LoadedObjView, _>(e)
                &&& (texture_error_spec(outcomes.deep_view()) matches Some(te) ==> e == te)
                &&& (texture_error_spec(outcomes.deep_view()) is None ==> mesh_error_spec(
                    parsed@.meshes,
                ) == Some(e))
                &&& (texture_error_spec(outcomes.deep_view()) is Some || mesh_error_spec(
                    parsed@.meshes,
                ) is Some)
            },
        },
{
    let refs = collect_texture_refs(&parsed.materials);
    let ghost ov = outcomes.deep_view();
    let ghost pv = parsed@;
    let ghost rv = refs.deep_view();
    proof {
        assert(rv.len() == refs@.len());
    }

    // Resolve every texture first: a failure aborts before any mesh is built.
    let mut textures: Vec<TextureEntry> = Vec::new();
    let mut t: usize = 0;
    while t < outcomes.len()
        invariant
            t <= ov.len(),
            ov == outcomes.deep_view(),
            rv == refs.deep_view(),
            rv.len() == refs@.len(),
            pv == parsed@,
            refs@.len() == ov.len(),
            forall|k: int| 0 <= k < t ==> outcome_clean(#[trigger] ov[k]),
            textures@.len() == t,
            forall|k: int| 0 <= k < t
                ==> (#[trigger] textures@[k])@ == textures_spec(rv, ov)[k],
            forall|k: int| 0 <= k < t ==> (#[trigger] textures@[k].texture).wf(),
        decreases ov.len() - t,
    {
        assert(ov[t as int] == outcomes@[t as int]@);
        match &outcomes[t] {
            TextureOutcome::FetchFailed => {
                proof {
                    lemma_texture_error_skip(ov, t as int);
                    assert(ov.skip(t as int)[0] == ov[t as int]);
                }
                return Err(ObjError::FetchError);
            },
            TextureOutcome::DecodeFailed => {
                proof {
                    lemma_texture_error_skip(ov, t as int);
                    assert(ov.skip(t as int)[0] == ov[t as int]);
                }
                return Err(ObjError::DecodeError);
            },
            TextureOutcome::Decoded { width, height, rgba } => {
                let wide: u128 = 4u128 * (*width as u128);
                proof {
                    assert(wide * (*height as u128) < 0x100000000000000000u128)
                        by (nonlinear_arith)
                        requires
                            wide <= 0x3FFFFFFFCu128,
                            (*height as u128) <= 0xFFFFFFFFu128,
                    ;
                }
                let need: u128 = wide * (*height as u128);
                if rgba.len() as u128 != need {
                    proof {
                        lemma_texture_error_skip(ov, t as int);
                        assert(ov.skip(t as int)[0] == ov[t as int]);
                        assert(!outcome_clean(ov[t as int]));
                    }
                    return Err(ObjError::DecodeError);
                }
                assert(rgba@.len() == 4 * *width * *height);
                let label = texture_label(&refs[t]);
                assert(rv[t as int] == refs@[t as int]@);
                let texture = normalize_texture(*width, *height, clone_bytes(rgba.as_slice()));
                let entry = TextureEntry { label, texture };
                assert(entry@ == textures_spec(rv, ov)[t as int]);
                textures.push(entry);
            },
        }
        t = t + 1;
    }
    proof {
        lemma_texture_error_skip(ov, ov.len() as int);
        assert(ov.skip(ov.len() as int) =~= Seq::<TextureOutcomeView>::empty());
        assert forall|k: int| 0 <= k < textures@.len()
            implies textures.deep_view()[k] == textures_spec(rv, ov)[k] by {
            assert(textures.deep_view()[k] == textures@[k]@);
        }
        assert(textures.deep_view() =~= textures_spec(rv, ov));
    }

    // Build one material asset per descriptor, in order.
    let mut materials: Vec<MaterialAsset> = Vec::new();
    let mut t2: usize = 0;
    while t2 < parsed.materials.len()
        invariant
            t2 <= pv.materials.len(),
            pv == parsed@,
            materials@.len() == t2,
            forall|k: int| 0 <= k < t2
                ==> (#[trigger] materials@[k])@ == material_assets_spec(pv.materials)[k],
        decreases pv.materials.len() - t2,
    {
        let d = &parsed.materials[t2];
        assert(d@ == pv.materials[t2 as int]);
        let asset = MaterialAsset { label: material_label(d), record: build_material(d) };
        assert(asset@ == material_assets_spec(pv.materials)[t2 as int]);
        materials.push(asset);
        t2 = t2 + 1;
    }
    proof {
        assert forall|k: int| 0 <= k < materials@.len()
            implies materials.deep_view()[k] == material_assets_spec(pv.materials)[k] by {
            assert(materials.deep_view()[k] == materials@[k]@);
        }
        assert(materials.deep_view() =~= material_assets_spec(pv.materials));
    }

    // Build vertex buffers, submeshes, scene handles and graph children.
    let mut meshes: Vec<MeshAsset> = Vec::new();
    let mut submeshes: Vec<SubMesh> = Vec::new();
    let mut scene_materials: Vec<Vec<u8>> = Vec::new();
    let mut scene_meshes: Vec<Vec<u8>> = Vec::new();
    let mut children: Vec<SceneNode> = Vec::new();
    let mut i: usize = 0;
    while i < parsed.meshes.len()
        invariant
            i <= pv.meshes.len(),
            pv == parsed@,
            ov == outcomes.deep_view(),
            texture_error_spec(ov) is None,
            forall|k: int| 0 <= k < i ==> record_error_spec(#[trigger] pv.meshes[k]) is None,
            meshes@.len() == i,
            submeshes@.len() == i,
            scene_meshes@.len() == i,
            children@.len() == i,
            forall|k: int| 0 <= k < i
                ==> (#[trigger] meshes@[k])@ == mesh_assets_spec(pv.meshes)[k],
            forall|k: int| 0 <= k < i
                ==> (#[trigger] submeshes@[k])@ == submeshes_spec(pv)[k],
            forall|k: int| 0 <= k < i
                ==> (#[trigger] scene_meshes@[k])@ == obj_mesh_label_spec(k as nat),
            forall|k: int| 0 <= k < i ==> (#[trigger] children@[k])@ == graph_spec(pv)[k],
            forall|k: int| 0 <= k < i ==> (#[trigger] meshes@[k].data).wf(),
        decreases pv.meshes.len() - i,
    {
        let m = &parsed.meshes[i];
        assert(m@ == pv.meshes[i as int]);
        let data = match build_mesh_data(m) {
            Ok(d) => d,
            Err(e) => {
                proof {
                    lemma_mesh_error_skip(pv.meshes, i as int);
                    assert(pv.meshes.skip(i as int)[0] == pv.meshes[i as int]);
                }
                return Err(e);
            },
        };
        let label = model_label(m);
        let mesh_asset = MeshAsset { label, data };
        assert(mesh_asset@ == mesh_assets_spec(pv.meshes)[i as int]);
        meshes.push(mesh_asset);
        let material = match m.material_id {
            Some(mi) => {
                if mi < parsed.materials.len() {
                    assert(parsed.materials@[mi as int]@ == pv.materials[mi as int]);
                    Some(clone_bytes(parsed.materials[mi].name.as_slice()))
                } else {
                    None
                }
            },
            None => None,
        };
        let sub_label = obj_mesh_label(i);
        let node_material = match &material {
            Some(b) => Some(clone_bytes(b.as_slice())),
            None => None,
        };
        let sub = SubMesh { label: sub_label, mesh: model_label(m), material };
        assert(sub@ == submeshes_spec(pv)[i as int]);
        submeshes.push(sub);
        let node = SceneNode { mesh: model_label(m), material: node_material };
        assert(node@ == graph_spec(pv)[i as int]);
        children.push(node);
        scene_meshes.push(obj_mesh_label(i));
        i = i + 1;
    }
    proof {
        lemma_mesh_error_skip(pv.meshes, pv.meshes.len() as int);
        assert(pv.meshes.skip(pv.meshes.len() as int) =~= Seq::<RawMeshView>::empty());
        assert forall|k: int| 0 <= k < meshes@.len()
            implies meshes.deep_view()[k] == mesh_assets_spec(pv.meshes)[k] by {
            assert(meshes.deep_view()[k] == meshes@[k]@);
        }
        assert(meshes.deep_view() =~= mesh_assets_spec(pv.meshes));
        assert forall|k: int| 0 <= k < submeshes@.len()
            implies submeshes.deep_view()[k] == submeshes_spec(pv)[k] by {
            assert(submeshes.deep_view()[k] == submeshes@[k]@);
        }
        assert(submeshes.deep_view() =~= submeshes_spec(pv));
        assert forall|k: int| 0 <= k < children@.len()
            implies children.deep_view()[k] == graph_spec(pv)[k] by {
            assert(children.deep_view()[k] == children@[k]@);
        }
        assert(children.deep_view() =~= graph_spec(pv));
        assert forall|k: int| 0 <= k < scene_meshes@.len()
            implies scene_meshes.deep_view()[k] == obj_mesh_label_spec(k as nat) by {
            assert(scene_meshes.deep_view()[k] == scene_meshes@[k]@);
        }
        assert(scene_meshes.deep_view() =~= Seq::new(
            pv.meshes.len(),
            |k: int| obj_mesh_label_spec(k as nat),
        ));
    }

    let mut t3: usize = 0;
    while t3 < parsed.materials.len()
        invariant
            t3 <= pv.materials.len(),
            pv == parsed@,
            scene_materials@.len() == t3,
            forall|k: int| 0 <= k < t3
                ==> (#[trigger] scene_materials@[k])@ == pv.materials[k].name,
        decreases pv.materials.len() - t3,
    {
        assert(parsed.materials@[t3 as int]@ == pv.materials[t3 as int]);
        scene_materials.push(clone_bytes(parsed.materials[t3].name.as_slice()));
        t3 = t3 + 1;
    }
    proof {
        assert forall|k: int| 0 <= k < scene_materials@.len()
            implies scene_materials.deep_view()[k] == pv.materials[k].name by {
            assert(scene_materials.deep_view()[k] == scene_materials@[k]@);
        }
        assert(scene_materials.deep_view() =~= Seq::new(
            pv.materials.len(),
            |k: int| pv.materials[k].name,
        ));
    }

    let scene = SceneAsset { materials: scene_materials, meshes: scene_meshes };
    let graph = SceneGraph { children };
    Ok(LoadedObj { textures, materials, meshes, submeshes, scene, graph })
}

} // verus!
