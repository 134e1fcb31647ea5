//! Vertex buffer builder: converts flat numeric arrays into validated
//! fixed-width attribute arrays.
//!
//! Scalar vertex attributes are carried as the 32-bit patterns of the
//! source file's floating-point values; the host renderer reinterprets
//! them when it uploads the buffers. Indices are kept verbatim as
//! unsigned 32-bit values.

use vstd::prelude::*;
use crate::ObjError;

verus! {

/// One raw mesh record as the geometry parser hands it over: a name, flat
/// attribute arrays, a flat index array, and an optional index into the
/// flattened material-descriptor sequence.
pub struct RawMesh {
    pub name: Vec<u8>,
    pub positions: Vec<u32>,
    pub normals: Vec<u32>,
    pub texcoords: Vec<u32>,
    pub indices: Vec<u32>,
    pub material_id: Option<usize>,
}

/// The mathematical value of a raw mesh record.
pub ghost struct RawMeshView {
    pub name: Seq<u8>,
    pub positions: Seq<u32>,
    pub normals: Seq<u32>,
    pub texcoords: Seq<u32>,
    pub indices: Seq<u32>,
    pub material_id: Option<usize>,
}

impl View for RawMesh {
    type V = RawMeshView;

    open spec fn view(&self) -> RawMeshView {
        RawMeshView {
            name: self.name@,
            positions: self.positions@,
            normals: self.normals@,
            texcoords: self.texcoords@,
            indices: self.indices@,
            material_id: self.material_id,
        }
    }
}

impl DeepView for RawMesh {
    type V = RawMeshView;

    open spec fn deep_view(&self) -> RawMeshView {
        self.view()
    }
}

/// Validated vertex buffers: position and normal triples, texcoord pairs,
/// and the index array kept verbatim.
pub struct MeshData {
    pub positions: Vec<Vec<u32>>,
    pub normals: Vec<Vec<u32>>,
    pub texcoords: Vec<Vec<u32>>,
    pub indices: Vec<u32>,
}

/// The flat array `s` cut into `n`-wide tuples; meaningful when the length
/// is an exact multiple of `n`.
pub open spec fn chunks_spec(s: Seq<u32>, n: int) -> Seq<Seq<u32>>
    recommends
        n > 0,
{
    Seq::new((s.len() as int / n) as nat, |i: int| s.subrange(i * n, i * n + n))
}

impl MeshData {
    /// The structural invariant of a built mesh: tuples have their fixed
    /// width, normal and texcoord buffers are empty or match the vertex
    /// count, and every index cites an existing vertex.
    pub open spec fn wf(self) -> bool {
        &&& forall|i: int| 0 <= i < self.positions@.len() ==> (#[trigger] self.positions@[i])@.len() == 3
        &&& forall|i: int| 0 <= i < self.normals@.len() ==> (#[trigger] self.normals@[i])@.len() == 3
        &&& forall|i: int| 0 <= i < self.texcoords@.len() ==> (#[trigger] self.texcoords@[i])@.len() == 2
        &&& self.normals@.len() == 0 || self.normals@.len() == self.positions@.len()
        &&& self.texcoords@.len() == 0 || self.texcoords@.len() == self.positions@.len()
        &&& forall|i: int| 0 <= i < self.indices@.len() ==> (#[trigger] self.indices@[i]) < self.positions@.len()
    }
}

/// Cuts a flat attribute array into `n`-element tuples. A length that is
/// not an exact multiple of `n` is a structurally corrupt mesh and fails
/// with `ChunkError`; a zero-length array yields zero tuples.
pub fn chunk_by(v: &[u32], n: usize) -> (r: Result<Vec<Vec<u32>>, ObjError>)
    requires
        n > 0,
    ensures
        match r {
            Ok(chunks) => {
                &&& v@.len() as int % n as int == 0
                &&& chunks.deep_view() == chunks_spec(v@, n as int)
                &&& chunks@.len() == v@.len() as int / n as int
            },
            Err(e) => e == ObjError::ChunkError && v@.len() as int % n as int != 0,
        },
{
    if v.len() % n != 0 {
        return Err(ObjError::ChunkError);
    }
    let count = v.len() / n;
    proof {
        assert(count * n <= v@.len() && v@.len() < (count + 1) * n) by (nonlinear_arith)
            requires
                n > 0,
                count == v@.len() as int / n as int,
                v@.len() as int % n as int == 0,
        ;
    }
    let mut out: Vec<Vec<u32>> = Vec::new();
    let mut i: usize = 0;
    while i < count
        invariant
            i <= count,
            n > 0,
            count == v@.len() as int / n as int,
            count * n <= v@.len(),
            v@.len() <= usize::MAX,
            out.deep_view() =~= chunks_spec(v@, n as int).subrange(0, i as int),
        decreases count - i,
    {
        proof {
            assert(i * n + n <= count * n) by (nonlinear_arith)
                requires
                    i + 1 <= count,
                    n > 0,
            ;
            assert(0 <= i * n) by (nonlinear_arith)
                requires
                    i >= 0,
                    n > 0,
            ;
        }
        let base = i * n;
        let mut chunk: Vec<u32> = Vec::new();
        let mut k: usize = 0;
        while k < n
            invariant
                k <= n,
                base == i * n,
                base + n <= v@.len(),
                v@.len() <= usize::MAX,
                chunk@ =~= v@.subrange(base as int, base + k),
            decreases n - k,
        {
            chunk.push(v[base + k]);
            assert(chunk@ =~= v@.subrange(base as int, base + k + 1));
            k = k + 1;
        }
        let ghost cv = chunk@;
        let ghost old_dv = out.deep_view();
        out.push(chunk);
        proof {
            let cs = chunks_spec(v@, n as int);
            assert(cs.len() == count);
            assert(out.deep_view() =~~= old_dv + seq![cv]);
            assert(cs[i as int] == v@.subrange(i as int * (n as int), i as int * (n as int) + n));
            assert(cv =~= v@.subrange(i as int * (n as int), i as int * (n as int) + n));
            assert(cs.subrange(0, i + 1) =~~= cs.subrange(0, i as int) + seq![cs[i as int]]);
            assert(out.deep_view() == cs.subrange(0, i + 1));
        }
        i = i + 1;
    }
    proof {
        let cs = chunks_spec(v@, n as int);
        assert(cs.subrange(0, count as int) =~= cs);
        assert(out.deep_view() == cs);
    }
    Ok(out)
}

/// The built mesh for a raw record, when every stage of the build succeeds.
pub open spec fn build_mesh_spec(m: RawMeshView) -> MeshDataView {
    MeshDataView {
        positions: chunks_spec(m.positions, 3),
        normals: chunks_spec(m.normals, 3),
        texcoords: chunks_spec(m.texcoords, 2),
        indices: m.indices,
    }
}

/// The mathematical value of built vertex buffers.
pub ghost struct MeshDataView {
    pub positions: Seq<Seq<u32>>,
    pub normals: Seq<Seq<u32>>,
    pub texcoords: Seq<Seq<u32>>,
    pub indices: Seq<u32>,
}

impl View for MeshData {
    type V = MeshDataView;

    open spec fn view(&self) -> MeshDataView {
        MeshDataView {
            positions: self.positions.deep_view(),
            normals: self.normals.deep_view(),
            texcoords: self.texcoords.deep_view(),
            indices: self.indices@,
        }
    }
}

/// Whether a raw record's flat arrays cut exactly into their tuple widths.
pub open spec fn chunkable(m: RawMeshView) -> bool {
    &&& m.positions.len() as int % 3 == 0
    &&& m.normals.len() as int % 3 == 0
    &&& m.texcoords.len() as int % 2 == 0
}

/// Whether a chunkable record satisfies the mesh invariant: normal and
/// texcoord tuple counts empty or equal to the vertex count, and every
/// index below the vertex count.
pub open spec fn counts_consistent(m: RawMeshView) -> bool {
    &&& m.normals.len() == 0 || m.normals.len() as int / 3 == m.positions.len() as int / 3
    &&& m.texcoords.len() == 0 || m.texcoords.len() as int / 2 == m.positions.len() as int / 3
    &&& forall|i: int| 0 <= i < m.indices.len() ==> (#[trigger] m.indices[i]) < m.positions.len() as int / 3
}

/// Builds validated vertex buffers from one raw mesh record.
///
/// An attribute array whose length is not an exact multiple of its tuple
/// width fails with `ChunkError`; buffers that break the mesh invariant
/// (mismatched vertex counts, an index past the last vertex) fail with
/// `InvalidObjFormat`. The index array is stored verbatim.
pub fn build_mesh_data(m: &RawMesh) -> (r: Result<MeshData, ObjError>)
    ensures
        match r {
            Ok(data) => {
                &&& chunkable(m@)
                &&& counts_consistent(m@)
                &&& data@ == build_mesh_spec(m@)
                &&& data.wf()
            },
            Err(e) => {
                &&& !(chunkable(m@) && counts_consistent(m@))
                &&& (e == ObjError::ChunkError <==> !chunkable(m@))
                &&& (e == ObjError::ChunkError || e == ObjError::InvalidObjFormat)
            },
        },
{
    if m.positions.len() % 3 != 0 || m.normals.len() % 3 != 0 || m.texcoords.len() % 2 != 0 {
        return Err(ObjError::ChunkError);
    }
    let positions = match chunk_by(m.positions.as_slice(), 3) {
        Ok(c) => c,
        Err(e) => { return Err(e); },
    };
    let normals = match chunk_by(m.normals.as_slice(), 3) {
        Ok(c) => c,
        Err(e) => { return Err(e); },
    };
    let texcoords = match chunk_by(m.texcoords.as_slice(), 2) {
        Ok(c) => c,
        Err(e) => { return Err(e); },
    };
    if m.normals.len() != 0 && normals.len() != positions.len() {
        return Err(ObjError::InvalidObjFormat);
    }
    if m.texcoords.len() != 0 && texcoords.len() != positions.len() {
        return Err(ObjError::InvalidObjFormat);
    }
    proof {
        if m.normals@.len() == 0 {
            assert(normals.deep_view().len() == 0);
        }
        if m.texcoords@.len() == 0 {
            assert(texcoords.deep_view().len() == 0);
        }
    }
    let vertex_count = positions.len();
    let mut t: usize = 0;
    while t < m.indices.len()
        invariant
            t <= m.indices@.len(),
            vertex_count == m.positions@.len() as int / 3,
            chunkable(m@),
            m@.normals.len() == 0 || m@.normals.len() as int / 3 == m@.positions.len() as int / 3,
            m@.texcoords.len() == 0 || m@.texcoords.len() as int / 2 == m@.positions.len() as int / 3,
            forall|i: int| 0 <= i < t ==> (#[trigger] m.indices@[i]) < vertex_count,
        decreases m.indices@.len() - t,
    {
        if m.indices[t] as usize >= vertex_count {
            proof {
                assert((m@.indices[t as int]) >= m@.positions.len() as int / 3);
                assert(!counts_consistent(m@));
            }
            return Err(ObjError::InvalidObjFormat);
        }
        t = t + 1;
    }
    let mut indices: Vec<u32> = Vec::new();
    let mut t2: usize = 0;
    while t2 < m.indices.len()
        invariant
            t2 <= m.indices@.len(),
            indices@ =~= m.indices@.subrange(0, t2 as int),
        decreases m.indices@.len() - t2,
    {
        indices.push(m.indices[t2]);
        assert(indices@ =~= m.indices@.subrange(0, t2 + 1));
        t2 = t2 + 1;
    }
    assert(indices@ =~= m.indices@);
    let data = MeshData { positions, normals, texcoords, indices };
    proof {
        assert forall|i: int| 0 <= i < data.positions@.len()
            implies (#[trigger] data.positions@[i])@.len() == 3 by {
            assert(data.positions.deep_view()[i] == data.positions@[i]@);
        }
        assert forall|i: int| 0 <= i < data.normals@.len()
            implies (#[trigger] data.normals@[i])@.len() == 3 by {
            assert(data.normals.deep_view()[i] == data.normals@[i]@);
        }
        assert forall|i: int| 0 <= i < data.texcoords@.len()
            implies (#[trigger] data.texcoords@[i])@.len() == 2 by {
            assert(data.texcoords.deep_view()[i] == data.texcoords@[i]@);
        }
    }
    Ok(data)
}

} // verus!
