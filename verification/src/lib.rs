//! Loader core for Wavefront OBJ models: scans material-library references,
//! resolves material libraries, builds validated vertex buffers and material
//! records, and assembles a renderer-ready scene description.

use vstd::prelude::*;

pub mod assemble;
pub mod geometry;
pub mod material;
pub mod mesh;
pub mod scanner;

use crate::assemble::LoadedObjView;
use crate::assemble::TextureOutcomeView;
use crate::assemble::assemble_spec;
use crate::geometry::obj_parse;
use crate::geometry::obj_text_hazard;
use crate::geometry::resolve_spec;
use crate::scanner::is_utf8;
use crate::scanner::scan_spec;

verus! {

/// The failure taxonomy of one load attempt. Any stage failure aborts the
/// whole load; no asset is ever emitted on failure.
#[derive(Debug, Clone, Copy, PartialEq, Eq, Structural)]
pub enum ObjError {
    /// Malformed OBJ/MTL structure, or bytes not decodable as text.
    InvalidObjFormat,
    /// A referenced file (material library or texture) could not be fetched.
    FetchError,
    /// A referenced image could not be decoded.
    DecodeError,
    /// A flat vertex array length is not a multiple of its tuple width.
    ChunkError,
    /// A mesh cites a material-library path absent from the resolved index.
    ReferenceError,
}

/// Copies a byte slice into a fresh vector.
pub fn clone_bytes(v: &[u8]) -> (r: Vec<u8>)
    ensures
        r@ == v@,
{
    let mut r: Vec<u8> = Vec::new();
    let mut t: usize = 0;
    while t < v.len()
        invariant
            t <= v@.len(),
            r@ == v@.subrange(0, t as int),
        decreases v@.len() - t,
    {
        r.push(v[t]);
        assert(r@ =~= v@.subrange(0, t + 1));
        t = t + 1;
    }
    assert(r@ =~= v@);
    r
}

/// The loader registers itself for the `obj` file extension.
#[derive(Default)]
pub struct ObjLoader;

impl ObjLoader {
    /// The file extensions this loader handles.
    pub fn extensions(&self) -> (r: Vec<&'static str>)
        ensures
            r@.len() == 1,
            r@[0]@ == "obj"@,
    {
        let mut r: Vec<&'static str> = Vec::new();
        r.push("obj");
        r
    }
}

/// What one whole load makes of its inputs: the raw OBJ bytes, the fetch
/// outcome of each scanned material-library path, and the texture outcome
/// of each collected reference. Every stage is a function of these alone;
/// any stage failure is the load's failure and nothing is emitted.
pub open spec fn load_spec(
    bytes: Seq<u8>,
    fetched: Seq<Option<Seq<u8>>>,
    outs: Seq<TextureOutcomeView>,
) -> Result<LoadedObjView, ObjError> {
    if !is_utf8(bytes) {
        Err(ObjError::InvalidObjFormat)
    } else {
        match scan_spec(bytes) {
            None => Err(ObjError::InvalidObjFormat),
            Some(paths) => match resolve_spec(paths, fetched) {
                Err(e) => Err(e),
                Ok(entries) => if obj_text_hazard(bytes) {
                    Err(ObjError::InvalidObjFormat)
                } else {
                    match obj_parse(bytes, entries) {
                        Err(e) => Err(e),
                        Ok(pv) => assemble_spec(pv, outs),
                    }
                },
            },
        }
    }
}

/// Loading byte-identical inputs twice, with identical fetch and decode
/// outcomes, yields asset sets with identical attribute values; only the
/// registry identities of the emitted assets may differ, and those are
/// outside this model.
pub proof fn lemma_load_deterministic(
    bytes1: Seq<u8>,
    fetched1: Seq<Option<Seq<u8>>>,
    outs1: Seq<TextureOutcomeView>,
    bytes2: Seq<u8>,
    fetched2: Seq<Option<Seq<u8>>>,
    outs2: Seq<TextureOutcomeView>,
)
    requires
        bytes1 == bytes2,
        fetched1 == fetched2,
        outs1 == outs2,
    ensures
        load_spec(bytes1, fetched1, outs1) == load_spec(bytes2, fetched2, outs2),
{
}

/// An OBJ with no `mtllib` line scans to the empty path sequence, and the
/// load then proceeds with an empty material index.
pub proof fn lemma_no_mtllib_loads_with_empty_index(s: Seq<u8>)
    requires
        forall|i: int| 0 <= i < s.len() && (i == 0 || s[i - 1] == 10)
            ==> !crate::scanner::is_mtllib_line(#[trigger] crate::scanner::line_at(s, i)),
    ensures
        scan_spec(s) == Some(Seq::<Seq<u8>>::empty()),
        resolve_spec(Seq::<Seq<u8>>::empty(), Seq::<Option<Seq<u8>>>::empty()) == Ok::<
            _,
            ObjError,
        >(Seq::<(Seq<u8>, Seq<u8>)>::empty()),
{
    crate::scanner::lemma_scan_no_mtllib_empty(s);
    let r = resolve_spec(Seq::<Seq<u8>>::empty(), Seq::<Option<Seq<u8>>>::empty());
    assert(r is Ok);
    assert(r->Ok_0 =~= Seq::<(Seq<u8>, Seq<u8>)>::empty());
}

/// Compares two byte strings for equality of their contents.
pub fn bytes_eq(a: &[u8], b: &[u8]) -> (r: bool)
    ensures
        r == (a@ == b@),
{
    if a.len() != b.len() {
        assert(a@.len() != b@.len());
        return false;
    }
    let mut t: usize = 0;
    while t < a.len()
        invariant
            t <= a@.len(),
            a@.len() == b@.len(),
            forall|i: int| 0 <= i < t ==> a@[i] == b@[i],
        decreases a@.len() - t,
    {
        if a[t] != b[t] {
            return false;
        }
        t = t + 1;
    }
    assert(a@ =~= b@);
    true
}

} // verus!
