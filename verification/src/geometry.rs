//! Material library resolution and geometry parsing.
//!
//! The OBJ/MTL lexical grammar is the work of an external parsing
//! collaborator, the `tobj` crate; this module holds the trusted boundary
//! around it. Material libraries are fetched by the caller, parsed here,
//! and indexed by the exact literal path string before geometry parsing
//! begins, because the parser requests materials by that same string. A
//! fetch failure aborts the entire load: the dependency semantics are
//! strict, with no best-effort fallback.

use vstd::prelude::*;
use std::collections::HashMap;
use crate::ObjError;
use crate::bytes_eq;
use crate::clone_bytes;
use crate::material::MaterialDescriptor;
use crate::material::MaterialDescView;
use crate::mesh::RawMesh;
use crate::mesh::RawMeshView;

verus! {

/// The material type of the external MTL grammar.
#[verifier::external_type_specification]
#[verifier::external_body]
pub struct ExTobjMaterial(tobj::Material);

/// The model type of the external OBJ grammar.
#[verifier::external_type_specification]
#[verifier::external_body]
pub struct ExTobjModel(tobj::Model);

/// One parsed material library as the external grammar hands it back:
/// the materials and the name-to-index map that geometry parsing needs.
pub struct MtlRaw {
    mats: Vec<tobj::Material>,
    name_index: HashMap<String, usize>,
}

/// Whether the external MTL grammar accepts these bytes: a function of the
/// bytes alone.
pub uninterp spec fn mtl_parse_ok(bytes: Seq<u8>) -> bool;

/// Relies on tobj::load_mtl_buf: parses MTL text into materials and a
/// name-to-index map; whether parsing succeeds depends on the bytes alone.
#[verifier::external_body]
fn parse_mtl(bytes: &[u8]) -> (r: Option<MtlRaw>)
    ensures
        r is Some <==> mtl_parse_ok(bytes@),
{
    let mut reader: &[u8] = bytes;
    match tobj::load_mtl_buf(&mut reader) {
        Ok((mats, name_index)) => Some(MtlRaw { mats, name_index }),
        Err(_) => None,
    }
}

/// One resolved material library: the literal path it was requested under,
/// and the parse of its fetched source.
///
/// The fields stay private so that only `resolve_material_libs` can build
/// a value: that keeps `raw` the parse of exactly the bytes that the
/// ghost `src` records, which the contract of `parse_obj_records` relies
/// on when it names its result over the indexed sources.
pub struct MaterialLib {
    path: Vec<u8>,
    raw: MtlRaw,
    src: Ghost<Seq<u8>>,
}

impl MaterialLib {
    /// The literal path this library was requested under.
    pub closed spec fn path_spec(&self) -> Seq<u8> {
        self.path@
    }

    /// The source bytes this library was parsed from.
    pub closed spec fn src_spec(&self) -> Seq<u8> {
        self.src@
    }
}

/// The index entries of a resolved library sequence: each literal path
/// paired with the library's source bytes.
pub open spec fn lib_entries(libs: Seq<MaterialLib>) -> Seq<(Seq<u8>, Seq<u8>)> {
    Seq::new(libs.len(), |i: int| (libs[i].path_spec(), libs[i].src_spec()))
}

/// The outcome of one byte fetch performed by the caller's fetch
/// capability: the bytes, or a missing/unreadable file.
pub enum FetchOutcome {
    Fetched(Vec<u8>),
    Missing,
}

impl View for FetchOutcome {
    type V = Option<Seq<u8>>;

    open spec fn view(&self) -> Option<Seq<u8>> {
        match self {
            FetchOutcome::Fetched(b) => Some(b@),
            FetchOutcome::Missing => None,
        }
    }
}

impl DeepView for FetchOutcome {
    type V = Option<Seq<u8>>;

    open spec fn deep_view(&self) -> Option<Seq<u8>> {
        self.view()
    }
}

/// The result of resolving every material library: `FetchError` if any
/// fetch failed, else `InvalidObjFormat` if any library fails to parse,
/// else the path-to-source index, in path order.
pub open spec fn resolve_spec(paths: Seq<Seq<u8>>, fetched: Seq<Option<Seq<u8>>>) -> Result<
    Seq<(Seq<u8>, Seq<u8>)>,
    ObjError,
>
    recommends
        paths.len() == fetched.len(),
{
    if exists|i: int| 0 <= i < fetched.len() && fetched[i] is None {
        Err(ObjError::FetchError)
    } else if exists|i: int| 0 <= i < fetched.len() && !mtl_parse_ok(fetched[i].unwrap()) {
        Err(ObjError::InvalidObjFormat)
    } else {
        Ok(Seq::new(paths.len(), |i: int| (paths[i], fetched[i].unwrap())))
    }
}

/// Resolves every referenced material library from its fetched bytes and
/// indexes it by its literal path, before geometry parsing begins.
///
/// A single failed fetch aborts the whole load with `FetchError`; a
/// library the grammar rejects aborts it with `InvalidObjFormat`. With no
/// referenced libraries the load proceeds with an empty index.
pub fn resolve_material_libs(paths: &Vec<Vec<u8>>, fetched: &Vec<FetchOutcome>) -> (r: Result<
    Vec<MaterialLib>,
    ObjError,
>)
    requires
        paths@.len() == fetched@.len(),
    ensures
        match r {
            Ok(libs) => {
                &&& resolve_spec(paths.deep_view(), fetched.deep_view()) == Ok::<_, ObjError>(
                    lib_entries(libs@),
                )
                &&& libs@.len() == paths@.len()
                &&& forall|k: int| 0 <= k < libs@.len()
                    ==> #[trigger] libs@[k].path_spec() == paths.deep_view()[k]
            },
            Err(e) => resolve_spec(paths.deep_view(), fetched.deep_view()) == Err::<
                Seq<(Seq<u8>, Seq<u8>)>,
                _,
            >(e),
        },
{
    let ghost fv = fetched.deep_view();
    let mut t: usize = 0;
    while t < fetched.len()
        invariant
            t <= fetched@.len(),
            fv == fetched.deep_view(),
            forall|k: int| 0 <= k < t ==> fv[k] is Some,
        decreases fetched@.len() - t,
    {
        assert(fv[t as int] == fetched@[t as int]@);
        match &fetched[t] {
            FetchOutcome::Missing => {
                assert(fv[t as int] is None);
                return Err(ObjError::FetchError);
            },
            FetchOutcome::Fetched(_) => {},
        }
        t = t + 1;
    }
    let mut libs: Vec<MaterialLib> = Vec::new();
    let mut i: usize = 0;
    while i < paths.len()
        invariant
            i <= paths@.len(),
            paths@.len() == fetched@.len(),
            fv == fetched.deep_view(),
            forall|k: int| 0 <= k < fv.len() ==> fv[k] is Some,
            libs@.len() == i,
            forall|k: int| 0 <= k < i ==> #[trigger] libs@[k].path_spec() == paths.deep_view()[k],
            forall|k: int| 0 <= k < i ==> (#[trigger] libs@[k].src_spec()) == fv[k].unwrap(),
            forall|k: int| 0 <= k < i ==> mtl_parse_ok(#[trigger] fv[k].unwrap()),
        decreases paths@.len() - i,
    {
        assert(fv[i as int] == fetched@[i as int]@);
        let src = match &fetched[i] {
            FetchOutcome::Fetched(b) => b,
            FetchOutcome::Missing => {
                proof {
                    assert(fv[i as int] is Some);
                }
                unreached()
            },
        };
        match parse_mtl(src.as_slice()) {
            Some(raw) => {
                assert(paths.deep_view()[i as int] == paths@[i as int]@);
                let entry = MaterialLib {
                    path: clone_bytes(paths[i].as_slice()),
                    raw,
                    src: Ghost(src@),
                };
                libs.push(entry);
            },
            None => {
                assert(!mtl_parse_ok(fv[i as int].unwrap()));
                return Err(ObjError::InvalidObjFormat);
            },
        }
        i = i + 1;
    }
    proof {
        assert(lib_entries(libs@) =~= Seq::new(
            paths.deep_view().len(),
            |k: int| (paths.deep_view()[k], fv[k].unwrap()),
        ));
    }
    Ok(libs)
}

/// The first library of the index whose literal path matches the
/// requested reference string.
fn find_lib<'a>(libs: &'a Vec<MaterialLib>, path: &[u8]) -> (r: Option<&'a MtlRaw>)
    ensures
        r is Some <==> exists|k: int| 0 <= k < libs@.len() && (#[trigger] libs@[k].path)@ == path@,
{
    let mut t: usize = 0;
    while t < libs.len()
        invariant
            t <= libs@.len(),
            forall|k: int| 0 <= k < t ==> (#[trigger] libs@[k].path)@ != path@,
        decreases libs@.len() - t,
    {
        if bytes_eq(libs[t].path.as_slice(), path) {
            return Some(&libs[t].raw);
        }
        t = t + 1;
    }
    None
}

/// A parsed OBJ: the raw mesh records in file order, and the flattened
/// material-descriptor sequence the records' material indices cite.
pub struct ParsedObj {
    pub meshes: Vec<RawMesh>,
    pub materials: Vec<MaterialDescriptor>,
}

/// The mathematical value of a parsed OBJ.
pub ghost struct ParsedObjView {
    pub meshes: Seq<RawMeshView>,
    pub materials: Seq<MaterialDescView>,
}

impl View for ParsedObj {
    type V = ParsedObjView;

    open spec fn view(&self) -> ParsedObjView {
        ParsedObjView { meshes: self.meshes.deep_view(), materials: self.materials.deep_view() }
    }
}

/// What the external OBJ grammar makes of the bytes, given the resolved
/// library index: a function of the bytes and the indexed sources alone.
pub uninterp spec fn obj_parse(bytes: Seq<u8>, libs: Seq<(Seq<u8>, Seq<u8>)>) -> Result<
    ParsedObjView,
    ObjError,
>;


/// A face-index component that the external grammar would abort on: a zero
/// or out-of-range-negative index reaches an out-of-bounds cast in its
/// vertex lookup, and a magnitude of nineteen or more digits reaches its
/// index arithmetic's overflow. `vc` is the number of vertex lines seen
/// before the face line. A component the grammar cannot parse at all is
/// harmless: it rejects the file with an ordinary error there. The check
/// is applied to every slot of a field alike, conservatively: a texture
/// or normal slot the grammar would merely skip is rejected too.
pub open spec fn comp_hazard(comp: Seq<u8>, vc: nat) -> bool {
    let neg = comp[0] == 45;
    let d0: int = if comp[0] == 45 || comp[0] == 43 { 1 } else { 0 };
    if comp.len() <= d0 {
        false
    } else if exists|k: int| d0 <= k < comp.len() && !(48 <= #[trigger] comp[k] <= 57) {
        false
    } else if comp.len() - d0 >= 19 {
        true
    } else {
        let v = digits_val(comp, d0, comp.len() as int);
        if neg {
            v == 0 || v > vc
        } else {
            v == 0
        }
    }
}

/// The value of the decimal digit run `s[i..j)`.
pub open spec fn digits_val(s: Seq<u8>, i: int, j: int) -> nat
    decreases j - i when i <= j
{
    if i >= j {
        0
    } else {
        digits_val(s, i, j - 1) * 10 + (s[j - 1] - 48) as nat
    }
}

/// Ten to the `n`.
pub open spec fn pow10(n: nat) -> nat
    decreases n,
{
    if n == 0 {
        1
    } else {
        10 * pow10((n - 1) as nat)
    }
}

/// A digit run's value is below ten to its length.
proof fn lemma_digits_val_bound(s: Seq<u8>, i: int, j: int)
    requires
        0 <= i <= j <= s.len(),
    ensures
        digits_val(s, i, j) < pow10((j - i) as nat) || exists|k: int|
            i <= k < j && !(48 <= #[trigger] s[k] <= 57),
    decreases j - i,
{
    if i < j {
        lemma_digits_val_bound(s, i, j - 1);
        if 48 <= s[j - 1] <= 57 {
        }
    }
}

/// Index of the first `/` of `tok` at or after `i`, or `tok.len()` if none.
pub open spec fn comp_end(tok: Seq<u8>, i: int) -> int
    decreases tok.len() - i when 0 <= i <= tok.len()
{
    if i >= tok.len() {
        tok.len() as int
    } else if tok[i] == 47 {
        i
    } else {
        comp_end(tok, i + 1)
    }
}

proof fn lemma_comp_end_props(tok: Seq<u8>, i: int)
    requires
        0 <= i <= tok.len(),
    ensures
        i <= comp_end(tok, i) <= tok.len(),
        comp_end(tok, i) == tok.len() || tok[comp_end(tok, i)] == 47,
        forall|k: int| i <= k < comp_end(tok, i) ==> tok[k] != 47,
    decreases tok.len() - i,
{
    if i < tok.len() && tok[i] != 47 {
        lemma_comp_end_props(tok, i + 1);
    }
}

/// Whether some `/`-separated component of the face field `tok`, the
/// component at position `p` onward, is one the external grammar would
/// abort on. A non-empty fourth component always is: the grammar writes
/// it past the end of its three-slot index array. An empty first
/// component is too: the vertex slot then keeps its `-1` sentinel, which
/// the grammar casts unchecked in its vertex lookup.
pub open spec fn field_hazard_from(tok: Seq<u8>, i: int, p: int, vc: nat) -> bool
    decreases tok.len() - i when 0 <= i <= tok.len() via field_hazard_decreases
{
    let j = comp_end(tok, i);
    let comp = tok.subrange(i, j);
    let here = if comp.len() == 0 {
        p == 0
    } else if p >= 3 {
        true
    } else {
        comp_hazard(comp, vc)
    };
    here || (if j + 1 <= tok.len() {
        field_hazard_from(tok, j + 1, p + 1, vc)
    } else {
        false
    })
}

#[via_fn]
proof fn field_hazard_decreases(tok: Seq<u8>, i: int, p: int, vc: nat) {
    if 0 <= i <= tok.len() {
        lemma_comp_end_props(tok, i);
    }
}

/// Whether some whitespace-separated field of `l` at or after `i` holds a
/// component the external grammar would abort on.
pub open spec fn fields_hazard_from(l: Seq<u8>, i: int, vc: nat) -> bool
    decreases l.len() - i when 0 <= i <= l.len() via fields_hazard_decreases
{
    let st = crate::scanner::skip_ws(l, i);
    if st >= l.len() {
        false
    } else {
        let en = crate::scanner::token_end(l, st);
        field_hazard_from(l.subrange(st, en), 0, 0, vc) || fields_hazard_from(l, en, vc)
    }
}

#[via_fn]
proof fn fields_hazard_decreases(l: Seq<u8>, i: int, vc: nat) {
    if 0 <= i <= l.len() {
        crate::scanner::lemma_skip_ws_props(l, i);
        let st = crate::scanner::skip_ws(l, i);
        if st < l.len() {
            crate::scanner::lemma_token_end_props(l, st);
        }
    }
}

/// The line with one trailing carriage return removed, as the grammar's
/// line reader strips it.
pub open spec fn stripped(line: Seq<u8>) -> Seq<u8> {
    if line.len() > 0 && line.last() == 13 {
        line.drop_last()
    } else {
        line
    }
}

/// Whether `l` holds a byte outside ASCII at or after `i`.
pub open spec fn has_high_byte(l: Seq<u8>, i: int) -> bool {
    exists|k: int| i <= k < l.len() && #[trigger] l[k] >= 128
}

/// The `usemtl` keyword as bytes.
pub open spec fn usemtl_token() -> Seq<u8> {
    seq![117u8, 115u8, 101u8, 109u8, 116u8, 108u8]
}

/// Whether one line is a shape the external OBJ grammar aborts on rather
/// than rejects. Those shapes are: content led by a non-ASCII byte (the
/// grammar's fixed-offset slicing of `o`/`g`/`usemtl` lines can then cut a
/// character in half); a `usemtl` line whose seventh byte does not exist
/// or starts a non-ASCII character (the grammar slices the raw line at
/// offset seven); and a face line with a non-ASCII byte, with a non-empty
/// fourth index component, or with an index component past the grammar's
/// bounds (see `comp_hazard`). `vc` counts the vertex lines before this
/// one.
pub open spec fn line_hazard(line: Seq<u8>, vc: nat) -> bool {
    let l = stripped(line);
    let a = crate::scanner::skip_ws(l, 0);
    if a >= l.len() {
        false
    } else if l[a] >= 128 {
        true
    } else if a == 0 && l.len() >= 6 && l.subrange(0, 6) == usemtl_token() && (l.len() == 6
        || l[6] >= 128) {
        true
    } else if (l[a] == 102 || l[a] == 108) && a + 1 < l.len() && l[a + 1] >= 128 {
        true
    } else if (l[a] == 102 || l[a] == 108) && (a + 1 == l.len() || crate::scanner::is_space(
        l[a + 1],
    )) {
        has_high_byte(l, a) || fields_hazard_from(l, a + 1, vc)
    } else {
        false
    }
}

/// Whether the line's first token is exactly `v`: such a line contributes
/// one vertex when the grammar accepts it.
pub open spec fn line_counts_vertex(line: Seq<u8>) -> bool {
    let l = stripped(line);
    let a = crate::scanner::skip_ws(l, 0);
    a < l.len() && l[a] == 118 && (a + 1 == l.len() || crate::scanner::is_space(l[a + 1]))
}

/// Whether any line of `s` at or after `i` is a shape the external OBJ
/// grammar aborts on, with `vc` vertex lines seen so far.
pub open spec fn text_hazard_from(s: Seq<u8>, i: int, vc: nat) -> bool
    decreases s.len() - i when 0 <= i <= s.len() via text_hazard_decreases
{
    if i >= s.len() {
        false
    } else {
        let j = crate::scanner::line_end(s, i);
        let line = s.subrange(i, j);
        let next = if j + 1 <= s.len() { j + 1 } else { s.len() as int };
        line_hazard(line, vc) || text_hazard_from(
            s,
            next,
            vc + if line_counts_vertex(line) { 1nat } else { 0nat },
        )
    }
}

#[via_fn]
proof fn text_hazard_decreases(s: Seq<u8>, i: int, vc: nat) {
    if 0 <= i < s.len() {
        crate::scanner::lemma_line_end_props(s, i);
    }
}

/// Whether the OBJ text holds any line the external grammar would abort
/// on rather than reject; geometry parsing rejects such text as malformed
/// before handing it to the grammar.
pub open spec fn obj_text_hazard(s: Seq<u8>) -> bool {
    text_hazard_from(s, 0, 0)
}


/// Finds the first `/` of `tok` at or after `from`.
fn find_comp_end(tok: &Vec<u8>, from: usize) -> (j: usize)
    requires
        from <= tok@.len(),
    ensures
        j == comp_end(tok@, from as int),
{
    let mut j = from;
    while j < tok.len() && tok[j] != 47
        invariant
            from <= j <= tok@.len(),
            comp_end(tok@, from as int) == comp_end(tok@, j as int),
        decreases tok@.len() - j,
    {
        assert(comp_end(tok@, j as int) == comp_end(tok@, j + 1));
        j = j + 1;
    }
    j
}

/// Decides `comp_hazard` for one non-empty face-index component.
fn comp_hazard_exec(comp: &Vec<u8>, vc: usize) -> (r: bool)
    requires
        comp@.len() > 0,
    ensures
        r == comp_hazard(comp@, vc as nat),
{
    let neg = comp[0] == 45;
    let d0: usize = if comp[0] == 45 || comp[0] == 43 {
        1
    } else {
        0
    };
    if comp.len() <= d0 {
        return false;
    }
    let mut k = d0;
    while k < comp.len()
        invariant
            d0 <= k <= comp@.len(),
            d0 < comp@.len(),
            d0 == (if comp@[0] == 45 || comp@[0] == 43 { 1int } else { 0int }),
            forall|q: int| d0 <= q < k ==> 48 <= #[trigger] comp@[q] <= 57,
        decreases comp@.len() - k,
    {
        if !(48 <= comp[k] && comp[k] <= 57) {
            assert(!(48 <= comp@[k as int] <= 57));
            return false;
        }
        k = k + 1;
    }
    assert(forall|q: int| d0 <= q < comp@.len() ==> 48 <= #[trigger] comp@[q] <= 57);
    if comp.len() - d0 >= 19 {
        return true;
    }
    let mut v: u64 = 0;
    let mut k2 = d0;
    proof {
        reveal_with_fuel(pow10, 20);
    }
    while k2 < comp.len()
        invariant
            d0 <= k2 <= comp@.len(),
            comp@.len() - d0 <= 18,
            forall|q: int| d0 <= q < comp@.len() ==> 48 <= #[trigger] comp@[q] <= 57,
            v == digits_val(comp@, d0 as int, k2 as int),
            v < pow10((k2 - d0) as nat),
            pow10(17) == 0x16345785D8A0000u64,
            pow10(18) == 0xDE0B6B3A7640000u64,
        decreases comp@.len() - k2,
    {
        proof {
            reveal_with_fuel(pow10, 20);
            assert(pow10(((k2 + 1) - d0) as nat) == 10 * pow10((k2 - d0) as nat));
            assert(pow10((k2 - d0) as nat) <= pow10(17)) by {
                lemma_pow10_le((k2 - d0) as nat, 17);
            }
        }
        let d = comp[k2] - 48;
        v = v * 10 + (d as u64);
        assert(v == digits_val(comp@, d0 as int, k2 + 1));
        k2 = k2 + 1;
    }
    if neg {
        v == 0 || v > (vc as u64)
    } else {
        v == 0
    }
}

/// Ten to a smaller power divides into ten to a larger one.
proof fn lemma_pow10_le(a: nat, b: nat)
    requires
        a <= b,
    ensures
        pow10(a) <= pow10(b),
    decreases b,
{
    if a < b {
        lemma_pow10_le(a, (b - 1) as nat);
        assert(pow10(b) == 10 * pow10((b - 1) as nat));
    }
}

/// Decides `field_hazard_from` for one whole face field.
fn field_hazard_exec(tok: &Vec<u8>, vc: usize) -> (r: bool)
    ensures
        r == field_hazard_from(tok@, 0, 0, vc as nat),
{
    let mut i: usize = 0;
    let mut p: usize = 0;
    loop
        invariant
            i <= tok@.len(),
            p <= i,
            field_hazard_from(tok@, 0, 0, vc as nat) == field_hazard_from(
                tok@,
                i as int,
                p as int,
                vc as nat,
            ),
        decreases tok@.len() - i,
    {
        let j = find_comp_end(tok, i);
        proof {
            lemma_comp_end_props(tok@, i as int);
        }
        if j == i && p == 0 {
            assert(field_hazard_from(tok@, i as int, p as int, vc as nat));
            return true;
        }
        if j > i {
            if p >= 3 {
                assert(field_hazard_from(tok@, i as int, p as int, vc as nat));
                return true;
            }
            let comp = clone_bytes(&tok.as_slice()[i..j]);
            assert(comp@ == tok@.subrange(i as int, j as int));
            if comp_hazard_exec(&comp, vc) {
                assert(field_hazard_from(tok@, i as int, p as int, vc as nat));
                return true;
            }
        }
        if j < tok.len() {
            assert(field_hazard_from(tok@, i as int, p as int, vc as nat) == field_hazard_from(
                tok@,
                j + 1,
                p + 1,
                vc as nat,
            ));
            i = j + 1;
            p = p + 1;
        } else {
            assert(!field_hazard_from(tok@, i as int, p as int, vc as nat));
            return false;
        }
    }
}

/// Reports a byte outside ASCII in `l` at or after `from`.
fn high_byte_exec(l: &Vec<u8>, from: usize) -> (r: bool)
    requires
        from <= l@.len(),
    ensures
        r == has_high_byte(l@, from as int),
{
    let mut k = from;
    while k < l.len()
        invariant
            from <= k <= l@.len(),
            forall|q: int| from <= q < k ==> !(#[trigger] l@[q] >= 128),
        decreases l@.len() - k,
    {
        if l[k] >= 128 {
            assert(l@[k as int] >= 128);
            return true;
        }
        k = k + 1;
    }
    false
}

/// The line with one trailing carriage return removed.
fn strip_cr_exec(line: &Vec<u8>) -> (r: Vec<u8>)
    ensures
        r@ == stripped(line@),
{
    if line.len() > 0 && line[line.len() - 1] == 13 {
        let r = clone_bytes(&line.as_slice()[0..line.len() - 1]);
        assert(r@ =~= stripped(line@));
        r
    } else {
        clone_bytes(line.as_slice())
    }
}

/// Whether `l` begins with the `usemtl` keyword bytes.
fn starts_usemtl(l: &Vec<u8>) -> (r: bool)
    ensures
        r == (l@.len() >= 6 && l@.subrange(0, 6) == usemtl_token()),
{
    if l.len() < 6 {
        return false;
    }
    let r = l[0] == 117 && l[1] == 115 && l[2] == 101 && l[3] == 109 && l[4] == 116 && l[5] == 108;
    if r {
        assert(l@.subrange(0, 6) =~= usemtl_token());
    } else {
        assert(l@.subrange(0, 6) != usemtl_token()) by {
            let sub = l@.subrange(0, 6);
            if sub == usemtl_token() {
                assert(sub[0] == 117u8 && sub[1] == 115u8 && sub[2] == 101u8 && sub[3] == 109u8
                    && sub[4] == 116u8 && sub[5] == 108u8);
            }
        }
    }
    r
}

/// Decides `line_hazard` for one line.
fn line_hazard_exec(line: &Vec<u8>, vc: usize) -> (r: bool)
    ensures
        r == line_hazard(line@, vc as nat),
{
    let l = strip_cr_exec(line);
    let a = crate::scanner::find_skip_ws(&l, 0);
    proof {
        crate::scanner::lemma_skip_ws_props(l@, 0);
    }
    if a >= l.len() {
        return false;
    }
    if l[a] >= 128 {
        return true;
    }
    let um = starts_usemtl(&l);
    if a == 0 && um {
        if l.len() == 6 {
            return true;
        }
        if l[6] >= 128 {
            return true;
        }
    }
    if l[a] == 102 || l[a] == 108 {
        if a + 1 < l.len() && l[a + 1] >= 128 {
            return true;
        }
        if a + 1 == l.len() || (l[a + 1] == 32 || l[a + 1] == 9 || l[a + 1] == 11
            || l[a + 1] == 12 || l[a + 1] == 13) {
            if high_byte_exec(&l, a) {
                return true;
            }
            let mut i = a + 1;
            loop
                invariant
                    a + 1 <= i <= l@.len(),
                    fields_hazard_from(l@, a + 1, vc as nat) == fields_hazard_from(
                        l@,
                        i as int,
                        vc as nat,
                    ),
                    line_hazard(line@, vc as nat) == fields_hazard_from(l@, a + 1, vc as nat),
                decreases l@.len() - i,
            {
                let st = crate::scanner::find_skip_ws(&l, i);
                proof {
                    crate::scanner::lemma_skip_ws_props(l@, i as int);
                }
                if st >= l.len() {
                    assert(!fields_hazard_from(l@, i as int, vc as nat));
                    return false;
                }
                let en = crate::scanner::find_token_end(&l, st);
                proof {
                    crate::scanner::lemma_token_end_props(l@, st as int);
                }
                let tok = clone_bytes(&l.as_slice()[st..en]);
                assert(tok@ == l@.subrange(st as int, en as int));
                if field_hazard_exec(&tok, vc) {
                    assert(fields_hazard_from(l@, i as int, vc as nat));
                    return true;
                }
                assert(fields_hazard_from(l@, i as int, vc as nat) == fields_hazard_from(
                    l@,
                    en as int,
                    vc as nat,
                ));
                i = en;
            }
        }
        return false;
    }
    false
}

/// Whether the line's first token is exactly `v`.
fn counts_vertex_exec(line: &Vec<u8>) -> (r: bool)
    ensures
        r == line_counts_vertex(line@),
{
    let l = strip_cr_exec(line);
    let a = crate::scanner::find_skip_ws(&l, 0);
    proof {
        crate::scanner::lemma_skip_ws_props(l@, 0);
    }
    a < l.len() && l[a] == 118 && (a + 1 == l.len() || (l[a + 1] == 32 || l[a + 1] == 9
        || l[a + 1] == 11 || l[a + 1] == 12 || l[a + 1] == 13))
}

/// Scans OBJ text for the line shapes the external grammar would abort on.
pub fn scan_obj_hazard(bytes: &[u8]) -> (r: bool)
    ensures
        r == obj_text_hazard(bytes@),
{
    let mut i: usize = 0;
    let mut vc: usize = 0;
    while i < bytes.len()
        invariant
            i <= bytes@.len(),
            vc <= i,
            obj_text_hazard(bytes@) == text_hazard_from(bytes@, i as int, vc as nat),
        decreases bytes@.len() - i,
    {
        let j = crate::scanner::find_line_end(bytes, i);
        proof {
            crate::scanner::lemma_line_end_props(bytes@, i as int);
        }
        let line = clone_bytes(&bytes[i..j]);
        assert(line@ == bytes@.subrange(i as int, j as int));
        let next = if j < bytes.len() {
            j + 1
        } else {
            j
        };
        if line_hazard_exec(&line, vc) {
            assert(text_hazard_from(bytes@, i as int, vc as nat));
            return true;
        }
        let counted = counts_vertex_exec(&line);
        proof {
            let vnext: nat = vc as nat + if line_counts_vertex(line@) { 1nat } else { 0nat };
            assert(text_hazard_from(bytes@, i as int, vc as nat) == text_hazard_from(
                bytes@,
                next as int,
                vnext,
            ));
        }
        if counted {
            vc = vc + 1;
        }
        i = next;
    }
    assert(!text_hazard_from(bytes@, i as int, vc as nat));
    false
}

/// Relies on tobj's Model layout: carries the flat arrays over, each
/// floating-point scalar as its 32-bit pattern, and the indices verbatim.
#[verifier::external_body]
fn record_of_model(m: tobj::Model) -> RawMesh {
    RawMesh {
        name: m.name.into_bytes(),
        positions: m.mesh.positions.iter().map(|v| v.to_bits()).collect(),
        normals: m.mesh.normals.iter().map(|v| v.to_bits()).collect(),
        texcoords: m.mesh.texcoords.iter().map(|v| v.to_bits()).collect(),
        indices: m.mesh.indices,
        material_id: m.mesh.material_id,
    }
}

/// Relies on tobj's Material layout: picks the descriptor fields, each
/// floating-point scalar as its 32-bit pattern.
#[verifier::external_body]
fn descriptor_of_material(m: tobj::Material) -> MaterialDescriptor {
    MaterialDescriptor {
        name: m.name.into_bytes(),
        diffuse: (m.diffuse[0].to_bits(), m.diffuse[1].to_bits(), m.diffuse[2].to_bits()),
        shininess: m.shininess.to_bits(),
        diffuse_texture: m.diffuse_texture.into_bytes(),
        normal_texture: m.normal_texture.into_bytes(),
        specular_texture: m.specular_texture.into_bytes(),
        ambient_texture: m.ambient_texture.into_bytes(),
    }
}

/// Relies on tobj::load_obj_buf: parses OBJ text into mesh records and the
/// flattened material sequence, resolving each material-library reference
/// through the index; the result depends on the OBJ bytes and the indexed
/// paths and sources alone. A reference absent from the index surfaces as
/// `ReferenceError`; any other rejection as `InvalidObjFormat`. The
/// grammar aborts rather than rejects on the line shapes of
/// `obj_text_hazard` (its `o`/`g`/`usemtl` handling slices the raw line
/// at fixed byte offsets, and its face handling writes a fourth index
/// component past a three-slot array and casts unchecked index
/// arithmetic), so those inputs are excluded here and rejected by the
/// caller first.
#[verifier::external_body]
fn parse_obj_records(bytes: &[u8], libs: &Vec<MaterialLib>) -> (r: Result<ParsedObj, ObjError>)
    requires
        !obj_text_hazard(bytes@),
    ensures
        match r {
            Ok(p) => obj_parse(bytes@, lib_entries(libs@)) == Ok::<_, ObjError>(p@),
            Err(e) => {
                &&& obj_parse(bytes@, lib_entries(libs@)) == Err::<ParsedObjView, _>(e)
                &&& (e == ObjError::InvalidObjFormat || e == ObjError::ReferenceError)
            },
        },
{
    let mut reader: &[u8] = bytes;
    let loaded = tobj::load_obj_buf(&mut reader, false, |p: &std::path::Path| {
        match p.to_str().and_then(|s| find_lib(libs, s.as_bytes())) {
            Some(raw) => Ok((raw.mats.clone(), raw.name_index.clone())),
            None => Err(tobj::LoadError::OpenFileFailed),
        }
    });
    match loaded {
        Ok((models, mats)) => Ok(ParsedObj {
            meshes: models.into_iter().map(record_of_model).collect(),
            materials: mats.into_iter().map(descriptor_of_material).collect(),
        }),
        Err(tobj::LoadError::OpenFileFailed) => Err(ObjError::ReferenceError),
        Err(_) => Err(ObjError::InvalidObjFormat),
    }
}

/// Parses the OBJ bytes against the resolved material-library index.
///
/// Text holding a line shape the grammar would abort on is rejected as
/// malformed first; any rejection by the grammar aborts the whole load
/// with `InvalidObjFormat`; a cited library reference that the index
/// cannot answer aborts it with `ReferenceError`. No partial scene is
/// emitted.
pub fn parse_geometry(bytes: &[u8], libs: &Vec<MaterialLib>) -> (r: Result<ParsedObj, ObjError>)
    ensures
        match r {
            Ok(p) => {
                &&& !obj_text_hazard(bytes@)
                &&& obj_parse(bytes@, lib_entries(libs@)) == Ok::<_, ObjError>(p@)
            },
            Err(e) => {
                &&& obj_text_hazard(bytes@) ==> e == ObjError::InvalidObjFormat
                &&& !obj_text_hazard(bytes@) ==> {
                    &&& obj_parse(bytes@, lib_entries(libs@)) == Err::<ParsedObjView, _>(e)
                    &&& (e == ObjError::InvalidObjFormat || e == ObjError::ReferenceError)
                }
            },
        },
{
    if scan_obj_hazard(bytes) {
        return Err(ObjError::InvalidObjFormat);
    }
    parse_obj_records(bytes, libs)
}

} // verus!
