//! Material dependency scanner: extracts `mtllib` references from OBJ text.
//!
//! The scanner walks the raw bytes line by line. A line whose first
//! whitespace-separated token is `mtllib` contributes its second token (a
//! relative path) to the output, in encounter order, duplicates retained.
//! Bytes that are not valid text, or a `mtllib` line with no path token,
//! fail the scan.

use vstd::prelude::*;
use crate::ObjError;

verus! {

/// Whether `str::from_utf8` accepts these bytes: a function of the bytes alone.
pub uninterp spec fn is_utf8(bytes: Seq<u8>) -> bool;

/// Relies on core::str::from_utf8: returns `Ok` exactly when the bytes are
/// valid UTF-8 text.
#[verifier::external_body]
fn check_utf8(bytes: &[u8]) -> (r: bool)
    ensures
        r == is_utf8(bytes@),
{
    core::str::from_utf8(bytes).is_ok()
}

/// Token-separating whitespace within a line: the ASCII whitespace set
/// (space, tab, vertical tab, form feed, carriage return). Multi-byte
/// whitespace characters do not separate tokens here: a directive led or
/// split by one is not recognized, and geometry parsing treats such lines
/// as malformed text.
pub open spec fn is_space(b: u8) -> bool {
    b == 32 || b == 9 || b == 11 || b == 12 || b == 13
}

/// The `mtllib` keyword as bytes.
pub open spec fn mtllib_token() -> Seq<u8> {
    seq![109u8, 116u8, 108u8, 108u8, 105u8, 98u8]
}

/// Index of the first newline at or after `i`, or `s.len()` if none.
pub open spec fn line_end(s: Seq<u8>, i: int) -> int
    decreases s.len() - i when 0 <= i <= s.len()
{
    if i >= s.len() {
        s.len() as int
    } else if s[i] == 10 {
        i
    } else {
        line_end(s, i + 1)
    }
}

/// Index of the first non-whitespace byte of `line` at or after `i`,
/// or `line.len()` if none.
pub open spec fn skip_ws(line: Seq<u8>, i: int) -> int
    decreases line.len() - i when 0 <= i <= line.len()
{
    if i >= line.len() {
        line.len() as int
    } else if is_space(line[i]) {
        skip_ws(line, i + 1)
    } else {
        i
    }
}

/// Index of the first whitespace byte of `line` at or after `i`,
/// or `line.len()` if none.
pub open spec fn token_end(line: Seq<u8>, i: int) -> int
    decreases line.len() - i when 0 <= i <= line.len()
{
    if i >= line.len() {
        line.len() as int
    } else if is_space(line[i]) {
        i
    } else {
        token_end(line, i + 1)
    }
}

pub open spec fn first_token_start(line: Seq<u8>) -> int {
    skip_ws(line, 0)
}

pub open spec fn first_token_end(line: Seq<u8>) -> int {
    token_end(line, first_token_start(line))
}

pub open spec fn first_token(line: Seq<u8>) -> Seq<u8> {
    line.subrange(first_token_start(line), first_token_end(line))
}

pub open spec fn second_token_start(line: Seq<u8>) -> int {
    skip_ws(line, first_token_end(line))
}

pub open spec fn second_token_end(line: Seq<u8>) -> int {
    token_end(line, second_token_start(line))
}

/// Whether the line holds a second whitespace-separated token.
pub open spec fn has_second_token(line: Seq<u8>) -> bool {
    second_token_start(line) < line.len()
}

pub open spec fn second_token(line: Seq<u8>) -> Seq<u8> {
    line.subrange(second_token_start(line), second_token_end(line))
}

/// Whether the line's first token is the `mtllib` keyword.
pub open spec fn is_mtllib_line(line: Seq<u8>) -> bool {
    first_token(line) == mtllib_token()
}

/// The line of `s` that starts at `i`.
pub open spec fn line_at(s: Seq<u8>, i: int) -> Seq<u8> {
    s.subrange(i, line_end(s, i))
}

/// Scans the lines of `s` from `i` on. `None` means a `mtllib` line with
/// no path token; otherwise the referenced paths, in encounter order.
pub open spec fn scan_from(s: Seq<u8>, i: int) -> Option<Seq<Seq<u8>>>
    decreases s.len() - i when 0 <= i <= s.len() via scan_from_decreases
{
    if i >= s.len() {
        Some(Seq::empty())
    } else {
        let j = line_end(s, i);
        let line = s.subrange(i, j);
        let next = if j + 1 <= s.len() { j + 1 } else { s.len() as int };
        if is_mtllib_line(line) {
            if has_second_token(line) {
                match scan_from(s, next) {
                    Some(rest) => Some(seq![second_token(line)] + rest),
                    None => None,
                }
            } else {
                None
            }
        } else {
            scan_from(s, next)
        }
    }
}

#[via_fn]
proof fn scan_from_decreases(s: Seq<u8>, i: int) {
    if 0 <= i < s.len() {
        lemma_line_end_props(s, i);
    }
}

/// The scan of a whole OBJ source.
pub open spec fn scan_spec(s: Seq<u8>) -> Option<Seq<Seq<u8>>> {
    scan_from(s, 0)
}

/// `line_end` lands between `i` and the length, on a newline unless at the end,
/// with no newline before it.
pub proof fn lemma_line_end_props(s: Seq<u8>, i: int)
    requires
        0 <= i <= s.len(),
    ensures
        i <= line_end(s, i) <= s.len(),
        line_end(s, i) == s.len() || s[line_end(s, i)] == 10,
        forall|k: int| i <= k < line_end(s, i) ==> s[k] != 10,
    decreases s.len() - i,
{
    if i >= s.len() {
    } else if s[i] == 10 {
    } else {
        lemma_line_end_props(s, i + 1);
    }
}

/// `skip_ws` lands between `i` and the length, on a non-whitespace byte unless
/// at the end, with only whitespace before it.
pub proof fn lemma_skip_ws_props(line: Seq<u8>, i: int)
    requires
        0 <= i <= line.len(),
    ensures
        i <= skip_ws(line, i) <= line.len(),
        skip_ws(line, i) == line.len() || !is_space(line[skip_ws(line, i)]),
        forall|k: int| i <= k < skip_ws(line, i) ==> is_space(line[k]),
    decreases line.len() - i,
{
    if i >= line.len() {
    } else if is_space(line[i]) {
        lemma_skip_ws_props(line, i + 1);
    } else {
    }
}

/// `token_end` lands between `i` and the length, on a whitespace byte unless
/// at the end, with no whitespace before it.
pub proof fn lemma_token_end_props(line: Seq<u8>, i: int)
    requires
        0 <= i <= line.len(),
    ensures
        i <= token_end(line, i) <= line.len(),
        token_end(line, i) == line.len() || is_space(line[token_end(line, i)]),
        forall|k: int| i <= k < token_end(line, i) ==> !is_space(line[k]),
    decreases line.len() - i,
{
    if i >= line.len() {
    } else if is_space(line[i]) {
    } else {
        lemma_token_end_props(line, i + 1);
    }
}

/// Finds the end of the line that starts at `from`.
pub(crate) fn find_line_end(bytes: &[u8], from: usize) -> (j: usize)
    requires
        from <= bytes@.len(),
    ensures
        j == line_end(bytes@, from as int),
{
    let mut j = from;
    while j < bytes.len() && bytes[j] != 10
        invariant
            from <= j <= bytes@.len(),
            line_end(bytes@, from as int) == line_end(bytes@, j as int),
        decreases bytes@.len() - j,
    {
        assert(line_end(bytes@, j as int) == line_end(bytes@, j + 1));
        j = j + 1;
    }
    j
}

/// Finds the first non-whitespace position of `line` at or after `from`.
pub(crate) fn find_skip_ws(line: &Vec<u8>, from: usize) -> (a: usize)
    requires
        from <= line@.len(),
    ensures
        a == skip_ws(line@, from as int),
{
    let mut a = from;
    while a < line.len() && (line[a] == 32 || line[a] == 9 || line[a] == 11 || line[a] == 12
        || line[a] == 13)
        invariant
            from <= a <= line@.len(),
            skip_ws(line@, from as int) == skip_ws(line@, a as int),
        decreases line@.len() - a,
    {
        assert(skip_ws(line@, a as int) == skip_ws(line@, a + 1));
        a = a + 1;
    }
    a
}

/// Finds the first whitespace position of `line` at or after `from`.
pub(crate) fn find_token_end(line: &Vec<u8>, from: usize) -> (b: usize)
    requires
        from <= line@.len(),
    ensures
        b == token_end(line@, from as int),
{
    let mut b = from;
    while b < line.len() && !(line[b] == 32 || line[b] == 9 || line[b] == 11 || line[b] == 12
        || line[b] == 13)
        invariant
            from <= b <= line@.len(),
            token_end(line@, from as int) == token_end(line@, b as int),
        decreases line@.len() - b,
    {
        assert(token_end(line@, b as int) == token_end(line@, b + 1));
        b = b + 1;
    }
    b
}

/// Copies `bytes[from..to]` into a fresh vector.
fn copy_range(bytes: &[u8], from: usize, to: usize) -> (r: Vec<u8>)
    requires
        from <= to <= bytes@.len(),
    ensures
        r@ == bytes@.subrange(from as int, to as int),
{
    let mut r: Vec<u8> = Vec::new();
    let mut t = from;
    while t < to
        invariant
            from <= t <= to <= bytes@.len(),
            r@ == bytes@.subrange(from as int, t as int),
        decreases to - t,
    {
        r.push(bytes[t]);
        assert(r@ =~= bytes@.subrange(from as int, t + 1));
        t = t + 1;
    }
    r
}

/// Whether `line[a..b]` is exactly the `mtllib` keyword.
fn range_is_mtllib(line: &Vec<u8>, a: usize, b: usize) -> (r: bool)
    requires
        a <= b <= line@.len(),
    ensures
        r == (line@.subrange(a as int, b as int) == mtllib_token()),
{
    if b - a != 6 {
        assert(line@.subrange(a as int, b as int).len() != mtllib_token().len());
        return false;
    }
    let r = line[a] == 109 && line[a + 1] == 116 && line[a + 2] == 108 && line[a + 3] == 108
        && line[a + 4] == 105 && line[a + 5] == 98;
    if r {
        assert(line@.subrange(a as int, b as int) =~= mtllib_token());
    } else {
        assert(line@.subrange(a as int, b as int) != mtllib_token()) by {
            let sub = line@.subrange(a as int, b as int);
            if sub == mtllib_token() {
                assert(sub[0] == 109u8 && sub[1] == 116u8 && sub[2] == 108u8 && sub[3] == 108u8
                    && sub[4] == 105u8 && sub[5] == 98u8);
            }
        }
    }
    r
}

/// Scans OBJ text for `mtllib` directives and returns the referenced
/// material-library paths, in encounter order, duplicates retained.
///
/// Returns `InvalidObjFormat` when the bytes are not valid text or a
/// `mtllib` line lacks its path token; every other line is ignored.
pub fn get_material_lib_paths(bytes: &[u8]) -> (r: Result<Vec<Vec<u8>>, ObjError>)
    ensures
        match r {
            Ok(paths) => is_utf8(bytes@) && scan_spec(bytes@) == Some(paths.deep_view()),
            Err(e) => e == ObjError::InvalidObjFormat
                && (!is_utf8(bytes@) || scan_spec(bytes@) is None),
        },
{
    if !check_utf8(bytes) {
        return Err(ObjError::InvalidObjFormat);
    }
    let mut out: Vec<Vec<u8>> = Vec::new();
    let mut i: usize = 0;
    while i < bytes.len()
        invariant
            i <= bytes@.len(),
            scan_from(bytes@, 0) == match scan_from(bytes@, i as int) {
                Some(rest) => Some(out.deep_view() + rest),
                None => None::<Seq<Seq<u8>>>,
            },
            is_utf8(bytes@),
        decreases bytes@.len() - i,
    {
        let ghost s = bytes@;
        let j = find_line_end(bytes, i);
        proof {
            lemma_line_end_props(s, i as int);
        }
        let line = copy_range(bytes, i, j);
        let ghost lv = line@;
        let a = find_skip_ws(&line, 0);
        proof {
            lemma_skip_ws_props(lv, 0);
        }
        let b = find_token_end(&line, a);
        proof {
            lemma_token_end_props(lv, a as int);
        }
        let next = if j < bytes.len() { j + 1 } else { j };
        if range_is_mtllib(&line, a, b) {
            assert(is_mtllib_line(lv));
            let c = find_skip_ws(&line, b);
            proof {
                lemma_skip_ws_props(lv, b as int);
            }
            if c >= line.len() {
                assert(!has_second_token(lv));
                assert(scan_from(s, i as int) is None);
                return Err(ObjError::InvalidObjFormat);
            }
            let d = find_token_end(&line, c);
            proof {
                lemma_token_end_props(lv, c as int);
            }
            let tok = copy_range(line.as_slice(), c, d);
            assert(tok@ == second_token(lv));
            let ghost old_out = out.deep_view();
            out.push(tok);
            proof {
                assert(out.deep_view() =~~= old_out + seq![second_token(lv)]);
                let rest_i = scan_from(s, i as int);
                let rest_next = scan_from(s, next as int);
                assert(rest_i == match rest_next {
                    Some(rest) => Some(seq![second_token(lv)] + rest),
                    None => None::<Seq<Seq<u8>>>,
                });
                if rest_next is Some {
                    assert(old_out + (seq![second_token(lv)] + rest_next.unwrap())
                        =~= (old_out + seq![second_token(lv)]) + rest_next.unwrap());
                }
            }
        } else {
            assert(!is_mtllib_line(lv));
            assert(scan_from(s, i as int) == scan_from(s, next as int));
        }
        i = next;
    }
    assert(scan_from(bytes@, i as int) == Some(Seq::<Seq<u8>>::empty()));
    assert(out.deep_view() + Seq::<Seq<u8>>::empty() =~= out.deep_view());
    Ok(out)
}

/// A source with no `mtllib` line scans to the empty path sequence: the load
/// then proceeds with an empty material index.
pub proof fn lemma_scan_no_mtllib_empty(s: Seq<u8>)
    requires
        forall|i: int| 0 <= i < s.len() && (i == 0 || s[i - 1] == 10)
            ==> !is_mtllib_line(#[trigger] line_at(s, i)),
    ensures
        scan_spec(s) == Some(Seq::<Seq<u8>>::empty()),
{
    lemma_scan_no_mtllib_from(s, 0);
}

proof fn lemma_scan_no_mtllib_from(s: Seq<u8>, i: int)
    requires
        0 <= i <= s.len(),
        i == s.len() || i == 0 || s[i - 1] == 10,
        forall|k: int| 0 <= k < s.len() && (k == 0 || s[k - 1] == 10)
            ==> !is_mtllib_line(#[trigger] line_at(s, k)),
    ensures
        scan_from(s, i) == Some(Seq::<Seq<u8>>::empty()),
    decreases s.len() - i,
{
    if i >= s.len() {
    } else {
        let j = line_end(s, i);
        lemma_line_end_props(s, i);
        assert(line_at(s, i) == s.subrange(i, j));
        assert(!is_mtllib_line(s.subrange(i, j)));
        let next = if j + 1 <= s.len() { j + 1 } else { s.len() as int };
        if j + 1 <= s.len() {
            assert(s[j] == 10);
        }
        lemma_scan_no_mtllib_from(s, next);
    }
}

} // verus!
