//! The manifest format: a loosely JSON-like text scanned line by line for
//! the quoted keys `"name"`, `"version"`, `"entry"` and `"dependencies"`.
//! A manifest is either fully present (all three scalar fields recovered)
//! or absent as a whole; the dependency array defaults to empty when its
//! key never appears.

use vstd::prelude::*;
use crate::text::{find_from, trim_spec, starts_with, find_byte, trim, subvec,
    starts_with_bytes, lemma_find_from_props};
use crate::registry::{line_at, next_pos};

verus! {

/// The structured record one library's manifest describes.
#[derive(Debug)]
pub struct Manifest {
    pub name: Vec<u8>,
    pub version: Vec<u8>,
    pub entry: Vec<u8>,
    pub dependencies: Vec<Vec<u8>>,
}

/// Mathematical model of a manifest.
#[verifier::ext_equal]
pub struct ManifestView {
    pub name: Seq<u8>,
    pub version: Seq<u8>,
    pub entry: Seq<u8>,
    pub dependencies: Seq<Seq<u8>>,
}

impl View for Manifest {
    type V = ManifestView;

    open spec fn view(&self) -> ManifestView {
        ManifestView {
            name: self.name@,
            version: self.version@,
            entry: self.entry@,
            dependencies: self.dependencies.deep_view(),
        }
    }
}

/// The bytes of the quoted key `"name"`.
pub open spec fn key_name() -> Seq<u8> {
    seq![34u8, 110u8, 97u8, 109u8, 101u8, 34u8]
}

/// The bytes of the quoted key `"version"`.
pub open spec fn key_version() -> Seq<u8> {
    seq![34u8, 118u8, 101u8, 114u8, 115u8, 105u8, 111u8, 110u8, 34u8]
}

/// The bytes of the quoted key `"entry"`.
pub open spec fn key_entry() -> Seq<u8> {
    seq![34u8, 101u8, 110u8, 116u8, 114u8, 121u8, 34u8]
}

/// The bytes of the quoted key `"dependencies"`.
pub open spec fn key_dependencies() -> Seq<u8> {
    seq![34u8, 100u8, 101u8, 112u8, 101u8, 110u8, 100u8, 101u8, 110u8, 99u8, 105u8, 101u8, 115u8, 34u8]
}

fn key_name_bytes() -> (r: Vec<u8>)
    ensures
        r@ == key_name(),
{
    let mut v: Vec<u8> = Vec::new();
    v.push(34);
    v.push(110);
    v.push(97);
    v.push(109);
    v.push(101);
    v.push(34);
    proof {
        assert(v@ =~= key_name());
    }
    v
}

fn key_version_bytes() -> (r: Vec<u8>)
    ensures
        r@ == key_version(),
{
    let mut v: Vec<u8> = Vec::new();
    v.push(34);
    v.push(118);
    v.push(101);
    v.push(114);
    v.push(115);
    v.push(105);
    v.push(111);
    v.push(110);
    v.push(34);
    proof {
        assert(v@ =~= key_version());
    }
    v
}

fn key_entry_bytes() -> (r: Vec<u8>)
    ensures
        r@ == key_entry(),
{
    let mut v: Vec<u8> = Vec::new();
    v.push(34);
    v.push(101);
    v.push(110);
    v.push(116);
    v.push(114);
    v.push(121);
    v.push(34);
    proof {
        assert(v@ =~= key_entry());
    }
    v
}

fn key_dependencies_bytes() -> (r: Vec<u8>)
    ensures
        r@ == key_dependencies(),
{
    let mut v: Vec<u8> = Vec::new();
    v.push(34);
    v.push(100);
    v.push(101);
    v.push(112);
    v.push(101);
    v.push(110);
    v.push(100);
    v.push(101);
    v.push(110);
    v.push(99);
    v.push(105);
    v.push(101);
    v.push(115);
    v.push(34);
    proof {
        assert(v@ =~= key_dependencies());
    }
    v
}

/// Value of a string field: the span between the third and fourth quote
/// of the line (the first two delimit the key), absent when fewer than
/// four quotes follow.
pub open spec fn extract_string_spec(line: Seq<u8>) -> Option<Seq<u8>> {
    match find_from(line, 0, 34) {
        None => None,
        Some(q1) => match find_from(line, q1 + 1, 34) {
            None => None,
            Some(q2) => match find_from(line, q2 + 1, 34) {
                None => None,
                Some(q3) => match find_from(line, q3 + 1, 34) {
                    None => None,
                    Some(q4) => Some(line.subrange(q3 + 1, q4)),
                },
            },
        },
    }
}

/// Extracts a string field value from a line that begins with a quoted
/// key: the contents of the next quoted span after the key.
pub fn extract_string(line: &[u8]) -> (r: Option<Vec<u8>>)
    ensures
        match r {
            Some(v) => extract_string_spec(line@) == Some(v@),
            None => extract_string_spec(line@) is None,
        },
{
    if line.len() == 0 {
        return None;
    }
    let q1 = match find_byte(line, 0, 34) {
        Some(i) => i,
        None => {
            return None;
        },
    };
    let q2 = match find_byte(line, q1 + 1, 34) {
        Some(i) => i,
        None => {
            return None;
        },
    };
    let q3 = match find_byte(line, q2 + 1, 34) {
        Some(i) => i,
        None => {
            return None;
        },
    };
    let q4 = match find_byte(line, q3 + 1, 34) {
        Some(i) => i,
        None => {
            return None;
        },
    };
    Some(subvec(line, q3 + 1, q4))
}

/// The dependency names one comma-separated part contributes: exactly one
/// when its trimmed form is a quoted string of length two or more, none
/// otherwise (malformed parts are silently dropped).
pub open spec fn token_of(part: Seq<u8>) -> Seq<Seq<u8>> {
    let t = trim_spec(part);
    if t.len() >= 2 && t[0] == 34 && t[t.len() - 1] == 34 {
        seq![t.subrange(1, t.len() - 1)]
    } else {
        Seq::empty()
    }
}

/// The dependency names contributed by the comma-separated parts of
/// `inside` from `pos` on.
pub open spec fn tokens_from(inside: Seq<u8>, pos: int) -> Seq<Seq<u8>>
    decreases inside.len() - pos + 1,
    via tokens_from_decreases
{
    if pos < 0 || pos > inside.len() {
        Seq::empty()
    } else {
        match find_from(inside, pos, 44) {
            None => token_of(inside.subrange(pos, inside.len() as int)),
            Some(c) => token_of(inside.subrange(pos, c)) + tokens_from(inside, c + 1),
        }
    }
}

#[via_fn]
proof fn tokens_from_decreases(inside: Seq<u8>, pos: int) {
    lemma_find_from_props(inside, pos, 44);
}

/// The dependency array of a whole manifest text: everything between the
/// first `[` and the first `]` anywhere in the text (not scoped to the
/// `dependencies` key), split on commas. Absent when either bracket is
/// missing or the first `]` comes before the first `[`.
pub open spec fn extract_array_spec(full: Seq<u8>) -> Option<Seq<Seq<u8>>> {
    match (find_from(full, 0, 91), find_from(full, 0, 93)) {
        (Some(start), Some(end)) => if start < end {
            Some(tokens_from(full.subrange(start + 1, end), 0))
        } else {
            None
        },
        _ => None,
    }
}

/// Extracts the dependency array from the whole manifest text.
#[verifier::loop_isolation(false)]
pub fn extract_array(full: &[u8]) -> (r: Option<Vec<Vec<u8>>>)
    ensures
        match r {
            Some(deps) => extract_array_spec(full@) == Some(deps.deep_view()),
            None => extract_array_spec(full@) is None,
        },
{
    let start = match find_byte(full, 0, 91) {
        Some(i) => i,
        None => {
            return None;
        },
    };
    let end = match find_byte(full, 0, 93) {
        Some(i) => i,
        None => {
            return None;
        },
    };
    if start >= end {
        return None;
    }
    let inside = &full[start + 1..end];
    let ghost ins = inside@;
    let mut out: Vec<Vec<u8>> = Vec::new();
    let mut pos: usize = 0;
    loop
        invariant
            pos <= ins.len(),
            inside@ == ins,
            tokens_from(ins, 0) == out.deep_view() + tokens_from(ins, pos as int),
        decreases ins.len() - pos,
    {
        let (part_end, last) = match find_byte(inside, pos, 44) {
            Some(c) => (c, false),
            None => (inside.len(), true),
        };
        let t = trim(&inside[pos..part_end]);
        let ghost before = out.deep_view();
        if t.len() >= 2 && t[0] == 34 && t[t.len() - 1] == 34 {
            let tok = subvec(t.as_slice(), 1, t.len() - 1);
            out.push(tok);
            proof {
                assert(out.deep_view() =~~= before + token_of(ins.subrange(
                    pos as int,
                    part_end as int,
                )));
            }
        } else {
            proof {
                assert(token_of(ins.subrange(pos as int, part_end as int)) =~= Seq::<
                    Seq<u8>,
                >::empty());
                assert(out.deep_view() =~~= before + token_of(ins.subrange(
                    pos as int,
                    part_end as int,
                )));
            }
        }
        if last {
            proof {
                assert(tokens_from(ins, pos as int) == token_of(ins.subrange(
                    pos as int,
                    ins.len() as int,
                )));
                assert(tokens_from(ins, 0) =~~= out.deep_view());
            }
            return Some(out);
        }
        proof {
            assert(tokens_from(ins, pos as int) == token_of(ins.subrange(pos as int, part_end as int))
                + tokens_from(ins, part_end + 1));
            assert(tokens_from(ins, 0) =~~= out.deep_view() + tokens_from(ins, part_end + 1));
        }
        pos = part_end + 1;
    }
}

/// State of the line scan: which fields have been recovered so far.
#[verifier::ext_equal]
pub struct ScanState {
    pub name: Option<Seq<u8>>,
    pub version: Option<Seq<u8>>,
    pub entry: Option<Seq<u8>>,
    pub dependencies: Seq<Seq<u8>>,
}

/// Scan state before any line has been read.
pub open spec fn scan_init() -> ScanState {
    ScanState { name: None, version: None, entry: None, dependencies: Seq::empty() }
}

/// Effect of one line on the scan state: a line whose trimmed form begins
/// with a known quoted key assigns that field (last assignment wins); a
/// malformed field value fails the whole scan; any other line is ignored.
pub open spec fn scan_line(full: Seq<u8>, line: Seq<u8>, st: ScanState) -> Option<ScanState> {
    let l = trim_spec(line);
    if starts_with(l, key_name()) {
        match extract_string_spec(l) {
            None => None,
            Some(v) => Some(
                ScanState {
                    name: Some(v),
                    version: st.version,
                    entry: st.entry,
                    dependencies: st.dependencies,
                },
            ),
        }
    } else if starts_with(l, key_version()) {
        match extract_string_spec(l) {
            None => None,
            Some(v) => Some(
                ScanState {
                    name: st.name,
                    version: Some(v),
                    entry: st.entry,
                    dependencies: st.dependencies,
                },
            ),
        }
    } else if starts_with(l, key_entry()) {
        match extract_string_spec(l) {
            None => None,
            Some(v) => Some(
                ScanState {
                    name: st.name,
                    version: st.version,
                    entry: Some(v),
                    dependencies: st.dependencies,
                },
            ),
        }
    } else if starts_with(l, key_dependencies()) {
        match extract_array_spec(full) {
            None => None,
            Some(d) => Some(
                ScanState {
                    name: st.name,
                    version: st.version,
                    entry: st.entry,
                    dependencies: d,
                },
            ),
        }
    } else {
        Some(st)
    }
}

/// The scan over the lines of `full` from `pos` on.
pub open spec fn scan_from(full: Seq<u8>, pos: int, st: ScanState) -> Option<ScanState>
    decreases full.len() - pos + 1,
    via scan_from_decreases
{
    if pos < 0 || pos > full.len() {
        Some(st)
    } else {
        match scan_line(full, line_at(full, pos), st) {
            None => None,
            Some(st2) => scan_from(full, next_pos(full, pos), st2),
        }
    }
}

#[via_fn]
proof fn scan_from_decreases(full: Seq<u8>, pos: int, st: ScanState) {
    lemma_find_from_props(full, pos, 10);
}

/// The manifest a whole text parses to: present exactly when the scan
/// succeeds with all three scalar fields assigned.
pub open spec fn parse_manifest_spec(full: Seq<u8>) -> Option<ManifestView> {
    match scan_from(full, 0, scan_init()) {
        None => None,
        Some(st) => match (st.name, st.version, st.entry) {
            (Some(n), Some(v), Some(e)) => Some(
                ManifestView { name: n, version: v, entry: e, dependencies: st.dependencies },
            ),
            _ => None,
        },
    }
}

/// The scan state the exec parser's locals stand for.
pub open spec fn st_of(
    name: Option<Vec<u8>>,
    version: Option<Vec<u8>>,
    entry: Option<Vec<u8>>,
    deps: Vec<Vec<u8>>,
) -> ScanState {
    ScanState {
        name: match name {
            Some(v) => Some(v@),
            None => None,
        },
        version: match version {
            Some(v) => Some(v@),
            None => None,
        },
        entry: match entry {
            Some(v) => Some(v@),
            None => None,
        },
        dependencies: deps.deep_view(),
    }
}

/// Parses a manifest text. Returns the record exactly when every scalar
/// field line is well formed and all three appear; otherwise the whole
/// manifest is absent.
#[verifier::loop_isolation(false)]
pub fn parse_manifest(full: &[u8]) -> (r: Option<Manifest>)
    ensures
        match r {
            Some(m) => parse_manifest_spec(full@) == Some(m@),
            None => parse_manifest_spec(full@) is None,
        },
{
    let key_n = key_name_bytes();
    let key_v = key_version_bytes();
    let key_e = key_entry_bytes();
    let key_d = key_dependencies_bytes();
    let mut name: Option<Vec<u8>> = None;
    let mut version: Option<Vec<u8>> = None;
    let mut entry: Option<Vec<u8>> = None;
    let mut deps: Vec<Vec<u8>> = Vec::new();
    let mut pos: usize = 0;
    proof {
        assert(st_of(name, version, entry, deps) =~~= scan_init());
    }
    loop
        invariant
            pos <= full@.len(),
            scan_from(full@, 0, scan_init()) == scan_from(
                full@,
                pos as int,
                st_of(name, version, entry, deps),
            ),
        decreases full@.len() - pos,
    {
        let end = match find_byte(full, pos, 10) {
            Some(i) => i,
            None => full.len(),
        };
        let mut line_hi = end;
        if line_hi > pos && full[line_hi - 1] == 13 {
            line_hi = line_hi - 1;
        }
        proof {
            assert(full@.subrange(pos as int, end as int).len() == end - pos);
            if line_hi < end {
                assert(full@.subrange(pos as int, end as int).drop_last() =~= full@.subrange(
                    pos as int,
                    line_hi as int,
                ));
            }
            assert(line_at(full@, pos as int) =~= full@.subrange(pos as int, line_hi as int));
        }
        let raw = subvec(full, pos, line_hi);
        let l = trim(raw.as_slice());
        let ghost st0 = st_of(name, version, entry, deps);
        if starts_with_bytes(l.as_slice(), key_n.as_slice()) {
            match extract_string(l.as_slice()) {
                None => {
                    proof {
                        assert(scan_line(full@, line_at(full@, pos as int), st0) is None);
                    }
                    return None;
                },
                Some(v) => {
                    name = Some(v);
                },
            }
        } else if starts_with_bytes(l.as_slice(), key_v.as_slice()) {
            match extract_string(l.as_slice()) {
                None => {
                    proof {
                        assert(scan_line(full@, line_at(full@, pos as int), st0) is None);
                    }
                    return None;
                },
                Some(v) => {
                    version = Some(v);
                },
            }
        } else if starts_with_bytes(l.as_slice(), key_e.as_slice()) {
            match extract_string(l.as_slice()) {
                None => {
                    proof {
                        assert(scan_line(full@, line_at(full@, pos as int), st0) is None);
                    }
                    return None;
                },
                Some(v) => {
                    entry = Some(v);
                },
            }
        } else if starts_with_bytes(l.as_slice(), key_d.as_slice()) {
            match extract_array(full) {
                None => {
                    proof {
                        assert(scan_line(full@, line_at(full@, pos as int), st0) is None);
                    }
                    return None;
                },
                Some(d) => {
                    deps = d;
                },
            }
        }
        proof {
            assert(scan_line(full@, line_at(full@, pos as int), st0) == Some(
                st_of(name, version, entry, deps),
            ));
            assert(scan_from(full@, pos as int, st0) == scan_from(
                full@,
                next_pos(full@, pos as int),
                st_of(name, version, entry, deps),
            ));
        }
        if end == full.len() {
            proof {
                assert(scan_from(full@, full@.len() as int + 1, st_of(name, version, entry, deps))
                    == Some(st_of(name, version, entry, deps)));
            }
            break;
        }
        pos = end + 1;
    }
    match (name, version, entry) {
        (Some(n), Some(v), Some(e)) => Some(
            Manifest { name: n, version: v, entry: e, dependencies: deps },
        ),
        _ => None,
    }
}

/// One of the three scalar fields a manifest must carry.
pub enum ScalarField {
    Name,
    Version,
    Entry,
}

/// The quoted key that assigns the field.
pub open spec fn key_of(which: ScalarField) -> Seq<u8> {
    match which {
        ScalarField::Name => key_name(),
        ScalarField::Version => key_version(),
        ScalarField::Entry => key_entry(),
    }
}

/// The field's value in a scan state.
pub open spec fn field_of(st: ScanState, which: ScalarField) -> Option<Seq<u8>> {
    match which {
        ScalarField::Name => st.name,
        ScalarField::Version => st.version,
        ScalarField::Entry => st.entry,
    }
}

/// Does a line begin at `p` (the very start, or just after a line feed)?
pub open spec fn is_line_start(s: Seq<u8>, p: int) -> bool {
    p == 0 || (0 < p <= s.len() && s[p - 1] == 10)
}

proof fn lemma_scan_keeps_missing(full: Seq<u8>, pos: int, st: ScanState, which: ScalarField)
    requires
        0 <= pos,
        is_line_start(full, pos) || pos > full.len(),
        field_of(st, which) is None,
        forall|p: int|
            is_line_start(full, p) ==> !starts_with(
                trim_spec(#[trigger] line_at(full, p)),
                key_of(which),
            ),
    ensures
        match scan_from(full, pos, st) {
            Some(st2) => field_of(st2, which) is None,
            None => true,
        },
    decreases full.len() - pos + 1,
{
    if pos <= full.len() {
        match scan_line(full, line_at(full, pos), st) {
            None => {},
            Some(st2) => {
                assert(field_of(st2, which) is None);
                lemma_find_from_props(full, pos, 10);
                lemma_scan_keeps_missing(full, next_pos(full, pos), st2, which);
            },
        }
    }
}

/// A manifest text none of whose lines assigns one of the three scalar
/// fields parses to absent: a missing `"name"`, `"version"` or `"entry"`
/// invalidates the whole manifest.
pub proof fn lemma_missing_scalar_field_absent(full: Seq<u8>, which: ScalarField)
    requires
        forall|p: int|
            is_line_start(full, p) ==> !starts_with(
                trim_spec(#[trigger] line_at(full, p)),
                key_of(which),
            ),
    ensures
        parse_manifest_spec(full) is None,
{
    lemma_scan_keeps_missing(full, 0, scan_init(), which);
}

} // verus!
