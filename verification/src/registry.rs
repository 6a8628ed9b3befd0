//! Registry resolution: a flat text file of `name = url` lines, scanned
//! first-match-wins. A missing entry is distinct from an entry whose
//! right-hand side is empty.

use vstd::prelude::*;
use crate::text::{find_from, trim_spec, find_byte, trim, bytes_eq, subvec};

verus! {

/// End of the line that begins at `pos`: the next line feed, or the end.
pub open spec fn line_end(s: Seq<u8>, pos: int) -> int {
    match find_from(s, pos, 10) {
        Some(i) => i,
        None => s.len() as int,
    }
}

/// The line beginning at `pos`, without its line feed, and without a
/// trailing carriage return.
pub open spec fn line_at(s: Seq<u8>, pos: int) -> Seq<u8> {
    let raw = s.subrange(pos, line_end(s, pos));
    if raw.len() > 0 && raw[raw.len() - 1] == 13 {
        raw.drop_last()
    } else {
        raw
    }
}

/// Start of the next line after the one at `pos` (one past the end when
/// the line at `pos` is the last).
pub open spec fn next_pos(s: Seq<u8>, pos: int) -> int {
    line_end(s, pos) + 1
}

/// Match of one registry line against a queried name: split at the first
/// `=`; if the trimmed left side equals the name, the trimmed right side
/// is the URL.
pub open spec fn line_match(line: Seq<u8>, name: Seq<u8>) -> Option<Seq<u8>> {
    match find_from(line, 0, 61) {
        None => None,
        Some(e) => if trim_spec(line.subrange(0, e)) == name {
            Some(trim_spec(line.subrange(e + 1, line.len() as int)))
        } else {
            None
        },
    }
}

/// First-match-wins scan of the registry text from `pos` on.
pub open spec fn find_repo_from(s: Seq<u8>, name: Seq<u8>, pos: int) -> Option<Seq<u8>>
    decreases s.len() - pos + 1,
    via find_repo_from_decreases
{
    if pos < 0 || pos > s.len() {
        None
    } else {
        match line_match(line_at(s, pos), name) {
            Some(url) => Some(url),
            None => find_repo_from(s, name, next_pos(s, pos)),
        }
    }
}

#[via_fn]
proof fn find_repo_from_decreases(s: Seq<u8>, name: Seq<u8>, pos: int) {
    crate::text::lemma_find_from_props(s, pos, 10);
}

/// The URL the registry text resolves `name` to, if any.
pub open spec fn find_repo_spec(s: Seq<u8>, name: Seq<u8>) -> Option<Seq<u8>> {
    find_repo_from(s, name, 0)
}

/// Resolves a library name against the registry file content: the first
/// line whose `=`-split left side trims to `name` yields its trimmed
/// right side; `None` when no line matches.
pub fn find_repo(content: &[u8], name: &[u8]) -> (r: Option<Vec<u8>>)
    ensures
        match r {
            Some(url) => find_repo_spec(content@, name@) == Some(url@),
            None => find_repo_spec(content@, name@) is None,
        },
{
    let mut pos: usize = 0;
    loop
        invariant
            pos <= content@.len(),
            find_repo_spec(content@, name@) == find_repo_from(content@, name@, pos as int),
        decreases content@.len() - pos,
    {
        let end = match find_byte(content, pos, 10) {
            Some(i) => i,
            None => content.len(),
        };
        let mut line_hi = end;
        if line_hi > pos && content[line_hi - 1] == 13 {
            line_hi = line_hi - 1;
        }
        proof {
            assert(content@.subrange(pos as int, end as int).len() == end - pos);
            if line_hi < end {
                assert(content@.subrange(pos as int, end as int).drop_last() =~= content@
                    .subrange(pos as int, line_hi as int));
            }
            assert(line_at(content@, pos as int) =~= content@.subrange(
                pos as int,
                line_hi as int,
            ));
        }
        let line = subvec(content, pos, line_hi);
        if let Some(e) = find_byte(line.as_slice(), 0, 61) {
            let lhs = trim(&line.as_slice()[0..e]);
            if bytes_eq(lhs.as_slice(), name) {
                let rhs = trim(&line.as_slice()[e + 1..line.len()]);
                return Some(rhs);
            }
        }
        proof {
            assert(line_match(line_at(content@, pos as int), name@) is None);
            assert(find_repo_from(content@, name@, pos as int) == find_repo_from(
                content@,
                name@,
                next_pos(content@, pos as int),
            ));
        }
        if end == content.len() {
            proof {
                assert(find_repo_from(content@, name@, content@.len() as int + 1) is None);
            }
            return None;
        }
        pos = end + 1;
    }
}

} // verus!
