//! The package store seen as plain values: which directory entries count
//! as installed libraries, and what a listing says of each. The host
//! reads the directory and the manifest files; the decisions are here.

use vstd::prelude::*;
use crate::manifest::parse_manifest_spec;
use crate::text::clone_bytes;

verus! {

/// What the host saw for one entry of the store directory.
pub struct DirEntry {
    pub name: Vec<u8>,
    pub is_dir: bool,
    pub has_manifest: bool,
}

/// Mathematical model of a directory entry.
pub struct DirEntryV {
    pub name: Seq<u8>,
    pub is_dir: bool,
    pub has_manifest: bool,
}

impl View for DirEntry {
    type V = DirEntryV;

    open spec fn view(&self) -> DirEntryV {
        DirEntryV { name: self.name@, is_dir: self.is_dir, has_manifest: self.has_manifest }
    }
}

/// The models of a vector of directory entries.
pub open spec fn entries_of(v: Seq<DirEntry>) -> Seq<DirEntryV> {
    Seq::new(v.len(), |i: int| v[i]@)
}

/// The names visible as installed libraries, in directory order: exactly
/// the entries that are directories and contain a manifest file.
pub open spec fn visible_of(s: Seq<DirEntryV>) -> Seq<Seq<u8>>
    decreases s.len(),
{
    if s.len() == 0 {
        Seq::empty()
    } else {
        visible_of(s.drop_last()) + (if s.last().is_dir && s.last().has_manifest {
            seq![s.last().name]
        } else {
            Seq::empty()
        })
    }
}

/// Filters a directory reading to the entries that count as installed
/// libraries: directories holding a manifest file. Everything else is
/// invisible, even if it exists on disk.
pub fn visible_libraries(entries: &Vec<DirEntry>) -> (r: Vec<Vec<u8>>)
    ensures
        r.deep_view() == visible_of(entries_of(entries@)),
{
    let mut out: Vec<Vec<u8>> = Vec::new();
    let mut i: usize = 0;
    proof {
        assert(entries_of(entries@).subrange(0, 0) =~= Seq::<DirEntryV>::empty());
        assert(out.deep_view() =~= Seq::<Seq<u8>>::empty());
    }
    while i < entries.len()
        invariant
            i <= entries@.len(),
            out.deep_view() =~~= visible_of(entries_of(entries@).subrange(0, i as int)),
        decreases entries@.len() - i,
    {
        let ghost before = out.deep_view();
        if entries[i].is_dir && entries[i].has_manifest {
            let name = clone_bytes(&entries[i].name);
            out.push(name);
        }
        proof {
            assert(entries_of(entries@).subrange(0, i + 1).drop_last() =~= entries_of(
                entries@,
            ).subrange(0, i as int));
            assert(out.deep_view() =~~= visible_of(entries_of(entries@).subrange(0, i + 1)));
        }
        i = i + 1;
    }
    proof {
        assert(entries_of(entries@).subrange(0, entries@.len() as int) =~= entries_of(entries@));
    }
    out
}

/// One library name paired with its manifest file's text, if readable.
pub struct ListEntry {
    pub name: Vec<u8>,
    pub manifest_text: Option<Vec<u8>>,
}

/// Mathematical model of a list entry.
pub struct ListEntryV {
    pub name: Seq<u8>,
    pub manifest_text: Option<Seq<u8>>,
}

impl View for ListEntry {
    type V = ListEntryV;

    open spec fn view(&self) -> ListEntryV {
        ListEntryV {
            name: self.name@,
            manifest_text: match &self.manifest_text {
                Some(t) => Some(t@),
                None => None,
            },
        }
    }
}

/// One line of the listing.
#[derive(Debug)]
pub enum ListLine {
    /// A valid manifest: its declared name and version.
    Valid { name: Vec<u8>, version: Vec<u8> },
    /// A directory whose manifest could not be parsed: the directory name.
    Invalid { name: Vec<u8> },
}

/// Mathematical model of a listing line.
pub enum ListLineV {
    Valid { name: Seq<u8>, version: Seq<u8> },
    Invalid { name: Seq<u8> },
}

impl View for ListLine {
    type V = ListLineV;

    open spec fn view(&self) -> ListLineV {
        match self {
            ListLine::Valid { name, version } => ListLineV::Valid {
                name: name@,
                version: version@,
            },
            ListLine::Invalid { name } => ListLineV::Invalid { name: name@ },
        }
    }
}

/// The listing line one entry gets: the manifest's own name and version
/// when it parses, the directory name marked invalid when it does not.
pub open spec fn list_line_of(e: ListEntryV) -> ListLineV {
    match e.manifest_text {
        Some(t) => match parse_manifest_spec(t) {
            Some(m) => ListLineV::Valid { name: m.name, version: m.version },
            None => ListLineV::Invalid { name: e.name },
        },
        None => ListLineV::Invalid { name: e.name },
    }
}

/// The models of a vector of list entries.
pub open spec fn list_entries_of(v: Seq<ListEntry>) -> Seq<ListEntryV> {
    Seq::new(v.len(), |i: int| v[i]@)
}

/// Builds the listing, one line per entry, in order.
pub fn list_report(entries: Vec<ListEntry>) -> (r: Vec<ListLine>)
    ensures
        r@.len() == entries@.len(),
        forall|i: int| 0 <= i < r@.len() ==> (#[trigger] r@[i])@ == list_line_of(
            list_entries_of(entries@)[i],
        ),
{
    let mut out: Vec<ListLine> = Vec::new();
    let mut i: usize = 0;
    while i < entries.len()
        invariant
            i <= entries@.len(),
            out@.len() == i,
            forall|j: int| 0 <= j < i ==> (#[trigger] out@[j])@ == list_line_of(
                list_entries_of(entries@)[j],
            ),
        decreases entries@.len() - i,
    {
        let entry = &entries[i];
        let line = match &entry.manifest_text {
            Some(t) => match crate::manifest::parse_manifest(t.as_slice()) {
                Some(m) => ListLine::Valid { name: m.name, version: m.version },
                None => ListLine::Invalid { name: clone_bytes(&entry.name) },
            },
            None => ListLine::Invalid { name: clone_bytes(&entry.name) },
        };
        out.push(line);
        i = i + 1;
    }
    out
}

} // verus!
