//! Opening files: previews that carry over to the open, and what a failed
//! open means.

use crate::paths::{document_format, format_of, DocumentFormat};
use crate::text::same_text;
use vstd::prelude::*;

verus! {

/// How many previews carry over.
pub const DOCX_PREVIEW_BRIDGE_CAP: usize = 4;

/// What tells whether a file is unchanged: when it was modified, and its
/// length.
#[derive(Clone, Copy, Debug, PartialEq, Eq, Structural)]
pub struct Fingerprint {
    pub modified_nanos: i128,
    pub len: u64,
}

/// A preview that a later open can take over.
#[derive(Debug)]
pub struct BridgeEntry<D> {
    pub path: String,
    pub fingerprint: Fingerprint,
    pub document: D,
}

/// The previews that carry over, oldest first.
#[derive(Debug)]
pub struct DocxPreviewBridge<D> {
    pub entries: Vec<BridgeEntry<D>>,
}

/// The entry is of this file as it is now.
pub open spec fn is_for<D>(entry: BridgeEntry<D>, path: Seq<char>, fingerprint: Fingerprint) -> bool {
    entry.path@ == path && entry.fingerprint == fingerprint
}

/// Those of the first `k` entries that are of other files.
pub open spec fn of_others<D>(entries: Seq<BridgeEntry<D>>, path: Seq<char>, k: int) -> Seq<
    BridgeEntry<D>,
>
    decreases k,
{
    if k <= 0 {
        Seq::empty()
    } else if entries[k - 1].path@ != path {
        of_others(entries, path, k - 1).push(entries[k - 1])
    } else {
        of_others(entries, path, k - 1)
    }
}

/// The first entry of this file as it is now.
pub open spec fn entry_for<D>(
    entries: Seq<BridgeEntry<D>>,
    path: Seq<char>,
    fingerprint: Fingerprint,
    from: int,
) -> Option<int>
    decreases entries.len() - from,
{
    if from < 0 || from >= entries.len() {
        None
    } else if is_for(entries[from], path, fingerprint) {
        Some(from)
    } else {
        entry_for(entries, path, fingerprint, from + 1)
    }
}

/// The entries after a preview of a file was stored: it replaces an older one
/// of the file, and the oldest of too many goes.
pub open spec fn stored<D>(entries: Seq<BridgeEntry<D>>, entry: BridgeEntry<D>) -> Seq<
    BridgeEntry<D>,
> {
    let all = of_others(entries, entry.path@, entries.len() as int).push(entry);
    if all.len() > DOCX_PREVIEW_BRIDGE_CAP {
        all.remove(0)
    } else {
        all
    }
}

impl<D> DocxPreviewBridge<D> {
    /// No preview.
    pub fn new() -> (bridge: Self)
        ensures
            bridge.entries@.len() == 0,
    {
        DocxPreviewBridge { entries: Vec::new() }
    }

    /// Keeps a file's preview. A file that could not be looked at keeps none.
    pub fn store_docx_preview_bridge(
        &mut self,
        path: String,
        fingerprint: Option<Fingerprint>,
        document: D,
    )
        ensures
            final(self).entries@ == (match fingerprint {
                Some(fingerprint) => stored(
                    old(self).entries@,
                    BridgeEntry { path, fingerprint, document },
                ),
                None => old(self).entries@,
            }),
    {
        if let Some(fingerprint) = fingerprint {
            let ghost given = self.entries@;
            let mut kept: Vec<BridgeEntry<D>> = Vec::new();
            std::mem::swap(&mut kept, &mut self.entries);
            let mut at: usize = 0;
            let ghost mut seen: int = 0;
            assert(kept@ =~= of_others(given, path@, 0) + given.skip(0));
            while at < kept.len()
                invariant
                    0 <= seen <= given.len(),
                    at == of_others(given, path@, seen).len(),
                    kept@ == of_others(given, path@, seen) + given.skip(seen),
                decreases kept@.len() - at,
            {
                let ghost before = of_others(given, path@, seen);
                assert(kept@[at as int] == given[seen]);
                if same_text(kept[at].path.as_str(), path.as_str()) {
                    kept.remove(at);
                    assert(kept@ =~= before + given.skip(seen + 1));
                } else {
                    assert(kept@ =~= before.push(given[seen]) + given.skip(seen + 1));
                    at = at + 1;
                }
                proof {
                    seen = seen + 1;
                }
            }
            assert(seen == given.len());
            assert(kept@ =~= of_others(given, path@, given.len() as int));
            let entry = BridgeEntry { path, fingerprint, document };
            kept.push(entry);
            if kept.len() > DOCX_PREVIEW_BRIDGE_CAP {
                kept.remove(0);
            }
            self.entries = kept;
        }
    }

    fn find(&self, path: &str, fingerprint: Fingerprint) -> (found: Option<usize>)
        ensures
            match found {
                Some(ix) => entry_for(self.entries@, path@, fingerprint, 0) == Some(ix as int)
                    && ix < self.entries@.len(),
                None => entry_for(self.entries@, path@, fingerprint, 0) is None,
            },
    {
        let mut next: usize = 0;
        while next < self.entries.len()
            invariant
                next <= self.entries@.len(),
                entry_for(self.entries@, path@, fingerprint, 0) == entry_for(
                    self.entries@,
                    path@,
                    fingerprint,
                    next as int,
                ),
            decreases self.entries@.len() - next,
        {
            let entry = &self.entries[next];
            if same_text(entry.path.as_str(), path) && entry.fingerprint == fingerprint {
                return Some(next);
            }
            next = next + 1;
        }
        None
    }

    /// Takes out the preview of a file that has not changed since.
    pub fn take_docx_preview_bridge(&mut self, path: &str, fingerprint: Option<Fingerprint>) -> (document:
        Option<D>)
        ensures
            match fingerprint {
                None => document is None && final(self).entries@ == old(self).entries@,
                Some(fingerprint) => match entry_for(
                    old(self).entries@,
                    path@,
                    fingerprint,
                    0,
                ) {
                    Some(ix) => document == Some(old(self).entries@[ix].document) && final(self).entries@ == old(self).entries@.remove(ix),
                    None => document is None && final(self).entries@ == old(self).entries@,
                },
            },
    {
        match fingerprint {
            None => None,
            Some(fingerprint) => match self.find(path, fingerprint) {
                Some(ix) => {
                    let entry = self.entries.remove(ix);
                    Some(entry.document)
                },
                None => None,
            },
        }
    }

    /// Looks at the preview of a file that has not changed since; it stays.
    pub fn peek_docx_preview_bridge(&self, path: &str, fingerprint: Option<Fingerprint>) -> (document:
        Option<&D>)
        ensures
            match fingerprint {
                None => document is None,
                Some(fingerprint) => match entry_for(self.entries@, path@, fingerprint, 0) {
                    Some(ix) => document == Some(&self.entries@[ix].document),
                    None => document is None,
                },
            },
    {
        match fingerprint {
            None => None,
            Some(fingerprint) => match self.find(path, fingerprint) {
                Some(ix) => Some(&self.entries[ix].document),
                None => None,
            },
        }
    }
}

/// No file has two previews.
pub open spec fn one_per_file<D>(entries: Seq<BridgeEntry<D>>) -> bool {
    forall|i: int, j: int|
        0 <= i < j < entries.len() ==> (#[trigger] entries[i]).path@ != (#[trigger] entries[j]).path@
}

/// Storing a preview keeps at most so many, one for each file, and an open of
/// the unchanged file finds it.
pub proof fn a_stored_preview_is_found<D>(
    entries: Seq<BridgeEntry<D>>,
    entry: BridgeEntry<D>,
)
    requires
        entries.len() <= DOCX_PREVIEW_BRIDGE_CAP,
        one_per_file(entries),
    ensures
        stored(entries, entry).len() <= DOCX_PREVIEW_BRIDGE_CAP,
        one_per_file(stored(entries, entry)),
        entry_for(stored(entries, entry), entry.path@, entry.fingerprint, 0) == Some(
            stored(entries, entry).len() - 1,
        ),
        stored(entries, entry).last() == entry,
{
    let kept = of_others(entries, entry.path@, entries.len() as int);
    lemma_of_others(entries, entry.path@, entries.len() as int);
    let after = stored(entries, entry);
    let all = kept.push(entry);
    assert(one_per_file(all)) by {
        assert forall|i: int, j: int| 0 <= i < j < all.len() implies (#[trigger] all[i]).path@ != (
        #[trigger] all[j]).path@ by {
            if j < kept.len() {
                assert(kept[i].path@ != kept[j].path@);
            }
        }
    }
    assert forall|i: int, j: int| 0 <= i < j < after.len() implies (#[trigger] after[i]).path@ != (
    #[trigger] after[j]).path@ by {
        if all.len() > DOCX_PREVIEW_BRIDGE_CAP {
            assert(all[i + 1].path@ != all[j + 1].path@);
        } else {
            assert(all[i].path@ != all[j].path@);
        }
    }
    assert(after.last() == entry);
    lemma_found_last(after, entry.path@, entry.fingerprint, 0);
}

pub(crate) proof fn lemma_of_others<D>(entries: Seq<BridgeEntry<D>>, path: Seq<char>, k: int)
    requires
        0 <= k <= entries.len(),
        one_per_file(entries),
    ensures
        of_others(entries, path, k).len() <= k,
        one_per_file(of_others(entries, path, k)),
        forall|i: int|
            0 <= i < of_others(entries, path, k).len() ==> (#[trigger] of_others(
                entries,
                path,
                k,
            )[i]).path@ != path,
        forall|i: int|
            0 <= i < of_others(entries, path, k).len() ==> exists|j: int|
                0 <= j < k && entries[j] == #[trigger] of_others(entries, path, k)[i],
    decreases k,
{
    if k > 0 {
        lemma_of_others(entries, path, k - 1);
        let before = of_others(entries, path, k - 1);
        let all = of_others(entries, path, k);
        assert forall|i: int| 0 <= i < all.len() implies exists|j: int|
            0 <= j < k && entries[j] == #[trigger] all[i] by {
            if i < before.len() {
                let j = choose|j: int| 0 <= j < k - 1 && entries[j] == before[i];
                assert(entries[j] == all[i]);
            } else {
                assert(entries[k - 1] == all[i]);
            }
        }
        assert forall|i: int, j: int| 0 <= i < j < all.len() implies (#[trigger] all[i]).path@ != (
        #[trigger] all[j]).path@ by {
            if j < before.len() {
                assert(before[i].path@ != before[j].path@);
            } else {
                let m = choose|m: int| 0 <= m < k - 1 && entries[m] == before[i];
                assert(entries[m].path@ != entries[k - 1].path@);
            }
        }
    }
}

pub(crate) proof fn lemma_found_last<D>(
    entries: Seq<BridgeEntry<D>>,
    path: Seq<char>,
    fingerprint: Fingerprint,
    from: int,
)
    requires
        0 <= from < entries.len(),
        one_per_file(entries),
        is_for(entries.last(), path, fingerprint),
    ensures
        entry_for(entries, path, fingerprint, from) == Some(entries.len() - 1),
    decreases entries.len() - from,
{
    if from < entries.len() - 1 {
        assert(entries[from].path@ != entries[entries.len() - 1].path@);
        lemma_found_last(entries, path, fingerprint, from + 1);
    }
}

/// What kind of fault an operation met.
#[derive(Clone, Copy, Debug, PartialEq, Eq, Structural)]
pub enum IoErrorKind {
    NotFound,
    PermissionDenied,
    AlreadyExists,
    InvalidData,
    Other(u16),
}

/// A fault of a document's runtime: its message, and the kind of the I/O
/// fault at its root where there is one.
#[derive(Debug)]
pub struct RuntimeError {
    pub message: String,
    pub root_io_kind: Option<IoErrorKind>,
}

/// An I/O fault.
#[derive(Debug)]
pub struct IoError {
    pub kind: IoErrorKind,
    pub message: String,
}

/// The kind of the I/O fault at the root.
pub fn runtime_root_io_kind(error: &RuntimeError) -> (kind: Option<IoErrorKind>)
    ensures
        kind == error.root_io_kind,
{
    error.root_io_kind
}

/// A runtime's fault as an I/O fault: of the kind at its root, or of invalid
/// data.
pub fn runtime_io_error(error: RuntimeError) -> (io: IoError)
    ensures
        io.message == error.message,
        io.kind == (match error.root_io_kind {
            Some(kind) => kind,
            None => IoErrorKind::InvalidData,
        }),
{
    let kind = match error.root_io_kind {
        Some(kind) => kind,
        None => IoErrorKind::InvalidData,
    };
    IoError { kind, message: error.message }
}

/// What to do when a document's own file did not open.
#[derive(Debug)]
pub enum FailedOpen {
    /// The file is not there: begin a blank document under its name.
    BeginBlank,
    Fail(IoError),
}

/// What to do when a document's own file did not open.
pub fn failed_open(error: RuntimeError) -> (next: FailedOpen)
    ensures
        match next {
            FailedOpen::BeginBlank => error.root_io_kind == Some(IoErrorKind::NotFound),
            FailedOpen::Fail(io) => error.root_io_kind != Some(IoErrorKind::NotFound) && io.message
                == error.message && io.kind == (match error.root_io_kind {
                Some(kind) => kind,
                None => IoErrorKind::InvalidData,
            }),
        },
{
    let missing = match runtime_root_io_kind(&error) {
        Some(IoErrorKind::NotFound) => true,
        _ => false,
    };
    if missing {
        FailedOpen::BeginBlank
    } else {
        FailedOpen::Fail(runtime_io_error(error))
    }
}

/// Where a quick picture of a file can come from.
#[derive(Clone, Copy, Debug, PartialEq, Eq, Structural)]
pub enum QuickProjection {
    /// The preview that was kept.
    PreviewBridge,
    /// The projection that the package caches.
    PackageCache,
    Nothing,
}

/// Where the quick picture that opens before the document comes from.
pub fn open_projection_source(file_name: &str) -> (source: QuickProjection)
    ensures
        source == (match format_of(file_name@) {
            DocumentFormat::Docx => QuickProjection::PreviewBridge,
            DocumentFormat::Pdf => QuickProjection::Nothing,
            _ => QuickProjection::PackageCache,
        }),
{
    match document_format(file_name) {
        DocumentFormat::Docx => QuickProjection::PreviewBridge,
        DocumentFormat::Pdf => QuickProjection::Nothing,
        _ => QuickProjection::PackageCache,
    }
}

} // verus!
