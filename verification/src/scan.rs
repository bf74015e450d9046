use vstd::prelude::*;

use crate::catalog::{has_track_with, ingest_v, wf, Catalog, CatalogV, Track};
use crate::classify::{classify_spec, is_hidden, FileKind};
use crate::draft::{draft_of, RawTag, RawTagV, TrackDraft};
use crate::error::ExtractionError;

verus! {

/// What the scan did with one directory entry.
#[derive(PartialEq, Eq, Structural, Clone, Copy, Debug)]
pub enum FileOutcome {
    /// Hidden entries are excluded entirely.
    Hidden,
    /// Directories and non-media files are passed over.
    NotMedia,
    /// The change-detection gate matched: the file was not reopened.
    Unchanged,
    /// The file was extracted and persisted.
    Ingested,
    /// A file-scoped failure; the scan goes on.
    Failed,
}

/// One walked directory entry, together with what reading its tag block
/// yields when the scan decides to open it.
pub struct FileEntry {
    pub path: String,
    pub name: String,
    pub is_dir: bool,
    pub filesize: u64,
    pub tag: Result<RawTag, ExtractionError>,
}

#[verifier::ext_equal]
pub struct FileEntryV {
    pub path: Seq<char>,
    pub name: Seq<char>,
    pub is_dir: bool,
    pub filesize: u64,
    pub tag: Result<RawTagV, ExtractionError>,
}

impl DeepView for FileEntry {
    type V = FileEntryV;

    open spec fn deep_view(&self) -> FileEntryV {
        FileEntryV {
            path: self.path@,
            name: self.name@,
            is_dir: self.is_dir,
            filesize: self.filesize,
            tag: match self.tag {
                Ok(ref t) => Ok(t.deep_view()),
                Err(e) => Err(e),
            },
        }
    }
}

/// The per-file decision chain: exclude hidden entries, pass over anything
/// that is not a media file, skip a file whose `(path, filesize)` matches an
/// existing track without consulting its tag, and otherwise ingest —
/// isolating a failed or title-less tag as a per-file failure.
pub open spec fn file_step(c: CatalogV, f: FileEntryV) -> (CatalogV, FileOutcome) {
    if is_hidden(f.name) {
        (c, FileOutcome::Hidden)
    } else if f.is_dir || classify_spec(f.name) != FileKind::Media {
        (c, FileOutcome::NotMedia)
    } else if has_track_with(c, f.path, f.filesize) {
        (c, FileOutcome::Unchanged)
    } else {
        match f.tag {
            Ok(tag) => match tag.title {
                Some(_) => (ingest_v(c, draft_of(tag, f.path, f.filesize)).0, FileOutcome::Ingested),
                None => (c, FileOutcome::Failed),
            },
            Err(_) => (c, FileOutcome::Failed),
        }
    }
}

/// The catalog after scanning the entries in order.
pub open spec fn scan_fold(c: CatalogV, files: Seq<FileEntryV>) -> CatalogV
    decreases files.len(),
{
    if files.len() == 0 {
        c
    } else {
        file_step(scan_fold(c, files.drop_last()), files.last()).0
    }
}

/// The per-entry outcomes of scanning the entries in order.
pub open spec fn scan_outcomes(c: CatalogV, files: Seq<FileEntryV>) -> Seq<FileOutcome>
    decreases files.len(),
{
    if files.len() == 0 {
        Seq::empty()
    } else {
        scan_outcomes(c, files.drop_last()).push(
            file_step(scan_fold(c, files.drop_last()), files.last()).1,
        )
    }
}

/// Process one walked entry against the catalog: classify, gate, ingest.
/// A file-scoped failure changes nothing and is reported as `Failed`.
pub fn read_file(f: &FileEntry, c: &mut Catalog) -> (o: FileOutcome)
    requires
        wf(old(c).deep_view()),
    ensures
        (final(c).deep_view(), o) == file_step(old(c).deep_view(), f.deep_view()),
        wf(final(c).deep_view()),
{
    if crate::classify::is_hidden_name(f.name.as_str()) {
        return FileOutcome::Hidden;
    }
    if f.is_dir {
        return FileOutcome::NotMedia;
    }
    match crate::classify::classify(f.name.as_str()) {
        FileKind::Media => {},
        _ => {
            return FileOutcome::NotMedia;
        },
    }
    if Track::check(&f.path, f.filesize, c) {
        return FileOutcome::Unchanged;
    }
    match &f.tag {
        Ok(tag) => {
            match TrackDraft::from_tag(tag.duplicate(), f.path.clone(), f.filesize) {
                Ok(draft) => {
                    Track::new(&draft, c);
                    FileOutcome::Ingested
                },
                Err(_) => FileOutcome::Failed,
            }
        },
        Err(_) => FileOutcome::Failed,
    }
}

/// Scan a walked directory: drive the per-file pipeline over every entry,
/// in order, isolating each file's failure. Returns one outcome per entry.
pub fn scan(files: &Vec<FileEntry>, c: &mut Catalog) -> (outcomes: Vec<FileOutcome>)
    requires
        wf(old(c).deep_view()),
    ensures
        final(c).deep_view() == scan_fold(old(c).deep_view(), files.deep_view()),
        outcomes@ == scan_outcomes(old(c).deep_view(), files.deep_view()),
        wf(final(c).deep_view()),
{
    let ghost c0 = c.deep_view();
    let ghost fv = files.deep_view();
    let mut outcomes: Vec<FileOutcome> = Vec::new();
    let n = files.len();
    for i in 0..n
        invariant
            n == files.len(),
            fv == files.deep_view(),
            outcomes@.len() == i,
            wf(c.deep_view()),
            c.deep_view() == scan_fold(c0, fv.take(i as int)),
            outcomes@ == scan_outcomes(c0, fv.take(i as int)),
    {
        let o = read_file(&files[i], c);
        outcomes.push(o);
        proof {
            assert(fv.take(i + 1).drop_last() =~= fv.take(i as int));
            assert(fv.take(i + 1).last() == fv[i as int]);
            assert(files[i as int].deep_view() == fv[i as int]);
        }
    }
    proof {
        assert(fv.take(n as int) =~= fv);
    }
    outcomes
}

// ---------------------------------------------------------------------------
// Laws: what the scan guarantees across whole runs.
// ---------------------------------------------------------------------------

/// A plain media file, not hidden.
pub open spec fn media_file(f: FileEntryV) -> bool {
    !is_hidden(f.name) && !f.is_dir && classify_spec(f.name) == FileKind::Media
}

/// The entry's tag reads successfully and carries the mandatory title.
pub open spec fn tag_ok(f: FileEntryV) -> bool {
    f.tag matches Ok(t) && t.title is Some
}

/// The catalog already reflects this entry: if it is an ingestable media
/// file, a track with its path and filesize exists.
pub open spec fn settled(c: CatalogV, f: FileEntryV) -> bool {
    media_file(f) && tag_ok(f) ==> has_track_with(c, f.path, f.filesize)
}

/// No two walked entries share a path, as in any single directory walk.
pub open spec fn distinct_paths(files: Seq<FileEntryV>) -> bool {
    forall|i: int, j: int|
        0 <= i < j < files.len() ==> (#[trigger] files[i]).path != (#[trigger] files[j]).path
}

/// Skip rule: once a track with the file's path and filesize exists, the
/// step skips the file and leaves the catalog alone — whatever its tag
/// would read as. The outcome does not depend on the tag at all: the file
/// is never opened.
pub proof fn lemma_skip_rule(c: CatalogV, f: FileEntryV, t: Result<RawTagV, ExtractionError>)
    requires
        media_file(f),
        has_track_with(c, f.path, f.filesize),
    ensures
        file_step(c, FileEntryV { tag: t, ..f }) == (c, FileOutcome::Unchanged),
{
}

/// One step settles its own entry.
proof fn lemma_step_settles(c: CatalogV, f: FileEntryV)
    ensures
        settled(file_step(c, f).0, f),
{
    if media_file(f) && tag_ok(f) && !has_track_with(c, f.path, f.filesize) {
        let tag = f.tag->Ok_0;
        let d = draft_of(tag, f.path, f.filesize);
        crate::catalog::lemma_ingest_establishes(c, d);
    }
}

/// A step on one entry keeps every other entry settled.
proof fn lemma_step_preserves(c: CatalogV, f: FileEntryV, g: FileEntryV)
    requires
        settled(c, g),
        g.path != f.path,
    ensures
        settled(file_step(c, f).0, g),
{
    if media_file(g) && tag_ok(g) {
        if media_file(f) && tag_ok(f) && !has_track_with(c, f.path, f.filesize) {
            let tag = f.tag->Ok_0;
            let d = draft_of(tag, f.path, f.filesize);
            crate::catalog::lemma_ingest_preserves(c, d, g.path, g.filesize);
        }
    }
}

/// On a settled entry, a step does nothing and ingests nothing.
proof fn lemma_step_identity(c: CatalogV, f: FileEntryV)
    requires
        settled(c, f),
    ensures
        file_step(c, f).0 == c,
        file_step(c, f).1 != FileOutcome::Ingested,
{
}

/// After a scan, every scanned entry is settled.
proof fn lemma_scan_settles(c: CatalogV, files: Seq<FileEntryV>)
    requires
        distinct_paths(files),
    ensures
        forall|j: int| 0 <= j < files.len() ==> settled(scan_fold(c, files), #[trigger] files[j]),
    decreases files.len(),
{
    if files.len() > 0 {
        let prefix = files.drop_last();
        let last = files.last();
        lemma_scan_settles(c, prefix);
        let c1 = scan_fold(c, prefix);
        assert forall|j: int| 0 <= j < files.len() implies settled(
            scan_fold(c, files),
            #[trigger] files[j],
        ) by {
            if j < files.len() - 1 {
                assert(settled(c1, prefix[j]));
                assert(prefix[j] == files[j]);
                assert(files[j].path != last.path);
                lemma_step_preserves(c1, last, files[j]);
            } else {
                lemma_step_settles(c1, last);
            }
        }
    }
}

/// Idempotence: scanning the same entries again, with no changes on disk,
/// changes nothing — no new rows, no updates — and ingests nothing.
pub proof fn lemma_scan_idempotent(c: CatalogV, files: Seq<FileEntryV>)
    requires
        distinct_paths(files),
    ensures
        scan_fold(scan_fold(c, files), files) == scan_fold(c, files),
        forall|k: int|
            0 <= k < files.len() ==> scan_outcomes(scan_fold(c, files), files)[k]
                != FileOutcome::Ingested,
{
    lemma_scan_settles(c, files);
    let c1 = scan_fold(c, files);
    lemma_scan_idem_prefix(c1, files, files.len() as int);
    assert(files.take(files.len() as int) =~= files);
}

/// Every prefix of a second scan is a no-op.
proof fn lemma_scan_idem_prefix(c1: CatalogV, files: Seq<FileEntryV>, i: int)
    requires
        0 <= i <= files.len(),
        forall|j: int| 0 <= j < files.len() ==> settled(c1, #[trigger] files[j]),
    ensures
        scan_fold(c1, files.take(i)) == c1,
        scan_outcomes(c1, files.take(i)).len() == i,
        forall|k: int|
            0 <= k < i ==> scan_outcomes(c1, files.take(i))[k] != FileOutcome::Ingested,
    decreases i,
{
    if i > 0 {
        lemma_scan_idem_prefix(c1, files, i - 1);
        assert(files.take(i).drop_last() =~= files.take(i - 1));
        assert(files.take(i).last() == files[i - 1]);
        lemma_step_identity(c1, files[i - 1]);
        assert(scan_outcomes(c1, files.take(i)) == scan_outcomes(c1, files.take(i - 1)).push(
            file_step(c1, files[i - 1]).1,
        ));
    } else {
        assert(files.take(0) =~= Seq::<FileEntryV>::empty());
    }
}

/// A scan splits at any point: the suffix continues, in catalog and in
/// outcomes, from exactly where the prefix ends.
pub proof fn lemma_scan_concat(c: CatalogV, xs: Seq<FileEntryV>, ys: Seq<FileEntryV>)
    ensures
        scan_fold(c, xs + ys) == scan_fold(scan_fold(c, xs), ys),
        scan_outcomes(c, xs + ys) == scan_outcomes(c, xs) + scan_outcomes(scan_fold(c, xs), ys),
    decreases ys.len(),
{
    if ys.len() == 0 {
        assert(xs + ys =~= xs);
        assert(scan_outcomes(c, xs) + scan_outcomes(scan_fold(c, xs), ys) =~= scan_outcomes(
            c,
            xs,
        ));
    } else {
        lemma_scan_concat(c, xs, ys.drop_last());
        assert((xs + ys).drop_last() =~= xs + ys.drop_last());
        assert((xs + ys).last() == ys.last());
        assert(scan_outcomes(c, xs) + scan_outcomes(scan_fold(c, xs), ys) =~= (scan_outcomes(
            c,
            xs,
        ) + scan_outcomes(scan_fold(c, xs), ys.drop_last())).push(
            file_step(scan_fold(scan_fold(c, xs), ys.drop_last()), ys.last()).1,
        ));
    }
}

/// Failure isolation: a file whose tag cannot be read, or reads without a
/// title, contributes nothing to the catalog — scanning with it present
/// ends exactly where scanning without it does, wherever it stands in the
/// walk. Its own outcome is never an ingestion, and every other entry gets
/// exactly the outcome it gets in the scan without it.
pub proof fn lemma_failure_isolation(
    c: CatalogV,
    before: Seq<FileEntryV>,
    bad: FileEntryV,
    after: Seq<FileEntryV>,
)
    requires
        !tag_ok(bad),
    ensures
        scan_fold(c, before + seq![bad] + after) == scan_fold(c, before + after),
        scan_outcomes(c, before + seq![bad] + after) == scan_outcomes(c, before) + seq![
            file_step(scan_fold(c, before), bad).1,
        ] + scan_outcomes(scan_fold(c, before), after),
        scan_outcomes(c, before + after) == scan_outcomes(c, before) + scan_outcomes(
            scan_fold(c, before),
            after,
        ),
        file_step(scan_fold(c, before), bad).1 != FileOutcome::Ingested,
{
    let cb = scan_fold(c, before);
    let one = seq![bad];

    // One step on the corrupt file leaves the catalog alone and reports
    // anything but an ingestion.
    assert(one.drop_last() =~= Seq::<FileEntryV>::empty());
    assert(one.last() == bad);
    assert(scan_fold(cb, one.drop_last()) == cb);
    assert(scan_outcomes(cb, one.drop_last()) =~= Seq::<FileOutcome>::empty());
    assert(scan_fold(cb, one) == file_step(cb, bad).0);
    assert(scan_outcomes(cb, one) =~= seq![file_step(cb, bad).1]);
    assert(file_step(cb, bad).0 == cb);

    lemma_scan_concat(c, before, one);
    assert(scan_fold(c, before + one) == cb);
    lemma_scan_concat(c, before + one, after);
    lemma_scan_concat(c, before, after);
    assert(before + one + after =~= (before + one) + after);
    assert(scan_outcomes(c, before + one + after) =~= scan_outcomes(c, before) + seq![
        file_step(cb, bad).1,
    ] + scan_outcomes(cb, after));
}

} // verus!
