use vstd::prelude::*;

use crate::text::{eq_ci, lower_chars, matches_at};

verus! {

/// What a directory entry's file name says about its contents, judged by the
/// extension alone.
#[derive(PartialEq, Eq, Structural, Debug, Clone, Copy)]
pub enum FileKind {
    Media,
    Image,
    Unsupported,
}

/// Index of the last '.' in `name`, or -1 when there is none.
pub open spec fn last_dot(name: Seq<char>) -> int
    decreases name.len(),
{
    if name.len() == 0 {
        -1
    } else if name.last() == '.' {
        name.len() - 1
    } else {
        last_dot(name.drop_last())
    }
}

/// The last dot of a name lies inside it.
proof fn lemma_last_dot_bounds(name: Seq<char>)
    ensures
        -1 <= last_dot(name) < name.len(),
    decreases name.len(),
{
    if name.len() > 0 && name.last() != '.' {
        lemma_last_dot_bounds(name.drop_last());
    }
}

/// A name has an extension when a dot stands strictly inside it; a leading
/// dot marks a hidden name, not an extension.
pub open spec fn has_ext(name: Seq<char>) -> bool {
    last_dot(name) >= 1
}

/// The characters after the last dot.
pub open spec fn ext_of(name: Seq<char>) -> Seq<char> {
    name.subrange(last_dot(name) + 1, name.len() as int)
}

/// The audio container extensions the ingestion gate accepts, compared
/// without case: a file is opened and ingested exactly when its extension
/// stands here.
pub open spec fn is_media_ext(e: Seq<char>) -> bool {
    ||| eq_ci(e, "flac"@)
    ||| eq_ci(e, "mp3"@)
    ||| eq_ci(e, "opus"@)
    ||| eq_ci(e, "aif"@)
    ||| eq_ci(e, "aiff"@)
    ||| eq_ci(e, "wav"@)
    ||| eq_ci(e, "alac"@)
    ||| eq_ci(e, "ape"@)
    ||| eq_ci(e, "m4a"@)
    ||| eq_ci(e, "ogg"@)
}

/// The audio container extensions the walk bucketing counts as audio: a
/// wider list than `is_media_ext`, so aac lands in the track bucket even
/// though the pipeline does not ingest it.
pub open spec fn is_walk_media_ext(e: Seq<char>) -> bool {
    is_media_ext(e) || eq_ci(e, "aac"@)
}

/// The image extensions the scanner recognises.
pub open spec fn is_image_ext(e: Seq<char>) -> bool {
    ||| eq_ci(e, "png"@)
    ||| eq_ci(e, "jpg"@)
    ||| eq_ci(e, "jpeg"@)
}

/// Pure classification of a file name for the ingestion gate: a fixed
/// allow-list per category, case-insensitive, and unknown or absent
/// extensions are unsupported.
pub open spec fn classify_spec(name: Seq<char>) -> FileKind {
    if has_ext(name) && is_media_ext(ext_of(name)) {
        FileKind::Media
    } else if has_ext(name) && is_image_ext(ext_of(name)) {
        FileKind::Image
    } else {
        FileKind::Unsupported
    }
}

/// Pure classification of a file name for the walk bucketing, with the
/// wider audio list.
pub open spec fn classify_walk_spec(name: Seq<char>) -> FileKind {
    if has_ext(name) && is_walk_media_ext(ext_of(name)) {
        FileKind::Media
    } else if has_ext(name) && is_image_ext(ext_of(name)) {
        FileKind::Image
    } else {
        FileKind::Unsupported
    }
}

/// An entry is hidden when its name begins with a dot; hidden entries are
/// excluded from a scan entirely.
pub open spec fn is_hidden(name: Seq<char>) -> bool {
    name.len() > 0 && name[0] == '.'
}

pub fn is_hidden_name(name: &str) -> (r: bool)
    ensures
        r == is_hidden(name@),
{
    if name.unicode_len() == 0 {
        false
    } else {
        name.get_char(0) == '.'
    }
}

/// Whether the suffix of `name` starting at `from` equals `lit` without case.
fn suffix_is(name: &str, from: usize, lit: &str) -> (r: bool)
    requires
        from <= name@.len(),
    ensures
        r == eq_ci(name@.subrange(from as int, name@.len() as int), lit@),
{
    let n = name.unicode_len();
    let m = lit.unicode_len();
    if n - from != m {
        assert(lower_chars(name@.subrange(from as int, name@.len() as int)).len() != lower_chars(
            lit@,
        ).len());
        return false;
    }
    matches_at(name, from, lit)
}

/// Locate the last dot of `name`, as `last_dot` describes it.
fn find_last_dot(name: &str) -> (r: Option<usize>)
    ensures
        match r {
            Some(d) => last_dot(name@) == d as int,
            None => last_dot(name@) == -1,
        },
{
    let n = name.unicode_len();
    let mut dot: Option<usize> = None;
    for i in 0..n
        invariant
            n == name@.len(),
            match dot {
                Some(d) => last_dot(name@.take(i as int)) == d as int,
                None => last_dot(name@.take(i as int)) == -1,
            },
    {
        let c = name.get_char(i);
        proof {
            assert(name@.take(i + 1).drop_last() =~= name@.take(i as int));
        }
        if c == '.' {
            dot = Some(i);
        }
    }
    proof {
        assert(name@.take(n as int) =~= name@);
    }
    dot
}

/// One walked directory entry, as the walker reports it: its full path, its
/// file name, its depth below the scan root, and whether it is a directory.
pub struct Entry {
    pub path: String,
    pub name: String,
    pub depth: usize,
    pub is_dir: bool,
}

#[verifier::ext_equal]
pub struct EntryV {
    pub path: Seq<char>,
    pub name: Seq<char>,
    pub depth: usize,
    pub is_dir: bool,
}

impl DeepView for Entry {
    type V = EntryV;

    open spec fn deep_view(&self) -> EntryV {
        EntryV { path: self.path@, name: self.name@, depth: self.depth, is_dir: self.is_dir }
    }
}

/// A classified walk: the root, then every path sorted into a bucket. The
/// library convention takes depth-1 directories for artists and depth-2
/// directories for albums.
pub struct Scan {
    pub root: String,
    pub tracks: Vec<String>,
    pub images: Vec<String>,
    pub artists: Vec<String>,
    pub albums: Vec<String>,
    pub other: Vec<String>,
}

#[verifier::ext_equal]
pub struct ScanV {
    pub root: Seq<char>,
    pub tracks: Seq<Seq<char>>,
    pub images: Seq<Seq<char>>,
    pub artists: Seq<Seq<char>>,
    pub albums: Seq<Seq<char>>,
    pub other: Seq<Seq<char>>,
}

impl DeepView for Scan {
    type V = ScanV;

    open spec fn deep_view(&self) -> ScanV {
        ScanV {
            root: self.root@,
            tracks: self.tracks.deep_view(),
            images: self.images.deep_view(),
            artists: self.artists.deep_view(),
            albums: self.albums.deep_view(),
            other: self.other.deep_view(),
        }
    }
}

/// Where one entry lands: hidden entries vanish, directories go by depth,
/// files by classification.
pub open spec fn scan_step(s: ScanV, e: EntryV) -> ScanV {
    if is_hidden(e.name) {
        s
    } else if e.is_dir {
        if e.depth == 0 {
            ScanV { root: e.path, ..s }
        } else if e.depth == 1 {
            ScanV { artists: s.artists.push(e.path), ..s }
        } else if e.depth == 2 {
            ScanV { albums: s.albums.push(e.path), ..s }
        } else {
            ScanV { other: s.other.push(e.path), ..s }
        }
    } else {
        match classify_walk_spec(e.name) {
            FileKind::Media => ScanV { tracks: s.tracks.push(e.path), ..s },
            FileKind::Image => ScanV { images: s.images.push(e.path), ..s },
            FileKind::Unsupported => ScanV { other: s.other.push(e.path), ..s },
        }
    }
}

/// The classified walk of a whole entry list, in order.
pub open spec fn scan_dir_spec(entries: Seq<EntryV>) -> ScanV
    decreases entries.len(),
{
    if entries.len() == 0 {
        ScanV {
            root: Seq::empty(),
            tracks: Seq::empty(),
            images: Seq::empty(),
            artists: Seq::empty(),
            albums: Seq::empty(),
            other: Seq::empty(),
        }
    } else {
        scan_step(scan_dir_spec(entries.drop_last()), entries.last())
    }
}

/// Classify a walked directory tree: excludes hidden entries, buckets
/// directories by depth and files by extension. Pure and total.
pub fn scan_dir(entries: &Vec<Entry>) -> (s: Scan)
    ensures
        s.deep_view() == scan_dir_spec(entries.deep_view()),
{
    let ghost ev = entries.deep_view();
    let mut s = Scan {
        root: String::new(),
        tracks: Vec::new(),
        images: Vec::new(),
        artists: Vec::new(),
        albums: Vec::new(),
        other: Vec::new(),
    };
    let n = entries.len();
    for i in 0..n
        invariant
            n == entries.len(),
            ev == entries.deep_view(),
            s.deep_view() =~~= scan_dir_spec(ev.take(i as int)),
    {
        let e = &entries[i];
        proof {
            assert(ev.take(i + 1).drop_last() =~= ev.take(i as int));
            assert(ev.take(i + 1).last() == ev[i as int]);
            assert(e.deep_view() == ev[i as int]);
        }
        if is_hidden_name(e.name.as_str()) {
            // excluded entirely
        } else if e.is_dir {
            if e.depth == 0 {
                s.root = e.path.clone();
            } else if e.depth == 1 {
                s.artists.push(e.path.clone());
            } else if e.depth == 2 {
                s.albums.push(e.path.clone());
            } else {
                s.other.push(e.path.clone());
            }
        } else {
            match classify_walk(e.name.as_str()) {
                FileKind::Media => s.tracks.push(e.path.clone()),
                FileKind::Image => s.images.push(e.path.clone()),
                FileKind::Unsupported => s.other.push(e.path.clone()),
            }
        }
        proof {
            assert(s.deep_view() =~~= scan_dir_spec(ev.take(i + 1)));
        }
    }
    proof {
        assert(ev.take(n as int) =~= ev);
    }
    s
}

/// Classify a file name for the walk bucketing: as `classify`, with the
/// wider audio list.
pub fn classify_walk(name: &str) -> (k: FileKind)
    ensures
        k == classify_walk_spec(name@),
{
    let n = name.unicode_len();
    let d = match find_last_dot(name) {
        Some(d) => d,
        None => {
            return FileKind::Unsupported;
        },
    };
    if d == 0 {
        return FileKind::Unsupported;
    }
    proof {
        lemma_last_dot_bounds(name@);
    }
    let from = d + 1;
    assert(name@.subrange(from as int, name@.len() as int) == ext_of(name@));
    if suffix_is(name, from, "aac") {
        return FileKind::Media;
    }
    classify(name)
}

/// Classify a file name by its extension, as the ingestion gate does.
/// Total: never fails, and every unknown extension is `Unsupported`.
pub fn classify(name: &str) -> (k: FileKind)
    ensures
        k == classify_spec(name@),
{
    let n = name.unicode_len();
    let d = match find_last_dot(name) {
        Some(d) => d,
        None => {
            return FileKind::Unsupported;
        },
    };
    if d == 0 {
        return FileKind::Unsupported;
    }
    proof {
        lemma_last_dot_bounds(name@);
    }
    let from = d + 1;
    assert(name@.subrange(from as int, name@.len() as int) == ext_of(name@));
    if suffix_is(name, from, "flac") || suffix_is(name, from, "mp3") || suffix_is(
        name,
        from,
        "opus",
    ) || suffix_is(name, from, "aif") || suffix_is(name, from, "aiff") || suffix_is(
        name,
        from,
        "wav",
    ) || suffix_is(name, from, "alac") || suffix_is(name, from, "ape") || suffix_is(
        name,
        from,
        "m4a",
    ) || suffix_is(name, from, "ogg") {
        FileKind::Media
    } else if suffix_is(name, from, "png") || suffix_is(name, from, "jpg") || suffix_is(
        name,
        from,
        "jpeg",
    ) {
        FileKind::Image
    } else {
        FileKind::Unsupported
    }
}

} // verus!
