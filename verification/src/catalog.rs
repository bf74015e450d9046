use vstd::prelude::*;

use vstd::pervasive::VecAdditionalExecFns;

use crate::text::eq_ci;

verus! {

// ---------------------------------------------------------------------------
// Rows. The catalog is an arena of id-indexed rows: a row's id is its index
// in its table, references between tables go by id, and each table has a
// natural key (name, hash, title or path) that at most one row may carry.
// ---------------------------------------------------------------------------

/// A performing or album artist, created on first encounter of its name.
pub struct Artist {
    pub id: usize,
    pub name: String,
    pub art_id: Option<usize>,
}

/// A genre, created on first encounter of its name.
pub struct Genre {
    pub id: usize,
    pub name: String,
}

/// A piece of embedded artwork, content-addressed by the hash of its bytes.
pub struct Art {
    pub id: usize,
    pub hash: u64,
    pub data: Vec<u8>,
}

/// An album; its year and art are seeded by the first track that creates it.
pub struct Album {
    pub id: usize,
    pub year: Option<i32>,
    pub title: String,
    pub art_id: Option<usize>,
}

/// A track row; `path` is its stable identity across re-scans.
pub struct Track {
    pub id: usize,
    pub album_id: Option<usize>,
    pub path: String,
    pub filesize: u64,
    pub track_number: i32,
    pub disc_number: i32,
    pub disc_title: Option<String>,
    pub content_group: Option<String>,
    pub title: String,
    pub subtitle: Option<String>,
    pub year: Option<i32>,
    pub release_date: Option<String>,
    pub bpm: Option<String>,
    pub length: u64,
    pub initial_key: Option<String>,
    pub language: Option<String>,
    pub added_at: Option<String>,
    pub art_id: Option<usize>,
}

/// An album–artist association; each pair exists at most once.
#[derive(PartialEq, Eq, Structural, Clone, Copy, Debug)]
pub struct AlbumArtist {
    pub album_id: usize,
    pub artist_id: usize,
}

/// A track–artist association; each pair exists at most once.
#[derive(PartialEq, Eq, Structural, Clone, Copy, Debug)]
pub struct TrackArtist {
    pub track_id: usize,
    pub artist_id: usize,
}

/// A track–genre association; each pair exists at most once.
#[derive(PartialEq, Eq, Structural, Clone, Copy, Debug)]
pub struct TrackGenre {
    pub track_id: usize,
    pub genre_id: usize,
}

/// The whole relational catalog.
pub struct Catalog {
    pub artists: Vec<Artist>,
    pub genres: Vec<Genre>,
    pub art: Vec<Art>,
    pub albums: Vec<Album>,
    pub tracks: Vec<Track>,
    pub album_artists: Vec<AlbumArtist>,
    pub track_artists: Vec<TrackArtist>,
    pub track_genres: Vec<TrackGenre>,
}

// ---------------------------------------------------------------------------
// The mathematical model: every row with its strings as character sequences.
// ---------------------------------------------------------------------------

#[verifier::ext_equal]
pub struct ArtistV {
    pub id: usize,
    pub name: Seq<char>,
    pub art_id: Option<usize>,
}

#[verifier::ext_equal]
pub struct GenreV {
    pub id: usize,
    pub name: Seq<char>,
}

#[verifier::ext_equal]
pub struct ArtV {
    pub id: usize,
    pub hash: u64,
    pub data: Seq<u8>,
}

#[verifier::ext_equal]
pub struct AlbumV {
    pub id: usize,
    pub year: Option<i32>,
    pub title: Seq<char>,
    pub art_id: Option<usize>,
}

#[verifier::ext_equal]
pub struct TrackV {
    pub id: usize,
    pub album_id: Option<usize>,
    pub path: Seq<char>,
    pub filesize: u64,
    pub track_number: i32,
    pub disc_number: i32,
    pub disc_title: Option<Seq<char>>,
    pub content_group: Option<Seq<char>>,
    pub title: Seq<char>,
    pub subtitle: Option<Seq<char>>,
    pub year: Option<i32>,
    pub release_date: Option<Seq<char>>,
    pub bpm: Option<Seq<char>>,
    pub length: u64,
    pub initial_key: Option<Seq<char>>,
    pub language: Option<Seq<char>>,
    pub added_at: Option<Seq<char>>,
    pub art_id: Option<usize>,
}

#[verifier::ext_equal]
pub struct CatalogV {
    pub artists: Seq<ArtistV>,
    pub genres: Seq<GenreV>,
    pub art: Seq<ArtV>,
    pub albums: Seq<AlbumV>,
    pub tracks: Seq<TrackV>,
    pub album_artists: Seq<AlbumArtist>,
    pub track_artists: Seq<TrackArtist>,
    pub track_genres: Seq<TrackGenre>,
}

impl DeepView for Artist {
    type V = ArtistV;

    open spec fn deep_view(&self) -> ArtistV {
        ArtistV { id: self.id, name: self.name@, art_id: self.art_id }
    }
}

impl DeepView for Genre {
    type V = GenreV;

    open spec fn deep_view(&self) -> GenreV {
        GenreV { id: self.id, name: self.name@ }
    }
}

impl DeepView for Art {
    type V = ArtV;

    open spec fn deep_view(&self) -> ArtV {
        ArtV { id: self.id, hash: self.hash, data: self.data@ }
    }
}

impl DeepView for Album {
    type V = AlbumV;

    open spec fn deep_view(&self) -> AlbumV {
        AlbumV { id: self.id, year: self.year, title: self.title@, art_id: self.art_id }
    }
}

impl DeepView for Track {
    type V = TrackV;

    open spec fn deep_view(&self) -> TrackV {
        TrackV {
            id: self.id,
            album_id: self.album_id,
            path: self.path@,
            filesize: self.filesize,
            track_number: self.track_number,
            disc_number: self.disc_number,
            disc_title: self.disc_title.deep_view(),
            content_group: self.content_group.deep_view(),
            title: self.title@,
            subtitle: self.subtitle.deep_view(),
            year: self.year,
            release_date: self.release_date.deep_view(),
            bpm: self.bpm.deep_view(),
            length: self.length,
            initial_key: self.initial_key.deep_view(),
            language: self.language.deep_view(),
            added_at: self.added_at.deep_view(),
            art_id: self.art_id,
        }
    }
}

impl DeepView for AlbumArtist {
    type V = AlbumArtist;

    open spec fn deep_view(&self) -> AlbumArtist {
        *self
    }
}

impl DeepView for TrackArtist {
    type V = TrackArtist;

    open spec fn deep_view(&self) -> TrackArtist {
        *self
    }
}

impl DeepView for TrackGenre {
    type V = TrackGenre;

    open spec fn deep_view(&self) -> TrackGenre {
        *self
    }
}

impl DeepView for Catalog {
    type V = CatalogV;

    open spec fn deep_view(&self) -> CatalogV {
        CatalogV {
            artists: self.artists.deep_view(),
            genres: self.genres.deep_view(),
            art: self.art.deep_view(),
            albums: self.albums.deep_view(),
            tracks: self.tracks.deep_view(),
            album_artists: self.album_artists.deep_view(),
            track_artists: self.track_artists.deep_view(),
            track_genres: self.track_genres.deep_view(),
        }
    }
}

// ---------------------------------------------------------------------------
// Well-formedness: sequential ids, unique natural keys, valid references,
// unique association pairs.
// ---------------------------------------------------------------------------

/// Every row's id is its index in its table.
pub open spec fn ids_sequential(c: CatalogV) -> bool {
    &&& forall|i: int| 0 <= i < c.artists.len() ==> (#[trigger] c.artists[i]).id == i
    &&& forall|i: int| 0 <= i < c.genres.len() ==> (#[trigger] c.genres[i]).id == i
    &&& forall|i: int| 0 <= i < c.art.len() ==> (#[trigger] c.art[i]).id == i
    &&& forall|i: int| 0 <= i < c.albums.len() ==> (#[trigger] c.albums[i]).id == i
    &&& forall|i: int| 0 <= i < c.tracks.len() ==> (#[trigger] c.tracks[i]).id == i
}

/// Each natural key names at most one row: artist and genre names and album
/// titles up to ASCII case, art hashes and track paths exactly.
pub open spec fn keys_unique(c: CatalogV) -> bool {
    &&& forall|i: int, j: int|
        0 <= i < j < c.artists.len() ==> !eq_ci(
            (#[trigger] c.artists[i]).name,
            (#[trigger] c.artists[j]).name,
        )
    &&& forall|i: int, j: int|
        0 <= i < j < c.genres.len() ==> !eq_ci(
            (#[trigger] c.genres[i]).name,
            (#[trigger] c.genres[j]).name,
        )
    &&& forall|i: int, j: int|
        0 <= i < j < c.art.len() ==> (#[trigger] c.art[i]).hash != (#[trigger] c.art[j]).hash
    &&& forall|i: int, j: int|
        0 <= i < j < c.albums.len() ==> !eq_ci(
            (#[trigger] c.albums[i]).title,
            (#[trigger] c.albums[j]).title,
        )
    &&& forall|i: int, j: int|
        0 <= i < j < c.tracks.len() ==> (#[trigger] c.tracks[i]).path != (
        #[trigger] c.tracks[j]).path
}

/// Cross-table references point at existing rows.
pub open spec fn refs_valid(c: CatalogV) -> bool {
    &&& forall|i: int|
        0 <= i < c.tracks.len() ==> ((#[trigger] c.tracks[i]).album_id matches Some(a) ==> a
            < c.albums.len())
    &&& forall|i: int|
        0 <= i < c.albums.len() ==> ((#[trigger] c.albums[i]).art_id matches Some(a) ==> a
            < c.art.len())
    &&& forall|k: int|
        0 <= k < c.album_artists.len() ==> (#[trigger] c.album_artists[k]).album_id
            < c.albums.len() && c.album_artists[k].artist_id < c.artists.len()
    &&& forall|k: int|
        0 <= k < c.track_artists.len() ==> (#[trigger] c.track_artists[k]).track_id
            < c.tracks.len() && c.track_artists[k].artist_id < c.artists.len()
    &&& forall|k: int|
        0 <= k < c.track_genres.len() ==> (#[trigger] c.track_genres[k]).track_id
            < c.tracks.len() && c.track_genres[k].genre_id < c.genres.len()
}

/// No association pair is duplicated.
pub open spec fn assocs_unique(c: CatalogV) -> bool {
    &&& forall|k: int, l: int|
        0 <= k < l < c.album_artists.len() ==> (#[trigger] c.album_artists[k]) != (
        #[trigger] c.album_artists[l])
    &&& forall|k: int, l: int|
        0 <= k < l < c.track_artists.len() ==> (#[trigger] c.track_artists[k]) != (
        #[trigger] c.track_artists[l])
    &&& forall|k: int, l: int|
        0 <= k < l < c.track_genres.len() ==> (#[trigger] c.track_genres[k]) != (
        #[trigger] c.track_genres[l])
}

/// Art is content-addressed: every row's hash is the hash of its bytes.
pub open spec fn art_content_addressed(c: CatalogV) -> bool {
    forall|i: int|
        0 <= i < c.art.len() ==> (#[trigger] c.art[i]).hash == crate::hash::fnv1a_spec(
            c.art[i].data,
        )
}

/// The catalog's invariant, established by the empty catalog and preserved
/// by every operation.
pub open spec fn wf(c: CatalogV) -> bool {
    ids_sequential(c) && keys_unique(c) && refs_valid(c) && assocs_unique(c)
        && art_content_addressed(c)
}

// ---------------------------------------------------------------------------
// Lookup by natural key.
// ---------------------------------------------------------------------------

pub open spec fn has_artist(c: CatalogV, name: Seq<char>) -> bool {
    exists|i: int| 0 <= i < c.artists.len() && eq_ci((#[trigger] c.artists[i]).name, name)
}

pub open spec fn artist_idx(c: CatalogV, name: Seq<char>) -> int {
    choose|i: int| 0 <= i < c.artists.len() && eq_ci((#[trigger] c.artists[i]).name, name)
}

pub open spec fn has_genre(c: CatalogV, name: Seq<char>) -> bool {
    exists|i: int| 0 <= i < c.genres.len() && eq_ci((#[trigger] c.genres[i]).name, name)
}

pub open spec fn genre_idx(c: CatalogV, name: Seq<char>) -> int {
    choose|i: int| 0 <= i < c.genres.len() && eq_ci((#[trigger] c.genres[i]).name, name)
}

pub open spec fn has_art_hash(c: CatalogV, hash: u64) -> bool {
    exists|i: int| 0 <= i < c.art.len() && (#[trigger] c.art[i]).hash == hash
}

pub open spec fn art_idx(c: CatalogV, hash: u64) -> int {
    choose|i: int| 0 <= i < c.art.len() && (#[trigger] c.art[i]).hash == hash
}

pub open spec fn has_album(c: CatalogV, title: Seq<char>) -> bool {
    exists|i: int| 0 <= i < c.albums.len() && eq_ci((#[trigger] c.albums[i]).title, title)
}

pub open spec fn album_idx(c: CatalogV, title: Seq<char>) -> int {
    choose|i: int| 0 <= i < c.albums.len() && eq_ci((#[trigger] c.albums[i]).title, title)
}

pub open spec fn has_track_path(c: CatalogV, path: Seq<char>) -> bool {
    exists|i: int| 0 <= i < c.tracks.len() && (#[trigger] c.tracks[i]).path == path
}

pub open spec fn track_idx(c: CatalogV, path: Seq<char>) -> int {
    choose|i: int| 0 <= i < c.tracks.len() && (#[trigger] c.tracks[i]).path == path
}

/// A track at this path with this filesize exists: the change-detection
/// gate's question.
pub open spec fn has_track_with(c: CatalogV, path: Seq<char>, filesize: u64) -> bool {
    exists|i: int|
        0 <= i < c.tracks.len() && (#[trigger] c.tracks[i]).path == path && c.tracks[i].filesize
            == filesize
}

// ---------------------------------------------------------------------------
// Resolve-or-create transitions.
// ---------------------------------------------------------------------------

/// Exact, case-normalized artist resolution: the existing row's id on a hit,
/// a fresh row on a miss.
pub open spec fn resolve_artist_v(c: CatalogV, name: Seq<char>) -> (CatalogV, usize) {
    if has_artist(c, name) {
        (c, c.artists[artist_idx(c, name)].id)
    } else {
        (
            CatalogV {
                artists: c.artists.push(
                    ArtistV { id: c.artists.len() as usize, name, art_id: None },
                ),
                ..c
            },
            c.artists.len() as usize,
        )
    }
}

/// Exact, case-normalized genre resolution.
pub open spec fn resolve_genre_v(c: CatalogV, name: Seq<char>) -> (CatalogV, usize) {
    if has_genre(c, name) {
        (c, c.genres[genre_idx(c, name)].id)
    } else {
        (
            CatalogV {
                genres: c.genres.push(GenreV { id: c.genres.len() as usize, name }),
                ..c
            },
            c.genres.len() as usize,
        )
    }
}

impl Catalog {
    /// The empty catalog.
    pub fn new() -> (c: Catalog)
        ensures
            c.deep_view().artists.len() == 0,
            c.deep_view().genres.len() == 0,
            c.deep_view().art.len() == 0,
            c.deep_view().albums.len() == 0,
            c.deep_view().tracks.len() == 0,
            c.deep_view().album_artists.len() == 0,
            c.deep_view().track_artists.len() == 0,
            c.deep_view().track_genres.len() == 0,
            wf(c.deep_view()),
    {
        Catalog {
            artists: Vec::new(),
            genres: Vec::new(),
            art: Vec::new(),
            albums: Vec::new(),
            tracks: Vec::new(),
            album_artists: Vec::new(),
            track_artists: Vec::new(),
            track_genres: Vec::new(),
        }
    }

    /// Index of the artist whose name matches up to ASCII case, if any.
    pub fn find_artist(&self, name: &String) -> (r: Option<usize>)
        requires
            wf(self.deep_view()),
        ensures
            match r {
                Some(i) => has_artist(self.deep_view(), name@) && i as int == artist_idx(
                    self.deep_view(),
                    name@,
                ),
                None => !has_artist(self.deep_view(), name@),
            },
    {
        let ghost c = self.deep_view();
        let n = self.artists.len();
        for i in 0..n
            invariant
                wf(c),
                c == self.deep_view(),
                n == self.artists.len(),
                forall|j: int| 0 <= j < i ==> !eq_ci((#[trigger] c.artists[j]).name, name@),
        {
            if crate::text::string_eq_ci(&self.artists[i].name, name) {
                proof {
                    assert(eq_ci(c.artists[i as int].name, name@));
                    let k = artist_idx(c, name@);
                    assert(0 <= k < c.artists.len() && eq_ci(c.artists[k].name, name@));
                    if k != i as int {
                        assert(eq_ci(c.artists[k].name, c.artists[i as int].name));
                        assert(false);
                    }
                }
                return Some(i);
            }
        }
        None
    }

    /// Index of the genre whose name matches up to ASCII case, if any.
    pub fn find_genre(&self, name: &String) -> (r: Option<usize>)
        requires
            wf(self.deep_view()),
        ensures
            match r {
                Some(i) => has_genre(self.deep_view(), name@) && i as int == genre_idx(
                    self.deep_view(),
                    name@,
                ),
                None => !has_genre(self.deep_view(), name@),
            },
    {
        let ghost c = self.deep_view();
        let n = self.genres.len();
        for i in 0..n
            invariant
                wf(c),
                c == self.deep_view(),
                n == self.genres.len(),
                forall|j: int| 0 <= j < i ==> !eq_ci((#[trigger] c.genres[j]).name, name@),
        {
            if crate::text::string_eq_ci(&self.genres[i].name, name) {
                proof {
                    assert(eq_ci(c.genres[i as int].name, name@));
                    let k = genre_idx(c, name@);
                    assert(0 <= k < c.genres.len() && eq_ci(c.genres[k].name, name@));
                    if k != i as int {
                        assert(eq_ci(c.genres[k].name, c.genres[i as int].name));
                        assert(false);
                    }
                }
                return Some(i);
            }
        }
        None
    }
}

impl Artist {
    /// Resolve-or-create by name: return the matching row's id, or insert a
    /// new row and return its id. Lookup is exact up to ASCII case.
    pub fn by_title_or_new(title: &String, c: &mut Catalog) -> (id: usize)
        requires
            wf(old(c).deep_view()),
        ensures
            (final(c).deep_view(), id) == resolve_artist_v(old(c).deep_view(), title@),
            wf(final(c).deep_view()),
            id < final(c).deep_view().artists.len(),
    {
        match c.find_artist(title) {
            Some(i) => self_artist_id(c, i),
            None => {
                let id = c.artists.len();
                c.artists.push(Artist { id, name: title.clone(), art_id: None });
                proof {
                    let c0 = old(c).deep_view();
                    let c1 = resolve_artist_v(c0, title@).0;
                    assert(c.deep_view().artists =~= c1.artists);
                    assert(c.deep_view() =~= c1);
                }
                id
            },
        }
    }
}

/// Read an artist's id from its table index.
fn self_artist_id(c: &Catalog, i: usize) -> (id: usize)
    requires
        i < c.artists.len(),
    ensures
        id == c.deep_view().artists[i as int].id,
{
    c.artists[i].id
}

impl Genre {
    /// Resolve-or-create by name, exact up to ASCII case.
    pub fn get_or_new(name: &String, c: &mut Catalog) -> (id: usize)
        requires
            wf(old(c).deep_view()),
        ensures
            (final(c).deep_view(), id) == resolve_genre_v(old(c).deep_view(), name@),
            wf(final(c).deep_view()),
            id < final(c).deep_view().genres.len(),
    {
        match c.find_genre(name) {
            Some(i) => c.genres[i].id,
            None => {
                let id = c.genres.len();
                c.genres.push(Genre { id, name: name.clone() });
                proof {
                    let c0 = old(c).deep_view();
                    let c1 = resolve_genre_v(c0, name@).0;
                    assert(c.deep_view().genres =~= c1.genres);
                    assert(c.deep_view() =~= c1);
                }
                id
            },
        }
    }
}

// ---------------------------------------------------------------------------
// Artwork: content-addressed resolve-or-create.
// ---------------------------------------------------------------------------

/// Art resolution by content: hash the bytes; a hit returns the existing
/// row untouched, a miss stores the bytes once.
pub open spec fn resolve_art_v(c: CatalogV, data: Seq<u8>) -> (CatalogV, usize) {
    let h = crate::hash::fnv1a_spec(data);
    if has_art_hash(c, h) {
        (c, c.art[art_idx(c, h)].id)
    } else {
        (
            CatalogV { art: c.art.push(ArtV { id: c.art.len() as usize, hash: h, data }), ..c },
            c.art.len() as usize,
        )
    }
}

impl Art {
    /// Whether some art row already carries this content hash.
    pub fn check_hash(hash: u64, c: &Catalog) -> (r: bool)
        ensures
            r == has_art_hash(c.deep_view(), hash),
    {
        match c.find_art(hash) {
            Some(_) => true,
            None => false,
        }
    }

    /// Resolve-or-create by content: byte-identical images always land in
    /// the same row, and a hit stores nothing anew.
    pub fn new(data: Vec<u8>, c: &mut Catalog) -> (id: usize)
        requires
            wf(old(c).deep_view()),
        ensures
            (final(c).deep_view(), id) == resolve_art_v(old(c).deep_view(), data@),
            wf(final(c).deep_view()),
            id < final(c).deep_view().art.len(),
    {
        let ghost dv = data@;
        let h = crate::hash::fnv1a(&data);
        match c.find_art(h) {
            Some(i) => c.art[i].id,
            None => {
                let id = c.art.len();
                c.art.push(Art { id, hash: h, data });
                proof {
                    let c1 = resolve_art_v(old(c).deep_view(), dv).0;
                    assert(c.deep_view().art =~= c1.art);
                    assert(c.deep_view() =~= c1);
                }
                id
            },
        }
    }
}

impl Catalog {
    /// Index of the art row with this hash, if any.
    pub fn find_art(&self, hash: u64) -> (r: Option<usize>)
        ensures
            match r {
                Some(i) => i < self.art.len() && self.deep_view().art[i as int].hash == hash
                    && has_art_hash(self.deep_view(), hash),
                None => !has_art_hash(self.deep_view(), hash),
            },
    {
        let ghost c = self.deep_view();
        let n = self.art.len();
        for i in 0..n
            invariant
                c == self.deep_view(),
                n == self.art.len(),
                forall|j: int| 0 <= j < i ==> (#[trigger] c.art[j]).hash != hash,
        {
            if self.art[i].hash == hash {
                return Some(i);
            }
        }
        None
    }
}

// ---------------------------------------------------------------------------
// Association tables: idempotent pair insertion.
// ---------------------------------------------------------------------------

/// Insert an album–artist pair unless it is already there.
pub open spec fn link_album_artist_v(c: CatalogV, album_id: usize, artist_id: usize) -> CatalogV {
    let p = AlbumArtist { album_id, artist_id };
    if c.album_artists.contains(p) {
        c
    } else {
        CatalogV { album_artists: c.album_artists.push(p), ..c }
    }
}

/// Insert a track–artist pair unless it is already there.
pub open spec fn link_track_artist_v(c: CatalogV, track_id: usize, artist_id: usize) -> CatalogV {
    let p = TrackArtist { track_id, artist_id };
    if c.track_artists.contains(p) {
        c
    } else {
        CatalogV { track_artists: c.track_artists.push(p), ..c }
    }
}

/// Insert a track–genre pair unless it is already there.
pub open spec fn link_track_genre_v(c: CatalogV, track_id: usize, genre_id: usize) -> CatalogV {
    let p = TrackGenre { track_id, genre_id };
    if c.track_genres.contains(p) {
        c
    } else {
        CatalogV { track_genres: c.track_genres.push(p), ..c }
    }
}

impl Catalog {
    /// Idempotent insert of an album–artist association.
    pub fn link_album_artist(&mut self, album_id: usize, artist_id: usize)
        requires
            wf(old(self).deep_view()),
            album_id < old(self).deep_view().albums.len(),
            artist_id < old(self).deep_view().artists.len(),
        ensures
            final(self).deep_view() == link_album_artist_v(
                old(self).deep_view(),
                album_id,
                artist_id,
            ),
            wf(final(self).deep_view()),
    {
        let ghost c = self.deep_view();
        let p = AlbumArtist { album_id, artist_id };
        let n = self.album_artists.len();
        for k in 0..n
            invariant
                c == self.deep_view(),
                c == old(self).deep_view(),
                wf(c),
                n == self.album_artists.len(),
                p == (AlbumArtist { album_id, artist_id }),
                forall|l: int| 0 <= l < k ==> (#[trigger] c.album_artists[l]) != p,
        {
            if self.album_artists[k].album_id == album_id && self.album_artists[k].artist_id
                == artist_id {
                assert(c.album_artists[k as int] == p);
                assert(c.album_artists.contains(p));
                return ;
            }
        }
        assert(!c.album_artists.contains(p));
        self.album_artists.push(p);
        proof {
            assert(self.deep_view().album_artists =~= c.album_artists.push(p));
            assert(self.deep_view() =~= link_album_artist_v(c, album_id, artist_id));
        }
    }

    /// Idempotent insert of a track–artist association.
    pub fn link_track_artist(&mut self, track_id: usize, artist_id: usize)
        requires
            wf(old(self).deep_view()),
            track_id < old(self).deep_view().tracks.len(),
            artist_id < old(self).deep_view().artists.len(),
        ensures
            final(self).deep_view() == link_track_artist_v(
                old(self).deep_view(),
                track_id,
                artist_id,
            ),
            wf(final(self).deep_view()),
    {
        let ghost c = self.deep_view();
        let p = TrackArtist { track_id, artist_id };
        let n = self.track_artists.len();
        for k in 0..n
            invariant
                c == self.deep_view(),
                c == old(self).deep_view(),
                wf(c),
                n == self.track_artists.len(),
                p == (TrackArtist { track_id, artist_id }),
                forall|l: int| 0 <= l < k ==> (#[trigger] c.track_artists[l]) != p,
        {
            if self.track_artists[k].track_id == track_id && self.track_artists[k].artist_id
                == artist_id {
                assert(c.track_artists[k as int] == p);
                assert(c.track_artists.contains(p));
                return ;
            }
        }
        assert(!c.track_artists.contains(p));
        self.track_artists.push(p);
        proof {
            assert(self.deep_view().track_artists =~= c.track_artists.push(p));
            assert(self.deep_view() =~= link_track_artist_v(c, track_id, artist_id));
        }
    }

    /// Idempotent insert of a track–genre association.
    pub fn link_track_genre(&mut self, track_id: usize, genre_id: usize)
        requires
            wf(old(self).deep_view()),
            track_id < old(self).deep_view().tracks.len(),
            genre_id < old(self).deep_view().genres.len(),
        ensures
            final(self).deep_view() == link_track_genre_v(
                old(self).deep_view(),
                track_id,
                genre_id,
            ),
            wf(final(self).deep_view()),
    {
        let ghost c = self.deep_view();
        let p = TrackGenre { track_id, genre_id };
        let n = self.track_genres.len();
        for k in 0..n
            invariant
                c == self.deep_view(),
                c == old(self).deep_view(),
                wf(c),
                n == self.track_genres.len(),
                p == (TrackGenre { track_id, genre_id }),
                forall|l: int| 0 <= l < k ==> (#[trigger] c.track_genres[l]) != p,
        {
            if self.track_genres[k].track_id == track_id && self.track_genres[k].genre_id
                == genre_id {
                assert(c.track_genres[k as int] == p);
                assert(c.track_genres.contains(p));
                return ;
            }
        }
        assert(!c.track_genres.contains(p));
        self.track_genres.push(p);
        proof {
            assert(self.deep_view().track_genres =~= c.track_genres.push(p));
            assert(self.deep_view() =~= link_track_genre_v(c, track_id, genre_id));
        }
    }
}

// ---------------------------------------------------------------------------
// Albums: resolve by title, create with art and album-artist links.
// ---------------------------------------------------------------------------

/// Resolve-or-create each album artist in turn and link it to the album.
pub open spec fn album_artists_fold(c: CatalogV, album_id: usize, names: Seq<Seq<char>>) -> CatalogV
    decreases names.len(),
{
    if names.len() == 0 {
        c
    } else {
        let c1 = album_artists_fold(c, album_id, names.drop_last());
        let (c2, aid) = resolve_artist_v(c1, names.last());
        link_album_artist_v(c2, album_id, aid)
    }
}

/// Create a new album: resolve its art first, insert the row, then link
/// every album artist.
pub open spec fn create_album_v(
    c: CatalogV,
    title: Seq<char>,
    names: Seq<Seq<char>>,
    year: Option<i32>,
    picture: Option<Seq<u8>>,
) -> (CatalogV, usize) {
    let (c1, art_id) = match picture {
        Some(d) => {
            let (ca, aid) = resolve_art_v(c, d);
            (ca, Some(aid))
        },
        None => (c, None),
    };
    let id = c1.albums.len() as usize;
    let c2 = CatalogV { albums: c1.albums.push(AlbumV { id, year, title, art_id }), ..c1 };
    (album_artists_fold(c2, id, names), id)
}

/// Resolve-or-create an album by title (exact up to ASCII case). A hit
/// mutates nothing: the first writer's year and art stand.
pub open spec fn resolve_album_v(
    c: CatalogV,
    title: Seq<char>,
    names: Seq<Seq<char>>,
    year: Option<i32>,
    picture: Option<Seq<u8>>,
) -> (CatalogV, usize) {
    if has_album(c, title) {
        (c, c.albums[album_idx(c, title)].id)
    } else {
        create_album_v(c, title, names, year, picture)
    }
}

/// Copy a byte buffer.
pub(crate) fn clone_bytes(d: &Vec<u8>) -> (r: Vec<u8>)
    ensures
        r@ == d@,
{
    let r = d.clone();
    proof {
        assert(r@ =~= d@);
    }
    r
}

impl Catalog {
    /// Index of the album whose title matches up to ASCII case, if any.
    pub fn find_album(&self, title: &String) -> (r: Option<usize>)
        requires
            wf(self.deep_view()),
        ensures
            match r {
                Some(i) => has_album(self.deep_view(), title@) && i as int == album_idx(
                    self.deep_view(),
                    title@,
                ),
                None => !has_album(self.deep_view(), title@),
            },
    {
        let ghost c = self.deep_view();
        let n = self.albums.len();
        for i in 0..n
            invariant
                wf(c),
                c == self.deep_view(),
                n == self.albums.len(),
                forall|j: int| 0 <= j < i ==> !eq_ci((#[trigger] c.albums[j]).title, title@),
        {
            if crate::text::string_eq_ci(&self.albums[i].title, title) {
                proof {
                    assert(eq_ci(c.albums[i as int].title, title@));
                    let k = album_idx(c, title@);
                    assert(0 <= k < c.albums.len() && eq_ci(c.albums[k].title, title@));
                    if k != i as int {
                        assert(eq_ci(c.albums[k].title, c.albums[i as int].title));
                        assert(false);
                    }
                }
                return Some(i);
            }
        }
        None
    }
}

impl Album {
    /// Index of the album with this title (exact up to ASCII case), if any.
    pub fn by_title_exact(title: &String, c: &Catalog) -> (r: Option<usize>)
        requires
            wf(c.deep_view()),
        ensures
            match r {
                Some(i) => has_album(c.deep_view(), title@) && i as int == album_idx(
                    c.deep_view(),
                    title@,
                ) && i < c.deep_view().albums.len(),
                None => !has_album(c.deep_view(), title@),
            },
    {
        c.find_album(title)
    }

    /// Create a new album row: resolve its artwork, insert the row seeded
    /// with this year and art, then resolve-or-create every album artist and
    /// link it. The title must be unresolved; `Track::new` checks first.
    pub fn new(
        title: &String,
        albumartists: &Vec<String>,
        year: Option<i32>,
        picture: &Option<Vec<u8>>,
        c: &mut Catalog,
    ) -> (id: usize)
        requires
            wf(old(c).deep_view()),
            !has_album(old(c).deep_view(), title@),
        ensures
            (final(c).deep_view(), id) == create_album_v(
                old(c).deep_view(),
                title@,
                albumartists.deep_view(),
                year,
                picture.deep_view(),
            ),
            wf(final(c).deep_view()),
            id < final(c).deep_view().albums.len(),
    {
        let ghost c0 = c.deep_view();
        let art_id: Option<usize> = match picture {
            Some(d) => {
                proof {
                    assert(d.deep_view() =~= d@);
                }
                Some(Art::new(clone_bytes(d), c))
            },
            None => None,
        };
        let ghost c1 = c.deep_view();
        let id = c.albums.len();
        c.albums.push(Album { id, year, title: title.clone(), art_id });
        proof {
            assert(c.deep_view().albums =~= c1.albums.push(
                AlbumV { id, year, title: title@, art_id },
            ));
            assert(c.deep_view() =~= (CatalogV {
                albums: c1.albums.push(AlbumV { id, year, title: title@, art_id }),
                ..c1
            }));
        }
        let ghost c2 = c.deep_view();
        proof {
            let r = create_album_v(c0, title@, albumartists.deep_view(), year, picture.deep_view());
            assert(r.1 == id);
            assert(r.0 == album_artists_fold(c2, id, albumartists.deep_view()));
        }
        let n = albumartists.len();
        for i in 0..n
            invariant
                n == albumartists.len(),
                wf(c.deep_view()),
                c.deep_view() == album_artists_fold(c2, id, albumartists.deep_view().take(i as int)),
                c.deep_view().albums == c2.albums,
                id < c2.albums.len(),
                wf(c2),
        {
            let aid = Artist::by_title_or_new(&albumartists[i], c);
            c.link_album_artist(id, aid);
            proof {
                let names = albumartists.deep_view();
                assert(names.take(i + 1).drop_last() =~= names.take(i as int));
                assert(names.take(i + 1).last() == names[i as int]);
            }
        }
        proof {
            assert(albumartists.deep_view().take(n as int) =~= albumartists.deep_view());
        }
        id
    }
}

// ---------------------------------------------------------------------------
// Tracks: path-keyed upsert with artist and genre links.
// ---------------------------------------------------------------------------

/// The row a draft persists to, under a given id and resolved album. The
/// engine never writes `added_at` itself: an update keeps the row's stored
/// value, a fresh row starts without one (stamping it is the backing
/// store's affair).
pub open spec fn track_row_v(
    id: usize,
    d: crate::draft::TrackDraftV,
    album_id: Option<usize>,
    added_at: Option<Seq<char>>,
) -> TrackV {
    TrackV {
        id,
        album_id,
        path: d.path,
        filesize: d.filesize,
        track_number: d.track_number,
        disc_number: d.disc_number,
        disc_title: d.disc_title,
        content_group: d.content_group,
        title: d.title,
        subtitle: d.subtitle,
        year: d.year,
        release_date: d.release_date,
        bpm: d.bpm,
        length: d.length,
        initial_key: d.initial_key,
        language: d.language,
        added_at,
        art_id: None,
    }
}

/// Insert a track keyed by path, or overwrite every descriptive field of the
/// row already at that path, keeping its id.
pub open spec fn upsert_track_v(
    c: CatalogV,
    d: crate::draft::TrackDraftV,
    album_id: Option<usize>,
) -> (CatalogV, usize) {
    if has_track_path(c, d.path) {
        let i = track_idx(c, d.path);
        (
            CatalogV {
                tracks: c.tracks.update(
                    i,
                    track_row_v(c.tracks[i].id, d, album_id, c.tracks[i].added_at),
                ),
                ..c
            },
            c.tracks[i].id,
        )
    } else {
        (
            CatalogV {
                tracks: c.tracks.push(track_row_v(c.tracks.len() as usize, d, album_id, None)),
                ..c
            },
            c.tracks.len() as usize,
        )
    }
}

/// Resolve-or-create each performing artist in turn and link it.
pub open spec fn track_artists_fold(c: CatalogV, track_id: usize, names: Seq<Seq<char>>) -> CatalogV
    decreases names.len(),
{
    if names.len() == 0 {
        c
    } else {
        let c1 = track_artists_fold(c, track_id, names.drop_last());
        let (c2, aid) = resolve_artist_v(c1, names.last());
        link_track_artist_v(c2, track_id, aid)
    }
}

/// Resolve-or-create each genre in turn and link it.
pub open spec fn track_genres_fold(c: CatalogV, track_id: usize, names: Seq<Seq<char>>) -> CatalogV
    decreases names.len(),
{
    if names.len() == 0 {
        c
    } else {
        let c1 = track_genres_fold(c, track_id, names.drop_last());
        let (c2, gid) = resolve_genre_v(c1, names.last());
        link_track_genre_v(c2, track_id, gid)
    }
}

/// The album part of persisting a draft: resolve-or-create the album the
/// draft names, if any.
pub open spec fn album_phase_v(c: CatalogV, d: crate::draft::TrackDraftV) -> (
    CatalogV,
    Option<usize>,
) {
    match d.album {
        Some(t) => {
            let (ca, aid) = resolve_album_v(c, t, d.album_artists, d.year, d.picture);
            (ca, Some(aid))
        },
        None => (c, None),
    }
}

/// The whole per-file persistence step: resolve the album (when the draft
/// names one), upsert the track row, then link artists and genres.
pub open spec fn ingest_v(c: CatalogV, d: crate::draft::TrackDraftV) -> (CatalogV, usize) {
    let (c1, alb) = album_phase_v(c, d);
    let (c2, tid) = upsert_track_v(c1, d, alb);
    let c3 = track_artists_fold(c2, tid, d.artists);
    (track_genres_fold(c3, tid, d.genres), tid)
}

/// Copy an optional owned string.
fn clone_opt_string(o: &Option<String>) -> (r: Option<String>)
    ensures
        r.deep_view() == o.deep_view(),
{
    match o {
        Some(s) => Some(s.clone()),
        None => None,
    }
}

impl Catalog {
    /// Index of the track at exactly this path, if any.
    pub fn find_track(&self, path: &String) -> (r: Option<usize>)
        requires
            wf(self.deep_view()),
        ensures
            match r {
                Some(i) => has_track_path(self.deep_view(), path@) && i as int == track_idx(
                    self.deep_view(),
                    path@,
                ),
                None => !has_track_path(self.deep_view(), path@),
            },
    {
        let ghost c = self.deep_view();
        let n = self.tracks.len();
        for i in 0..n
            invariant
                wf(c),
                c == self.deep_view(),
                n == self.tracks.len(),
                forall|j: int| 0 <= j < i ==> (#[trigger] c.tracks[j]).path != path@,
        {
            if self.tracks[i].path == *path {
                proof {
                    assert(c.tracks[i as int].path == path@);
                    let k = track_idx(c, path@);
                    assert(0 <= k < c.tracks.len() && c.tracks[k].path == path@);
                    if k != i as int {
                        assert(false);
                    }
                }
                return Some(i);
            }
        }
        None
    }
}

impl Track {
    /// The change-detection gate: is there already a track at this path with
    /// this filesize? When there is, the file is skipped without being
    /// reopened.
    pub fn check(path: &String, filesize: u64, c: &Catalog) -> (r: bool)
        requires
            wf(c.deep_view()),
        ensures
            r == has_track_with(c.deep_view(), path@, filesize),
    {
        let ghost cv = c.deep_view();
        match c.find_track(path) {
            Some(i) => {
                let same = self_track_filesize(c, i) == filesize;
                proof {
                    let k = track_idx(cv, path@);
                    if same {
                        assert(has_track_with(cv, path@, filesize)) by {
                            assert(0 <= k < cv.tracks.len() && cv.tracks[k].path == path@
                                && cv.tracks[k].filesize == filesize);
                        }
                    } else {
                        assert(!has_track_with(cv, path@, filesize)) by {
                            if has_track_with(cv, path@, filesize) {
                                let j = choose|j: int|
                                    0 <= j < cv.tracks.len() && (#[trigger] cv.tracks[j]).path
                                        == path@ && cv.tracks[j].filesize == filesize;
                                assert(j == k);
                            }
                        }
                    }
                }
                same
            },
            None => {
                proof {
                    if has_track_with(cv, path@, filesize) {
                        let j = choose|j: int|
                            0 <= j < cv.tracks.len() && (#[trigger] cv.tracks[j]).path == path@
                                && cv.tracks[j].filesize == filesize;
                        assert(has_track_path(cv, path@));
                    }
                }
                false
            },
        }
    }

    /// Persist a validated draft: resolve its album, upsert the row at its
    /// path, then resolve and link every artist and genre. Re-extraction
    /// after a filesize change fully replaces stale metadata.
    pub fn new(draft: &crate::draft::TrackDraft, c: &mut Catalog) -> (id: usize)
        requires
            wf(old(c).deep_view()),
        ensures
            (final(c).deep_view(), id) == ingest_v(old(c).deep_view(), draft.deep_view()),
            wf(final(c).deep_view()),
            id < final(c).deep_view().tracks.len(),
    {
        let ghost c0 = c.deep_view();
        let ghost dv = draft.deep_view();

        // Resolve the album first so the new row's reference is valid.
        let album_id: Option<usize> = match &draft.album {
            Some(title) => {
                match Album::by_title_exact(title, c) {
                    Some(i) => Some(self_album_id(c, i)),
                    None => Some(
                        Album::new(title, &draft.album_artists, draft.year, &draft.picture, c),
                    ),
                }
            },
            None => None,
        };
        let ghost c1 = c.deep_view();
        proof {
            let r = match dv.album {
                Some(t) => {
                    let (ca, aid) = resolve_album_v(c0, t, dv.album_artists, dv.year, dv.picture);
                    (ca, Some(aid))
                },
                None => (c0, None),
            };
            assert(r.0 == c1 && r.1 == album_id);
            assert(album_id matches Some(a) ==> a < c1.albums.len());
        }

        // Upsert the row keyed by path.
        let tid: usize = match c.find_track(&draft.path) {
            Some(i) => {
                let id = self_track_id(c, i);
                let row = Track {
                    id,
                    album_id,
                    path: draft.path.clone(),
                    filesize: draft.filesize,
                    track_number: draft.track_number,
                    disc_number: draft.disc_number,
                    disc_title: clone_opt_string(&draft.disc_title),
                    content_group: clone_opt_string(&draft.content_group),
                    title: draft.title.clone(),
                    subtitle: clone_opt_string(&draft.subtitle),
                    year: draft.year,
                    release_date: clone_opt_string(&draft.release_date),
                    bpm: clone_opt_string(&draft.bpm),
                    length: draft.length,
                    initial_key: clone_opt_string(&draft.initial_key),
                    language: clone_opt_string(&draft.language),
                    added_at: clone_opt_string(&c.tracks[i].added_at),
                    art_id: None,
                };
                c.tracks.set(i, row);
                proof {
                    let u = upsert_track_v(c1, dv, album_id);
                    assert(c.deep_view().tracks =~= u.0.tracks);
                    assert(c.deep_view() =~= u.0);
                }
                id
            },
            None => {
                let id = c.tracks.len();
                let row = Track {
                    id,
                    album_id,
                    path: draft.path.clone(),
                    filesize: draft.filesize,
                    track_number: draft.track_number,
                    disc_number: draft.disc_number,
                    disc_title: clone_opt_string(&draft.disc_title),
                    content_group: clone_opt_string(&draft.content_group),
                    title: draft.title.clone(),
                    subtitle: clone_opt_string(&draft.subtitle),
                    year: draft.year,
                    release_date: clone_opt_string(&draft.release_date),
                    bpm: clone_opt_string(&draft.bpm),
                    length: draft.length,
                    initial_key: clone_opt_string(&draft.initial_key),
                    language: clone_opt_string(&draft.language),
                    added_at: None,
                    art_id: None,
                };
                c.tracks.push(row);
                proof {
                    let u = upsert_track_v(c1, dv, album_id);
                    assert(c.deep_view().tracks =~= u.0.tracks);
                    assert(c.deep_view() =~= u.0);
                }
                id
            },
        };
        let ghost c2 = c.deep_view();
        proof {
            assert((c2, tid) == upsert_track_v(c1, dv, album_id));
            assert(tid < c2.tracks.len());
        }

        // Link the performing artists.
        let n = draft.artists.len();
        for i in 0..n
            invariant
                n == draft.artists.len(),
                wf(c.deep_view()),
                c.deep_view() == track_artists_fold(c2, tid, draft.deep_view().artists.take(i as int)),
                c.deep_view().tracks == c2.tracks,
                tid < c2.tracks.len(),
                wf(c2),
        {
            let aid = Artist::by_title_or_new(&draft.artists[i], c);
            c.link_track_artist(tid, aid);
            proof {
                let names = draft.deep_view().artists;
                assert(names.take(i + 1).drop_last() =~= names.take(i as int));
                assert(names.take(i + 1).last() == names[i as int]);
            }
        }
        proof {
            assert(draft.deep_view().artists.take(n as int) =~= draft.deep_view().artists);
        }
        let ghost c3 = c.deep_view();

        // Link the genres.
        let m = draft.genres.len();
        for i in 0..m
            invariant
                m == draft.genres.len(),
                wf(c.deep_view()),
                c.deep_view() == track_genres_fold(c3, tid, draft.deep_view().genres.take(i as int)),
                c.deep_view().tracks == c3.tracks,
                c3.tracks == c2.tracks,
                tid < c2.tracks.len(),
                wf(c3),
        {
            let gid = Genre::get_or_new(&draft.genres[i], c);
            c.link_track_genre(tid, gid);
            proof {
                let names = draft.deep_view().genres;
                assert(names.take(i + 1).drop_last() =~= names.take(i as int));
                assert(names.take(i + 1).last() == names[i as int]);
            }
        }
        proof {
            assert(draft.deep_view().genres.take(m as int) =~= draft.deep_view().genres);
        }
        tid
    }
}

// ---------------------------------------------------------------------------
// Laws: what the resolve-or-create and upsert transitions guarantee.
// ---------------------------------------------------------------------------

/// Inserting the same association pair twice yields exactly what inserting
/// it once does: the pair exists once, and the second insert is a no-op.
pub proof fn lemma_association_idempotent(c: CatalogV, track_id: usize, artist_id: usize)
    ensures
        link_track_artist_v(link_track_artist_v(c, track_id, artist_id), track_id, artist_id)
            == link_track_artist_v(c, track_id, artist_id),
{
    let p = TrackArtist { track_id, artist_id };
    let c1 = link_track_artist_v(c, track_id, artist_id);
    if !c.track_artists.contains(p) {
        assert(c1.track_artists[c.track_artists.len() as int] == p);
        assert(c1.track_artists.contains(p));
    }
}

/// Resolving byte-identical artwork twice creates at most one row, returns
/// the same id both times, and the second resolution changes nothing: every
/// chain that resolves these bytes references the one row.
pub proof fn lemma_art_dedup(c: CatalogV, data: Seq<u8>)
    requires
        wf(c),
        c.art.len() <= usize::MAX,
    ensures
        ({
            let (c1, id1) = resolve_art_v(c, data);
            let (c2, id2) = resolve_art_v(c1, data);
            c2 == c1 && id2 == id1 && c1.art.len() <= c.art.len() + 1 && id1 < c1.art.len()
                && c1.art[id1 as int].hash == crate::hash::fnv1a_spec(data)
        }),
{
    let h = crate::hash::fnv1a_spec(data);
    if has_art_hash(c, h) {
        let k = art_idx(c, h);
        assert(0 <= k < c.art.len() && c.art[k].hash == h);
    }
    if !has_art_hash(c, h) {
        let c1 = resolve_art_v(c, data).0;
        assert(c1.art[c.art.len() as int].hash == h);
        assert(has_art_hash(c1, h));
        let k = art_idx(c1, h);
        assert(0 <= k < c1.art.len() && c1.art[k].hash == h);
        if k != c.art.len() as int {
            assert(c.art[k].hash == h);
            assert(has_art_hash(c, h));
        }
    }
}

/// No two art rows ever hold identical bytes: in every well-formed catalog —
/// and every operation, a whole scan included, keeps the catalog well-formed
/// — byte-identical artwork occupies exactly one row.
pub proof fn lemma_art_rows_unique_content(c: CatalogV, i: int, j: int)
    requires
        wf(c),
        0 <= i < j < c.art.len(),
    ensures
        c.art[i].data != c.art[j].data,
{
    if c.art[i].data == c.art[j].data {
        assert(c.art[i].hash == c.art[j].hash);
    }
}

// The album and link phases leave the tracks table alone; persisting a
// draft touches exactly the row at its path.

proof fn lemma_aa_fold_tracks(c: CatalogV, album_id: usize, names: Seq<Seq<char>>)
    ensures
        album_artists_fold(c, album_id, names).tracks == c.tracks,
    decreases names.len(),
{
    if names.len() > 0 {
        lemma_aa_fold_tracks(c, album_id, names.drop_last());
    }
}

proof fn lemma_ta_fold_tracks(c: CatalogV, track_id: usize, names: Seq<Seq<char>>)
    ensures
        track_artists_fold(c, track_id, names).tracks == c.tracks,
    decreases names.len(),
{
    if names.len() > 0 {
        lemma_ta_fold_tracks(c, track_id, names.drop_last());
    }
}

proof fn lemma_tg_fold_tracks(c: CatalogV, track_id: usize, names: Seq<Seq<char>>)
    ensures
        track_genres_fold(c, track_id, names).tracks == c.tracks,
    decreases names.len(),
{
    if names.len() > 0 {
        lemma_tg_fold_tracks(c, track_id, names.drop_last());
    }
}

/// Resolving a draft's album never touches the tracks table.
pub proof fn lemma_album_phase_tracks(c: CatalogV, d: crate::draft::TrackDraftV)
    ensures
        album_phase_v(c, d).0.tracks == c.tracks,
{
    if d.album is Some {
        let t = d.album->Some_0;
        if !has_album(c, t) {
            let (c1, art_id) = match d.picture {
                Some(dd) => {
                    let (ca, aid) = resolve_art_v(c, dd);
                    (ca, Some(aid))
                },
                None => (c, None),
            };
            let id = c1.albums.len() as usize;
            let c2 = CatalogV {
                albums: c1.albums.push(AlbumV { id, year: d.year, title: t, art_id }),
                ..c1
            };
            lemma_aa_fold_tracks(c2, id, d.album_artists);
        }
    }
}

/// After persisting a draft, a track with its path and filesize exists.
pub proof fn lemma_ingest_establishes(c: CatalogV, d: crate::draft::TrackDraftV)
    ensures
        has_track_with(ingest_v(c, d).0, d.path, d.filesize),
{
    let (c1, alb) = album_phase_v(c, d);
    lemma_album_phase_tracks(c, d);
    let (c2, tid) = upsert_track_v(c1, d, alb);
    lemma_ta_fold_tracks(c2, tid, d.artists);
    lemma_tg_fold_tracks(track_artists_fold(c2, tid, d.artists), tid, d.genres);
    if has_track_path(c1, d.path) {
        let i = track_idx(c1, d.path);
        assert(0 <= i < c1.tracks.len() && c1.tracks[i].path == d.path);
        assert(c2.tracks[i].path == d.path && c2.tracks[i].filesize == d.filesize);
        assert(has_track_with(c2, d.path, d.filesize));
    } else {
        assert(c2.tracks[c1.tracks.len() as int].path == d.path && c2.tracks[c1.tracks.len() as int].filesize
            == d.filesize);
        assert(has_track_with(c2, d.path, d.filesize));
    }
}

/// Persisting a draft leaves every track at another path untouched.
pub proof fn lemma_ingest_preserves(c: CatalogV, d: crate::draft::TrackDraftV, q: Seq<char>, fs: u64)
    requires
        has_track_with(c, q, fs),
        q != d.path,
    ensures
        has_track_with(ingest_v(c, d).0, q, fs),
{
    let (c1, alb) = album_phase_v(c, d);
    lemma_album_phase_tracks(c, d);
    let (c2, tid) = upsert_track_v(c1, d, alb);
    lemma_ta_fold_tracks(c2, tid, d.artists);
    lemma_tg_fold_tracks(track_artists_fold(c2, tid, d.artists), tid, d.genres);
    let j = choose|j: int|
        0 <= j < c1.tracks.len() && (#[trigger] c1.tracks[j]).path == q && c1.tracks[j].filesize
            == fs;
    if has_track_path(c1, d.path) {
        let i = track_idx(c1, d.path);
        assert(0 <= i < c1.tracks.len() && c1.tracks[i].path == d.path);
        assert(i != j);
        assert(c2.tracks[j] == c1.tracks[j]);
        assert(has_track_with(c2, q, fs));
    } else {
        assert(c2.tracks[j] == c1.tracks[j]);
        assert(has_track_with(c2, q, fs));
    }
}

/// Path identity: persisting a path twice — the second time with any other
/// filesize or tags — leaves exactly one row for that path, updated in
/// place: same id, fields from the second draft, no duplicate.
pub proof fn lemma_path_identity(c: CatalogV, d1: crate::draft::TrackDraftV, d2: crate::draft::TrackDraftV)
    requires
        !has_track_path(c, d1.path),
        d2.path == d1.path,
    ensures
        ({
            let ca = ingest_v(c, d1).0;
            let cb = ingest_v(ca, d2).0;
            let n = c.tracks.len() as int;
            ca.tracks.len() == c.tracks.len() + 1 && cb.tracks.len() == ca.tracks.len()
                && cb.tracks[n].path == d2.path && cb.tracks[n].filesize == d2.filesize
                && cb.tracks[n].title == d2.title && cb.tracks[n].id == ca.tracks[n].id && forall|j: int|
                0 <= j < n ==> (#[trigger] cb.tracks[j]) == ca.tracks[j]
        }),
{
    let n = c.tracks.len() as int;

    // First pass: a miss, so the row is appended at the end of the table.
    let (c1, alb1) = album_phase_v(c, d1);
    lemma_album_phase_tracks(c, d1);
    let (c2, tid1) = upsert_track_v(c1, d1, alb1);
    lemma_ta_fold_tracks(c2, tid1, d1.artists);
    lemma_tg_fold_tracks(track_artists_fold(c2, tid1, d1.artists), tid1, d1.genres);
    let ca = ingest_v(c, d1).0;
    assert(ca.tracks == c2.tracks);
    assert(ca.tracks.len() == n + 1);
    assert(ca.tracks[n].path == d1.path && ca.tracks[n].id == tid1);
    assert(forall|j: int| 0 <= j < n ==> (#[trigger] ca.tracks[j]) == c.tracks[j]);

    // Second pass: a hit at the appended row, which is the only one with
    // this path, so the update lands there.
    let (cb1, alb2) = album_phase_v(ca, d2);
    lemma_album_phase_tracks(ca, d2);
    assert(cb1.tracks == ca.tracks);
    assert(has_track_path(cb1, d2.path));
    let i = track_idx(cb1, d2.path);
    assert(0 <= i < cb1.tracks.len() && cb1.tracks[i].path == d2.path);
    if i < n {
        assert(c.tracks[i].path == d1.path);
        assert(has_track_path(c, d1.path));
    }
    assert(i == n);
    let (cb2, tid2) = upsert_track_v(cb1, d2, alb2);
    lemma_ta_fold_tracks(cb2, tid2, d2.artists);
    lemma_tg_fold_tracks(track_artists_fold(cb2, tid2, d2.artists), tid2, d2.genres);
    let cb = ingest_v(ca, d2).0;
    assert(cb.tracks == cb2.tracks);
}

/// Read an album's id from its table index.
fn self_album_id(c: &Catalog, i: usize) -> (id: usize)
    requires
        i < c.albums.len(),
    ensures
        id == c.deep_view().albums[i as int].id,
{
    c.albums[i].id
}

/// Read a track's id from its table index.
fn self_track_id(c: &Catalog, i: usize) -> (id: usize)
    requires
        i < c.tracks.len(),
    ensures
        id == c.deep_view().tracks[i as int].id,
{
    c.tracks[i].id
}

/// Read a track's filesize from its table index.
fn self_track_filesize(c: &Catalog, i: usize) -> (s: u64)
    requires
        i < c.tracks.len(),
    ensures
        s == c.deep_view().tracks[i as int].filesize,
{
    c.tracks[i].filesize
}

} // verus!
