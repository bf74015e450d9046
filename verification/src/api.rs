use vstd::prelude::*;

use crate::catalog::{AlbumArtist, AlbumV, ArtistV, Catalog, CatalogV, TrackV};
use crate::error::Error;
use crate::queries::tracks_of_album;
use crate::text::contains_ci;

verus! {

pub const MAJOR: u32 = 0;

pub const MINOR: u32 = 1;

/// The API's version stamp.
#[derive(PartialEq, Eq, Structural, Debug, Clone, Copy)]
pub struct Version {
    pub major: u32,
    pub minor: u32,
}

impl Default for Version {
    /// The version the API reports.
    fn default() -> (r: Version)
        ensures
            r.major == MAJOR,
            r.minor == MINOR,
    {
        Version { major: MAJOR, minor: MINOR }
    }
}

/// Status of an API response.
#[derive(PartialEq, Eq, Debug)]
pub enum MagpieStatus {
    Okay,
    Error(String),
    Unimplemented,
}

/// An artist as the API shows it.
#[derive(PartialEq, Eq, Debug)]
pub struct MagpieArtist {
    pub id: usize,
    pub name: String,
}

#[verifier::ext_equal]
pub struct MagpieArtistV {
    pub id: usize,
    pub name: Seq<char>,
}

impl DeepView for MagpieArtist {
    type V = MagpieArtistV;

    open spec fn deep_view(&self) -> MagpieArtistV {
        MagpieArtistV { id: self.id, name: self.name@ }
    }
}

/// An album as the API shows it.
#[derive(PartialEq, Eq, Debug)]
pub struct MagpieAlbum {
    pub id: usize,
    pub title: String,
    pub year: Option<i32>,
    pub artist: Option<Vec<String>>,
    pub art: Option<String>,
}

#[verifier::ext_equal]
pub struct MagpieAlbumV {
    pub id: usize,
    pub title: Seq<char>,
    pub year: Option<i32>,
    pub artist: Option<Seq<Seq<char>>>,
    pub art: Option<Seq<char>>,
}

impl DeepView for MagpieAlbum {
    type V = MagpieAlbumV;

    open spec fn deep_view(&self) -> MagpieAlbumV {
        MagpieAlbumV {
            id: self.id,
            title: self.title@,
            year: self.year,
            artist: self.artist.deep_view(),
            art: self.art.deep_view(),
        }
    }
}

/// A track as the API shows it.
#[derive(PartialEq, Eq, Debug)]
pub struct MagpieTrack {
    pub id: usize,
    pub album: Option<String>,
    pub album_id: Option<usize>,
    pub track_number: Option<i32>,
    pub disc_number: Option<i32>,
    pub disc_title: Option<String>,
    pub content_group: Option<String>,
    pub title: String,
    pub subtitle: Option<String>,
    pub year: Option<i32>,
    pub release_date: Option<String>,
    pub bpm: Option<String>,
    pub length: Option<u64>,
    pub initial_key: Option<String>,
    pub language: Option<String>,
    pub added_at: Option<String>,
    pub art: Option<String>,
}

#[verifier::ext_equal]
pub struct MagpieTrackV {
    pub id: usize,
    pub album: Option<Seq<char>>,
    pub album_id: Option<usize>,
    pub track_number: Option<i32>,
    pub disc_number: Option<i32>,
    pub disc_title: Option<Seq<char>>,
    pub content_group: Option<Seq<char>>,
    pub title: Seq<char>,
    pub subtitle: Option<Seq<char>>,
    pub year: Option<i32>,
    pub release_date: Option<Seq<char>>,
    pub bpm: Option<Seq<char>>,
    pub length: Option<u64>,
    pub initial_key: Option<Seq<char>>,
    pub language: Option<Seq<char>>,
    pub added_at: Option<Seq<char>>,
    pub art: Option<Seq<char>>,
}

impl DeepView for MagpieTrack {
    type V = MagpieTrackV;

    open spec fn deep_view(&self) -> MagpieTrackV {
        MagpieTrackV {
            id: self.id,
            album: self.album.deep_view(),
            album_id: self.album_id,
            track_number: self.track_number,
            disc_number: self.disc_number,
            disc_title: self.disc_title.deep_view(),
            content_group: self.content_group.deep_view(),
            title: self.title@,
            subtitle: self.subtitle.deep_view(),
            year: self.year,
            release_date: self.release_date.deep_view(),
            bpm: self.bpm.deep_view(),
            length: self.length,
            initial_key: self.initial_key.deep_view(),
            language: self.language.deep_view(),
            added_at: self.added_at.deep_view(),
            art: self.art.deep_view(),
        }
    }
}

/// The payload of an API response.
#[derive(PartialEq, Eq, Debug)]
pub enum MagpieData {
    Artists(Vec<MagpieArtist>),
    Artist(MagpieArtist),
    Albums(Vec<MagpieAlbum>),
    Album(MagpieAlbum),
    Tracks(Vec<MagpieTrack>),
    Track(MagpieTrack),
    Empty,
}

/// An API response envelope.
#[derive(PartialEq, Eq, Debug)]
pub struct MagpieResponse {
    pub status: MagpieStatus,
    pub count: Option<usize>,
    pub page: Option<usize>,
    pub data: MagpieData,
    pub children: Option<MagpieData>,
}

impl MagpieResponse {
    /// An empty, unimplemented response.
    pub fn new() -> (r: MagpieResponse)
        ensures
            r.status is Unimplemented,
            r.count is None,
            r.page is None,
            r.data is Empty,
            r.children is None,
    {
        MagpieResponse {
            status: MagpieStatus::Unimplemented,
            count: None,
            page: None,
            data: MagpieData::Empty,
            children: None,
        }
    }

    /// Mark the response failed with a message.
    pub fn error(self, msg: &str) -> (r: MagpieResponse)
        ensures
            r.status matches MagpieStatus::Error(m) && m@ == msg@,
            r.count == self.count,
            r.page == self.page,
            r.data == self.data,
            r.children == self.children,
    {
        MagpieResponse { status: MagpieStatus::Error(msg.to_owned()), ..self }
    }

    /// Attach the payload and mark the response successful.
    pub fn add_data(self, data: MagpieData) -> (r: MagpieResponse)
        ensures
            r.status is Okay,
            r.data == data,
            r.count == self.count,
            r.page == self.page,
            r.children == self.children,
    {
        MagpieResponse { status: MagpieStatus::Okay, data, ..self }
    }

    /// Record the page window the payload came from.
    pub fn set_pagination(self, count: usize, page: usize) -> (r: MagpieResponse)
        ensures
            r.count == Some(count),
            r.page == Some(page),
            r.status == self.status,
            r.data == self.data,
            r.children == self.children,
    {
        MagpieResponse { count: Some(count), page: Some(page), ..self }
    }

    /// Attach related child entities.
    pub fn add_children(self, data: MagpieData) -> (r: MagpieResponse)
        ensures
            r.children == Some(data),
            r.status == self.status,
            r.count == self.count,
            r.page == self.page,
            r.data == self.data,
    {
        MagpieResponse { children: Some(data), ..self }
    }
}

// ---------------------------------------------------------------------------
// DTO construction from catalog rows.
// ---------------------------------------------------------------------------

/// The artist DTO of a row.
pub open spec fn magpie_artist_of(a: ArtistV) -> MagpieArtistV {
    MagpieArtistV { id: a.id, name: a.name }
}

/// The names of the artists joined to an album, in table order.
pub open spec fn album_artist_names(c: CatalogV, a: AlbumV) -> Seq<Seq<char>> {
    c.artists.filter(
        |x: ArtistV| c.album_artists.contains(AlbumArtist { album_id: a.id, artist_id: x.id }),
    ).map_values(|x: ArtistV| x.name)
}

/// The album DTO of a row, with its artist names joined in.
pub open spec fn magpie_album_of(c: CatalogV, a: AlbumV) -> MagpieAlbumV {
    MagpieAlbumV {
        id: a.id,
        title: a.title,
        year: a.year,
        artist: Some(album_artist_names(c, a)),
        art: None,
    }
}

/// The track DTO of a row; the album title is joined in when the row
/// references one.
pub open spec fn magpie_track_of(c: CatalogV, t: TrackV) -> MagpieTrackV {
    MagpieTrackV {
        id: t.id,
        album: match t.album_id {
            Some(a) => if a < c.albums.len() {
                Some(c.albums[a as int].title)
            } else {
                None
            },
            None => None,
        },
        album_id: t.album_id,
        track_number: Some(t.track_number),
        disc_number: Some(t.disc_number),
        disc_title: t.disc_title,
        content_group: t.content_group,
        title: t.title,
        subtitle: t.subtitle,
        year: t.year,
        release_date: t.release_date,
        bpm: t.bpm,
        length: Some(t.length),
        initial_key: t.initial_key,
        language: t.language,
        added_at: t.added_at,
        art: None,
    }
}

impl MagpieArtist {
    /// Build the DTO of an artist row.
    pub fn new(artist: &crate::catalog::Artist) -> (r: MagpieArtist)
        ensures
            r.deep_view() == magpie_artist_of(artist.deep_view()),
    {
        MagpieArtist { id: artist.id, name: artist.name.clone() }
    }
}

impl MagpieAlbum {
    /// Build the DTO of an album row, joining in its artist names.
    pub fn new(album: &crate::catalog::Album, c: &Catalog) -> (r: MagpieAlbum)
        ensures
            r.deep_view() == magpie_album_of(c.deep_view(), album.deep_view()),
    {
        let artists = album.artist(c);
        let mut names: Vec<String> = Vec::new();
        let n = artists.len();
        for i in 0..n
            invariant
                n == artists.len(),
                names@.len() == i,
                names.deep_view() =~~= artists.deep_view().map_values(|x: ArtistV| x.name).take(
                    i as int,
                ),
        {
            names.push(artists[i].name.clone());
            proof {
                assert(names.deep_view() =~~= artists.deep_view().map_values(
                    |x: ArtistV| x.name,
                ).take(i + 1));
            }
        }
        proof {
            assert(artists.deep_view().map_values(|x: ArtistV| x.name).take(n as int) =~~= artists.deep_view().map_values(
                |x: ArtistV| x.name,
            ));
        }
        let r = MagpieAlbum {
            id: album.id,
            title: album.title.clone(),
            year: album.year,
            artist: Some(names),
            art: None,
        };
        proof {
            assert(r.deep_view() =~= magpie_album_of(c.deep_view(), album.deep_view()));
        }
        r
    }
}

impl MagpieTrack {
    /// Build the DTO of a track row, joining in its album's title.
    pub fn new(track: &crate::catalog::Track, c: &Catalog) -> (r: MagpieTrack)
        ensures
            r.deep_view() == magpie_track_of(c.deep_view(), track.deep_view()),
    {
        let album: Option<String> = match track.album_id {
            Some(a) => {
                if a < c.albums.len() {
                    Some(c.albums[a].title.clone())
                } else {
                    None
                }
            },
            None => None,
        };
        let r = MagpieTrack {
            id: track.id,
            album,
            album_id: track.album_id,
            track_number: Some(track.track_number),
            disc_number: Some(track.disc_number),
            disc_title: crate::draft::copy_opt_string(&track.disc_title),
            content_group: crate::draft::copy_opt_string(&track.content_group),
            title: track.title.clone(),
            subtitle: crate::draft::copy_opt_string(&track.subtitle),
            year: track.year,
            release_date: crate::draft::copy_opt_string(&track.release_date),
            bpm: crate::draft::copy_opt_string(&track.bpm),
            length: Some(track.length),
            initial_key: crate::draft::copy_opt_string(&track.initial_key),
            language: crate::draft::copy_opt_string(&track.language),
            added_at: crate::draft::copy_opt_string(&track.added_at),
            art: None,
        };
        proof {
            assert(r.deep_view() =~= magpie_track_of(c.deep_view(), track.deep_view()));
        }
        r
    }
}

// ---------------------------------------------------------------------------
// Filtered, paginated queries: the compute behind the API routes.
// ---------------------------------------------------------------------------

/// A typed, enumerated query filter.
pub struct Filter {
    pub limit: Option<usize>,
    pub offset: Option<usize>,
    pub name: Option<String>,
    pub title: Option<String>,
    pub subtitle: Option<String>,
    pub album: Option<String>,
    pub year: Option<i32>,
    pub bpm: Option<String>,
    pub language: Option<String>,
}

#[verifier::ext_equal]
pub struct FilterV {
    pub limit: Option<usize>,
    pub offset: Option<usize>,
    pub name: Option<Seq<char>>,
    pub title: Option<Seq<char>>,
    pub subtitle: Option<Seq<char>>,
    pub album: Option<Seq<char>>,
    pub year: Option<i32>,
    pub bpm: Option<Seq<char>>,
    pub language: Option<Seq<char>>,
}

impl DeepView for Filter {
    type V = FilterV;

    open spec fn deep_view(&self) -> FilterV {
        FilterV {
            limit: self.limit,
            offset: self.offset,
            name: self.name.deep_view(),
            title: self.title.deep_view(),
            subtitle: self.subtitle.deep_view(),
            album: self.album.deep_view(),
            year: self.year,
            bpm: self.bpm.deep_view(),
            language: self.language.deep_view(),
        }
    }
}

impl Filter {
    /// A filter that matches everything, with the default page window.
    pub fn none() -> (r: Filter)
        ensures
            r.deep_view() == (FilterV {
                limit: None,
                offset: None,
                name: None,
                title: None,
                subtitle: None,
                album: None,
                year: None,
                bpm: None,
                language: None,
            }),
    {
        Filter {
            limit: None,
            offset: None,
            name: None,
            title: None,
            subtitle: None,
            album: None,
            year: None,
            bpm: None,
            language: None,
        }
    }
}

/// How many rows a query returns when the filter does not say.
pub const DEFAULT_LIMIT: usize = 50;

pub open spec fn limit_of(f: FilterV) -> int {
    match f.limit {
        Some(l) => l as int,
        None => DEFAULT_LIMIT as int,
    }
}

pub open spec fn offset_of(f: FilterV) -> int {
    match f.offset {
        Some(o) => o as int,
        None => 0,
    }
}

/// The page window `[off, off + lim)` of a sequence, clipped to its length.
pub open spec fn page_of<A>(s: Seq<A>, off: int, lim: int) -> Seq<A> {
    let a = if off <= s.len() {
        off
    } else {
        s.len() as int
    };
    let b = if a + lim <= s.len() {
        a + lim
    } else {
        s.len() as int
    };
    s.subrange(a, b)
}

/// The artist listing order: by name, lexicographically by code point.
pub open spec fn artist_le(a: ArtistV, b: ArtistV) -> bool {
    crate::text::lex_le(a.name, b.name)
}

/// Ascending by name.
pub open spec fn sorted_artists(s: Seq<ArtistV>) -> bool {
    forall|i: int, j: int| 0 <= i < j < s.len() ==> artist_le(#[trigger] s[i], #[trigger] s[j])
}

/// Whether `a` lists no later than `b` in an artist listing.
fn artist_le_exec(a: &crate::catalog::Artist, b: &crate::catalog::Artist) -> (r: bool)
    ensures
        r == artist_le(a.deep_view(), b.deep_view()),
{
    crate::text::string_lex_le(&a.name, &b.name)
}

/// Selection sort of artist rows into listing order.
fn sort_artists(v: Vec<crate::catalog::Artist>) -> (r: Vec<crate::catalog::Artist>)
    ensures
        r.deep_view().to_multiset() == v.deep_view().to_multiset(),
        sorted_artists(r.deep_view()),
{
    let ghost orig = v.deep_view();
    let mut src = v;
    let mut out: Vec<crate::catalog::Artist> = Vec::new();
    proof {
        broadcast use vstd::seq_lib::group_to_multiset_ensures;
        broadcast use vstd::multiset::group_multiset_axioms;

    }
    while src.len() > 0
        invariant
            out.deep_view().to_multiset().add(src.deep_view().to_multiset())
                =~= orig.to_multiset(),
            sorted_artists(out.deep_view()),
            forall|i: int, j: int|
                0 <= i < out.deep_view().len() && 0 <= j < src.deep_view().len() ==> artist_le(
                    #[trigger] out.deep_view()[i],
                    #[trigger] src.deep_view()[j],
                ),
        decreases src.len(),
    {
        let ghost s0 = src.deep_view();
        let ghost o0 = out.deep_view();
        let n = src.len();
        let mut m: usize = 0;
        proof {
            assert(artist_le(s0[0], s0[0])) by {
                crate::text::lemma_lex_le_total(s0[0].name, s0[0].name);
            }
        }
        for k in 1..n
            invariant
                n == src.len(),
                s0 == src.deep_view(),
                m < n,
                forall|j: int| 0 <= j < k ==> artist_le(s0[m as int], #[trigger] s0[j]),
        {
            if !artist_le_exec(&src[m], &src[k]) {
                proof {
                    crate::text::lemma_lex_le_total(s0[m as int].name, s0[k as int].name);
                    assert forall|j: int| 0 <= j <= k implies artist_le(
                        s0[k as int],
                        #[trigger] s0[j],
                    ) by {
                        if j < k {
                            crate::text::lemma_lex_le_trans(
                                s0[k as int].name,
                                s0[m as int].name,
                                s0[j].name,
                            );
                        } else {
                            crate::text::lemma_lex_le_total(s0[k as int].name, s0[k as int].name);
                        }
                    }
                }
                m = k;
            }
        }
        let t = src.remove(m);
        out.push(t);
        proof {
            broadcast use vstd::seq_lib::group_to_multiset_ensures;
            broadcast use vstd::multiset::group_multiset_axioms;

            let x = s0[m as int];
            assert(src.deep_view() =~~= s0.remove(m as int));
            assert(out.deep_view() =~~= o0.push(x));
            assert(s0.contains(x));
            assert(s0.to_multiset().count(x) > 0);
            assert(o0.push(x).to_multiset() =~= o0.to_multiset().insert(x));
            assert(s0.remove(m as int).to_multiset() == s0.to_multiset().remove(x));
            assert(out.deep_view().to_multiset().add(src.deep_view().to_multiset()) =~= o0.to_multiset().add(
                s0.to_multiset(),
            ));
        }
    }
    out
}

/// The album listing order: by year, an absent year first.
pub open spec fn album_le(a: AlbumV, b: AlbumV) -> bool {
    match (a.year, b.year) {
        (Option::None, _) => true,
        (Option::Some(_), Option::None) => false,
        (Option::Some(x), Option::Some(y)) => x <= y,
    }
}

/// Ascending by year, absent years first.
pub open spec fn sorted_albums(s: Seq<AlbumV>) -> bool {
    forall|i: int, j: int| 0 <= i < j < s.len() ==> album_le(#[trigger] s[i], #[trigger] s[j])
}

/// Whether `a` lists no later than `b` in an album listing.
fn album_le_exec(a: &crate::catalog::Album, b: &crate::catalog::Album) -> (r: bool)
    ensures
        r == album_le(a.deep_view(), b.deep_view()),
{
    match (a.year, b.year) {
        (None, _) => true,
        (Some(_), None) => false,
        (Some(x), Some(y)) => x <= y,
    }
}

/// Selection sort of album rows into listing order.
fn sort_albums(v: Vec<crate::catalog::Album>) -> (r: Vec<crate::catalog::Album>)
    ensures
        r.deep_view().to_multiset() == v.deep_view().to_multiset(),
        sorted_albums(r.deep_view()),
{
    let ghost orig = v.deep_view();
    let mut src = v;
    let mut out: Vec<crate::catalog::Album> = Vec::new();
    proof {
        broadcast use vstd::seq_lib::group_to_multiset_ensures;
        broadcast use vstd::multiset::group_multiset_axioms;

    }
    while src.len() > 0
        invariant
            out.deep_view().to_multiset().add(src.deep_view().to_multiset())
                =~= orig.to_multiset(),
            sorted_albums(out.deep_view()),
            forall|i: int, j: int|
                0 <= i < out.deep_view().len() && 0 <= j < src.deep_view().len() ==> album_le(
                    #[trigger] out.deep_view()[i],
                    #[trigger] src.deep_view()[j],
                ),
        decreases src.len(),
    {
        let ghost s0 = src.deep_view();
        let ghost o0 = out.deep_view();
        let n = src.len();
        let mut m: usize = 0;
        for k in 1..n
            invariant
                n == src.len(),
                s0 == src.deep_view(),
                m < n,
                forall|j: int| 0 <= j < k ==> album_le(s0[m as int], #[trigger] s0[j]),
        {
            if !album_le_exec(&src[m], &src[k]) {
                m = k;
            }
        }
        let t = src.remove(m);
        out.push(t);
        proof {
            broadcast use vstd::seq_lib::group_to_multiset_ensures;
            broadcast use vstd::multiset::group_multiset_axioms;

            let x = s0[m as int];
            assert(src.deep_view() =~~= s0.remove(m as int));
            assert(out.deep_view() =~~= o0.push(x));
            assert(s0.contains(x));
            assert(s0.to_multiset().count(x) > 0);
            assert(o0.push(x).to_multiset() =~= o0.to_multiset().insert(x));
            assert(s0.remove(m as int).to_multiset() == s0.to_multiset().remove(x));
            assert(out.deep_view().to_multiset().add(src.deep_view().to_multiset()) =~= o0.to_multiset().add(
                s0.to_multiset(),
            ));
        }
    }
    out
}

/// Whether an artist row passes the filter: `name` and `title` both search
/// the name, without case.
pub open spec fn artist_matches(a: ArtistV, f: FilterV) -> bool {
    &&& (f.name matches Some(p) ==> contains_ci(a.name, p))
    &&& (f.title matches Some(p) ==> contains_ci(a.name, p))
}

/// Whether an album row passes the filter.
pub open spec fn album_matches(a: AlbumV, f: FilterV) -> bool {
    &&& (f.title matches Some(p) ==> contains_ci(a.title, p))
    &&& (f.year matches Some(y) ==> a.year == Some(y))
}

/// Whether a track row passes the filter; the album clause compares against
/// the already-resolved album id.
pub open spec fn track_matches(t: TrackV, f: FilterV, alb: Option<usize>) -> bool {
    &&& (f.title matches Some(p) ==> contains_ci(t.title, p))
    &&& (f.subtitle matches Some(p) ==> (t.subtitle matches Some(s) && contains_ci(s, p)))
    &&& (alb matches Some(id) ==> t.album_id == Some(id))
    &&& (f.year matches Some(y) ==> t.year == Some(y))
    &&& (f.bpm matches Some(p) ==> t.bpm == Some(p))
    &&& (f.language matches Some(p) ==> t.language == Some(p))
}

/// Compute the exec page window `[from, to)` for a row count.
fn page_window(len: usize, f: &Filter) -> (r: (usize, usize))
    ensures
        r.0 as int == (if offset_of(f.deep_view()) <= len {
            offset_of(f.deep_view())
        } else {
            len as int
        }),
        r.1 as int == (if r.0 + limit_of(f.deep_view()) <= len {
            r.0 + limit_of(f.deep_view())
        } else {
            len as int
        }),
        r.0 <= r.1 <= len,
{
    let limit = match f.limit {
        Some(l) => l,
        None => DEFAULT_LIMIT,
    };
    let offset = match f.offset {
        Some(o) => o,
        None => 0,
    };
    let from = if offset <= len {
        offset
    } else {
        len
    };
    let to = if limit <= len - from {
        from + limit
    } else {
        len
    };
    (from, to)
}

/// The artists that pass the filter, one page of them, as DTOs; an error
/// response when nothing matches the filter at all.
pub fn get_artists(f: &Filter, c: &Catalog) -> (r: MagpieResponse)
    ensures
        ({
            let matched = c.deep_view().artists.filter(
                |a: ArtistV| artist_matches(a, f.deep_view()),
            );
            if matched.len() == 0 {
                r.status is Error
            } else {
                &&& r.status is Okay
                &&& r.data matches MagpieData::Artists(v) && (exists|s: Seq<ArtistV>|
                    #[trigger] s.to_multiset() == matched.to_multiset() && sorted_artists(s)
                        && v.deep_view() == page_of(
                        s,
                        offset_of(f.deep_view()),
                        limit_of(f.deep_view()),
                    ).map_values(|a: ArtistV| magpie_artist_of(a)))
                &&& r.count == Some(if f.deep_view().limit is Some {
                    f.deep_view().limit->Some_0
                } else {
                    DEFAULT_LIMIT
                })
            }
        }),
{
    let ghost cv = c.deep_view();
    let ghost pred = |a: ArtistV| artist_matches(a, f.deep_view());
    let mut rows: Vec<crate::catalog::Artist> = Vec::new();
    let n = c.artists.len();
    proof {
        reveal(Seq::filter);
    }
    for i in 0..n
        invariant
            cv == c.deep_view(),
            n == c.artists.len(),
            pred == (|a: ArtistV| artist_matches(a, f.deep_view())),
            rows.deep_view() =~~= cv.artists.take(i as int).filter(pred),
    {
        proof {
            reveal(Seq::filter);
            assert(cv.artists.take(i + 1).drop_last() =~= cv.artists.take(i as int));
        }
        let keep_name = match &f.name {
            Some(p) => crate::text::string_contains_ci(&c.artists[i].name, p),
            None => true,
        };
        let keep_title = match &f.title {
            Some(p) => crate::text::string_contains_ci(&c.artists[i].name, p),
            None => true,
        };
        if keep_name && keep_title {
            rows.push(c.artists[i].duplicate());
        }
        proof {
            assert(rows.deep_view() =~~= cv.artists.take(i + 1).filter(pred));
        }
    }
    proof {
        assert(cv.artists.take(n as int) =~= cv.artists);
    }
    let ghost matched = cv.artists.filter(pred);
    if rows.len() == 0 {
        return MagpieResponse::new().error("No Artists found");
    }
    let rows = sort_artists(rows);
    let ghost srt = rows.deep_view();
    let limit = match f.limit {
        Some(l) => l,
        None => DEFAULT_LIMIT,
    };
    let offset = match f.offset {
        Some(o) => o,
        None => 0,
    };
    let (from, to) = page_window(rows.len(), f);
    let mut out: Vec<MagpieArtist> = Vec::new();
    let ghost page = page_of(srt, offset_of(f.deep_view()), limit_of(f.deep_view()));
    for j in from..to
        invariant
            from <= j <= to <= rows.len(),
            rows.deep_view() == srt,
            page == srt.subrange(from as int, to as int),
            out@.len() == j - from,
            out.deep_view() =~~= page.map_values(|a: ArtistV| magpie_artist_of(a)).take(
                j - from,
            ),
    {
        out.push(MagpieArtist::new(&rows[j]));
        proof {
            assert(out.deep_view() =~~= page.map_values(|a: ArtistV| magpie_artist_of(a)).take(
                j + 1 - from,
            ));
        }
    }
    proof {
        assert(page.map_values(|a: ArtistV| magpie_artist_of(a)).take(to - from) =~~= page.map_values(
            |a: ArtistV| magpie_artist_of(a),
        ));
        assert(srt.to_multiset() == matched.to_multiset() && sorted_artists(srt)
            && out.deep_view() == page_of(
            srt,
            offset_of(f.deep_view()),
            limit_of(f.deep_view()),
        ).map_values(|a: ArtistV| magpie_artist_of(a)));
    }
    MagpieResponse::new().add_data(MagpieData::Artists(out)).set_pagination(limit, offset)
}

/// The albums that pass the filter, one page of them, as DTOs with their
/// artist names joined in; an error response when nothing matches.
pub fn get_albums(f: &Filter, c: &Catalog) -> (r: MagpieResponse)
    ensures
        ({
            let matched = c.deep_view().albums.filter(|a: AlbumV| album_matches(a, f.deep_view()));
            if matched.len() == 0 {
                r.status is Error
            } else {
                &&& r.status is Okay
                &&& r.data matches MagpieData::Albums(v) && (exists|s: Seq<AlbumV>|
                    #[trigger] s.to_multiset() == matched.to_multiset() && sorted_albums(s)
                        && v.deep_view() == page_of(
                        s,
                        offset_of(f.deep_view()),
                        limit_of(f.deep_view()),
                    ).map_values(|a: AlbumV| magpie_album_of(c.deep_view(), a)))
            }
        }),
{
    let ghost cv = c.deep_view();
    let ghost pred = |a: AlbumV| album_matches(a, f.deep_view());
    let mut rows: Vec<crate::catalog::Album> = Vec::new();
    let n = c.albums.len();
    proof {
        reveal(Seq::filter);
    }
    for i in 0..n
        invariant
            cv == c.deep_view(),
            n == c.albums.len(),
            pred == (|a: AlbumV| album_matches(a, f.deep_view())),
            rows.deep_view() =~~= cv.albums.take(i as int).filter(pred),
    {
        proof {
            reveal(Seq::filter);
            assert(cv.albums.take(i + 1).drop_last() =~= cv.albums.take(i as int));
        }
        let keep_title = match &f.title {
            Some(p) => crate::text::string_contains_ci(&c.albums[i].title, p),
            None => true,
        };
        let keep_year = match f.year {
            Some(y) => match c.albums[i].year {
                Some(ay) => ay == y,
                None => false,
            },
            None => true,
        };
        if keep_title && keep_year {
            rows.push(c.albums[i].duplicate());
        }
        proof {
            assert(rows.deep_view() =~~= cv.albums.take(i + 1).filter(pred));
        }
    }
    proof {
        assert(cv.albums.take(n as int) =~= cv.albums);
    }
    let ghost matched = cv.albums.filter(pred);
    if rows.len() == 0 {
        return MagpieResponse::new().error("No Albums found");
    }
    let rows = sort_albums(rows);
    let ghost srt = rows.deep_view();
    let limit = match f.limit {
        Some(l) => l,
        None => DEFAULT_LIMIT,
    };
    let offset = match f.offset {
        Some(o) => o,
        None => 0,
    };
    let (from, to) = page_window(rows.len(), f);
    let mut out: Vec<MagpieAlbum> = Vec::new();
    let ghost page = page_of(srt, offset_of(f.deep_view()), limit_of(f.deep_view()));
    for j in from..to
        invariant
            cv == c.deep_view(),
            from <= j <= to <= rows.len(),
            rows.deep_view() == srt,
            page == srt.subrange(from as int, to as int),
            out@.len() == j - from,
            out.deep_view() =~~= page.map_values(|a: AlbumV| magpie_album_of(cv, a)).take(
                j - from,
            ),
    {
        out.push(MagpieAlbum::new(&rows[j], c));
        proof {
            assert(out.deep_view() =~~= page.map_values(|a: AlbumV| magpie_album_of(cv, a)).take(
                j + 1 - from,
            ));
        }
    }
    proof {
        assert(page.map_values(|a: AlbumV| magpie_album_of(cv, a)).take(to - from) =~~= page.map_values(
            |a: AlbumV| magpie_album_of(cv, a),
        ));
        assert(srt.to_multiset() == matched.to_multiset() && sorted_albums(srt)
            && out.deep_view() == page_of(
            srt,
            offset_of(f.deep_view()),
            limit_of(f.deep_view()),
        ).map_values(|a: AlbumV| magpie_album_of(cv, a)));
    }
    MagpieResponse::new().add_data(MagpieData::Albums(out)).set_pagination(limit, offset)
}

/// The tracks that pass the filter, one page of them, as DTOs. A filter that
/// names an album is first resolved to the first album whose title contains
/// it, and fails when there is none; within the results, an empty page is an
/// error response, as for the other queries.
#[verifier::rlimit(50)]
pub fn get_tracks(f: &Filter, c: &Catalog) -> (r: Result<MagpieResponse, Error>)
    ensures
        ({
            let fv = f.deep_view();
            match r {
                Ok(resp) => {
                    let alb = match fv.album {
                        Some(p) => Some(
                            c.deep_view().albums[crate::queries::album_like_idx(
                                c.deep_view(),
                                p,
                            )].id,
                        ),
                        None => None,
                    };
                    let matched = c.deep_view().tracks.filter(
                        |t: TrackV| track_matches(t, fv, alb),
                    );
                    &&& (fv.album matches Some(p) ==> crate::queries::album_like(c.deep_view(), p))
                    &&& if matched.len() == 0 {
                        resp.status is Error
                    } else {
                        resp.status is Okay && (resp.data matches MagpieData::Tracks(v) && (exists|
                            s: Seq<TrackV>,
                        |
                            #[trigger] s.to_multiset() == matched.to_multiset()
                                && crate::queries::sorted_tracks(s) && v.deep_view() == page_of(
                                s,
                                offset_of(fv),
                                limit_of(fv),
                            ).map_values(|t: TrackV| magpie_track_of(c.deep_view(), t))))
                    }
                },
                Err(_) => fv.album matches Some(p) && !crate::queries::album_like(
                    c.deep_view(),
                    p,
                ),
            }
        }),
{
    let ghost cv = c.deep_view();
    let ghost fv = f.deep_view();
    let alb: Option<usize> = match &f.album {
        Some(p) => {
            match crate::catalog::Album::by_title(p, c) {
                Some(a) => Some(a.id),
                None => {
                    return Err(Error::msg(String::from_str("Failed to get album")));
                },
            }
        },
        None => None,
    };
    let ghost pred = |t: TrackV| track_matches(t, fv, alb);
    let mut rows: Vec<crate::catalog::Track> = Vec::new();
    let n = c.tracks.len();
    proof {
        reveal(Seq::filter);
    }
    for i in 0..n
        invariant
            cv == c.deep_view(),
            fv == f.deep_view(),
            n == c.tracks.len(),
            pred == (|t: TrackV| track_matches(t, fv, alb)),
            rows.deep_view() =~~= cv.tracks.take(i as int).filter(pred),
    {
        proof {
            reveal(Seq::filter);
            assert(cv.tracks.take(i + 1).drop_last() =~= cv.tracks.take(i as int));
        }
        let t = &c.tracks[i];
        let keep_title = match &f.title {
            Some(p) => crate::text::string_contains_ci(&t.title, p),
            None => true,
        };
        let keep_subtitle = match &f.subtitle {
            Some(p) => match &t.subtitle {
                Some(s) => crate::text::string_contains_ci(s, p),
                None => false,
            },
            None => true,
        };
        let keep_album = match alb {
            Some(id) => match t.album_id {
                Some(a) => a == id,
                None => false,
            },
            None => true,
        };
        let keep_year = match f.year {
            Some(y) => match t.year {
                Some(ty) => ty == y,
                None => false,
            },
            None => true,
        };
        let keep_bpm = match &f.bpm {
            Some(p) => match &t.bpm {
                Some(b) => *b == *p,
                None => false,
            },
            None => true,
        };
        let keep_language = match &f.language {
            Some(p) => match &t.language {
                Some(l) => *l == *p,
                None => false,
            },
            None => true,
        };
        if keep_title && keep_subtitle && keep_album && keep_year && keep_bpm && keep_language {
            rows.push(c.tracks[i].duplicate());
        }
        proof {
            assert(rows.deep_view() =~~= cv.tracks.take(i + 1).filter(pred));
        }
    }
    proof {
        assert(cv.tracks.take(n as int) =~= cv.tracks);
    }
    let ghost matched = cv.tracks.filter(pred);
    if rows.len() == 0 {
        return Ok(MagpieResponse::new().error("No Tracks found"));
    }
    let rows = crate::queries::sort_tracks(rows);
    let ghost srt = rows.deep_view();
    let limit = match f.limit {
        Some(l) => l,
        None => DEFAULT_LIMIT,
    };
    let offset = match f.offset {
        Some(o) => o,
        None => 0,
    };
    let (from, to) = page_window(rows.len(), f);
    let mut out: Vec<MagpieTrack> = Vec::new();
    let ghost page = page_of(srt, offset_of(fv), limit_of(fv));
    for j in from..to
        invariant
            cv == c.deep_view(),
            from <= j <= to <= rows.len(),
            rows.deep_view() == srt,
            page == srt.subrange(from as int, to as int),
            out@.len() == j - from,
            out.deep_view() =~~= page.map_values(|t: TrackV| magpie_track_of(cv, t)).take(
                j - from,
            ),
    {
        out.push(MagpieTrack::new(&rows[j], c));
        proof {
            assert(out.deep_view() =~~= page.map_values(|t: TrackV| magpie_track_of(cv, t)).take(
                j + 1 - from,
            ));
        }
    }
    proof {
        assert(page.map_values(|t: TrackV| magpie_track_of(cv, t)).take(to - from) =~~= page.map_values(
            |t: TrackV| magpie_track_of(cv, t),
        ));
        assert(srt.to_multiset() == matched.to_multiset() && crate::queries::sorted_tracks(srt)
            && out.deep_view() == page_of(srt, offset_of(fv), limit_of(fv)).map_values(
            |t: TrackV| magpie_track_of(cv, t),
        ));
    }
    Ok(MagpieResponse::new().add_data(MagpieData::Tracks(out)).set_pagination(limit, offset))
}

/// One artist by id, with the albums joined to it as children; an error
/// response when the id names no row.
pub fn get_artist(id: usize, c: &Catalog) -> (r: MagpieResponse)
    ensures
        ({
            let cv = c.deep_view();
            if id < cv.artists.len() {
                &&& r.status is Okay
                &&& r.data matches MagpieData::Artist(a) && a.deep_view() == magpie_artist_of(
                    cv.artists[id as int],
                )
                &&& r.children matches Some(ch) && (ch matches MagpieData::Albums(v)
                    && v.deep_view() == crate::queries::albums_of_artist(cv, id).map_values(
                    |a: AlbumV| magpie_album_of(cv, a),
                ))
            } else {
                r.status is Error
            }
        }),
{
    let ghost cv = c.deep_view();
    match crate::catalog::Artist::by_id(id, c) {
        Some(a) => {
            let dto = MagpieArtist::new(&a);
            let albums = crate::catalog::Album::by_artist_id(id, c);
            let ghost src = crate::queries::albums_of_artist(cv, id);
            let mut children: Vec<MagpieAlbum> = Vec::new();
            let m = albums.len();
            for j in 0..m
                invariant
                    cv == c.deep_view(),
                    m == albums.len(),
                    albums.deep_view() == src,
                    children@.len() == j,
                    children.deep_view() =~~= src.map_values(
                        |a: AlbumV| magpie_album_of(cv, a),
                    ).take(j as int),
            {
                children.push(MagpieAlbum::new(&albums[j], c));
                proof {
                    assert(children.deep_view() =~~= src.map_values(
                        |a: AlbumV| magpie_album_of(cv, a),
                    ).take(j + 1));
                }
            }
            proof {
                assert(src.map_values(|a: AlbumV| magpie_album_of(cv, a)).take(m as int) =~~= src.map_values(
                    |a: AlbumV| magpie_album_of(cv, a),
                ));
            }
            MagpieResponse::new().add_data(MagpieData::Artist(dto)).add_children(
                MagpieData::Albums(children),
            )
        },
        None => MagpieResponse::new().error("No Artist found"),
    }
}

/// One album by id, with its tracks as children; an error response when the
/// id names no row.
pub fn get_album(id: usize, c: &Catalog) -> (r: MagpieResponse)
    ensures
        ({
            let cv = c.deep_view();
            if id < cv.albums.len() {
                &&& r.status is Okay
                &&& r.data matches MagpieData::Album(a) && a.deep_view() == magpie_album_of(
                    cv,
                    cv.albums[id as int],
                )
                &&& r.children matches Some(ch) && (ch matches MagpieData::Tracks(v) && (exists|
                    s: Seq<TrackV>,
                |
                    #[trigger] s.to_multiset() == tracks_of_album(
                        cv,
                        cv.albums[id as int].id,
                    ).to_multiset() && crate::queries::sorted_tracks(s) && v.deep_view()
                        == s.map_values(|t: TrackV| magpie_track_of(cv, t))))
            } else {
                r.status is Error
            }
        }),
{
    let ghost cv = c.deep_view();
    match crate::catalog::Album::by_id(id, c) {
        Some(a) => {
            let dto = MagpieAlbum::new(&a, c);
            proof {
                assert(a.deep_view() == cv.albums[id as int]);
                assert(cv.albums[id as int].id == a.id);
            }
            let tracks = crate::catalog::Track::by_album_id(a.id, c);
            let ghost src = tracks.deep_view();
            let mut children: Vec<MagpieTrack> = Vec::new();
            let m = tracks.len();
            for j in 0..m
                invariant
                    cv == c.deep_view(),
                    m == tracks.len(),
                    tracks.deep_view() == src,
                    children@.len() == j,
                    children.deep_view() =~~= src.map_values(
                        |t: TrackV| magpie_track_of(cv, t),
                    ).take(j as int),
            {
                children.push(MagpieTrack::new(&tracks[j], c));
                proof {
                    assert(children.deep_view() =~~= src.map_values(
                        |t: TrackV| magpie_track_of(cv, t),
                    ).take(j + 1));
                }
            }
            proof {
                assert(src.map_values(|t: TrackV| magpie_track_of(cv, t)).take(m as int) =~~= src.map_values(
                    |t: TrackV| magpie_track_of(cv, t),
                ));
                assert(src.to_multiset() == tracks_of_album(cv, cv.albums[id as int].id).to_multiset()
                    && crate::queries::sorted_tracks(src) && children.deep_view()
                    == src.map_values(|t: TrackV| magpie_track_of(cv, t)));
            }
            MagpieResponse::new().add_data(MagpieData::Album(dto)).add_children(
                MagpieData::Tracks(children),
            )
        },
        None => MagpieResponse::new().error("No Album found"),
    }
}

/// One track by id; an error response when the id names no row.
pub fn get_track(id: usize, c: &Catalog) -> (r: MagpieResponse)
    ensures
        ({
            let cv = c.deep_view();
            if id < cv.tracks.len() {
                r.status is Okay && (r.data matches MagpieData::Track(t) && t.deep_view()
                    == magpie_track_of(cv, cv.tracks[id as int]))
            } else {
                r.status is Error
            }
        }),
{
    match crate::catalog::Track::by_id(id, c) {
        Some(t) => {
            let dto = MagpieTrack::new(&t, c);
            MagpieResponse::new().add_data(MagpieData::Track(dto))
        },
        None => MagpieResponse::new().error("No Track found"),
    }
}

} // verus!
