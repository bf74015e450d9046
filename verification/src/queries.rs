use vstd::prelude::*;

use crate::catalog::{
    artist_idx, genre_idx, has_artist, has_genre, wf, Album, AlbumV, Art, Artist, ArtistV,
    Catalog, CatalogV, Genre, GenreV, Track, TrackArtist, TrackGenre, TrackV,
};
use crate::draft::copy_opt_string;
use crate::error::Error;
use crate::text::{contains_ci, string_contains_ci};

verus! {

// ---------------------------------------------------------------------------
// Row copies.
// ---------------------------------------------------------------------------

impl Artist {
    /// Copy the row.
    pub fn duplicate(&self) -> (r: Artist)
        ensures
            r == *self,
    {
        Artist { id: self.id, name: self.name.clone(), art_id: self.art_id }
    }
}

impl Genre {
    /// Copy the row.
    pub fn duplicate(&self) -> (r: Genre)
        ensures
            r == *self,
    {
        Genre { id: self.id, name: self.name.clone() }
    }
}

impl Album {
    /// Copy the row.
    pub fn duplicate(&self) -> (r: Album)
        ensures
            r == *self,
    {
        Album { id: self.id, year: self.year, title: self.title.clone(), art_id: self.art_id }
    }
}

impl Track {
    /// Copy the row.
    pub fn duplicate(&self) -> (r: Track)
        ensures
            r.deep_view() == self.deep_view(),
            r.id == self.id,
    {
        let r = Track {
            id: self.id,
            album_id: self.album_id,
            path: self.path.clone(),
            filesize: self.filesize,
            track_number: self.track_number,
            disc_number: self.disc_number,
            disc_title: copy_opt_string(&self.disc_title),
            content_group: copy_opt_string(&self.content_group),
            title: self.title.clone(),
            subtitle: copy_opt_string(&self.subtitle),
            year: self.year,
            release_date: copy_opt_string(&self.release_date),
            bpm: copy_opt_string(&self.bpm),
            length: self.length,
            initial_key: copy_opt_string(&self.initial_key),
            language: copy_opt_string(&self.language),
            added_at: copy_opt_string(&self.added_at),
            art_id: self.art_id,
        };
        proof {
            assert(r.deep_view() =~= self.deep_view());
        }
        r
    }
}

// ---------------------------------------------------------------------------
// Lookups by id and by name.
// ---------------------------------------------------------------------------

/// Some artist's name contains `pat`, without case.
pub open spec fn artist_like(c: CatalogV, pat: Seq<char>) -> bool {
    exists|i: int| 0 <= i < c.artists.len() && contains_ci((#[trigger] c.artists[i]).name, pat)
}

/// The first artist whose name contains `pat`, without case.
pub open spec fn artist_like_idx(c: CatalogV, pat: Seq<char>) -> int {
    choose|i: int|
        0 <= i < c.artists.len() && contains_ci((#[trigger] c.artists[i]).name, pat) && (forall|
            j: int,
        |
            0 <= j < i ==> !contains_ci((#[trigger] c.artists[j]).name, pat))
}

/// Some track is titled exactly `t`.
pub open spec fn has_track_title(c: CatalogV, t: Seq<char>) -> bool {
    exists|i: int| 0 <= i < c.tracks.len() && (#[trigger] c.tracks[i]).title == t
}

/// The first track titled exactly `t`.
pub open spec fn track_title_idx(c: CatalogV, t: Seq<char>) -> int {
    choose|i: int|
        0 <= i < c.tracks.len() && (#[trigger] c.tracks[i]).title == t && (forall|j: int|
            0 <= j < i ==> (#[trigger] c.tracks[j]).title != t)
}

impl Artist {
    /// Every artist row.
    pub fn all(c: &Catalog) -> (r: Vec<Artist>)
        ensures
            r.deep_view() == c.deep_view().artists,
    {
        let mut out: Vec<Artist> = Vec::new();
        let n = c.artists.len();
        for i in 0..n
            invariant
                n == c.artists.len(),
                out@.len() == i,
                out.deep_view() =~~= c.deep_view().artists.take(i as int),
        {
            out.push(c.artists[i].duplicate());
            proof {
                assert(out.deep_view() =~~= c.deep_view().artists.take(i + 1));
            }
        }
        proof {
            assert(c.deep_view().artists.take(n as int) =~~= c.deep_view().artists);
        }
        out
    }

    /// The row with this id, which is its index in the table.
    pub fn by_id(id: usize, c: &Catalog) -> (r: Option<Artist>)
        ensures
            match r {
                Some(a) => id < c.deep_view().artists.len() && a.deep_view() == c.deep_view().artists[id as int],
                None => id >= c.deep_view().artists.len(),
            },
    {
        if id < c.artists.len() {
            Some(c.artists[id].duplicate())
        } else {
            None
        }
    }

    /// First artist whose name contains `title`, without case: the
    /// user-facing fuzzy search.
    pub fn by_title(title: &String, c: &Catalog) -> (r: Option<Artist>)
        ensures
            match r {
                Some(a) => artist_like(c.deep_view(), title@) && a.deep_view()
                    == c.deep_view().artists[artist_like_idx(c.deep_view(), title@)],
                None => !artist_like(c.deep_view(), title@),
            },
    {
        let ghost cv = c.deep_view();
        let n = c.artists.len();
        for i in 0..n
            invariant
                cv == c.deep_view(),
                n == c.artists.len(),
                forall|j: int| 0 <= j < i ==> !contains_ci((#[trigger] cv.artists[j]).name, title@),
        {
            if string_contains_ci(&c.artists[i].name, title) {
                let a = c.artists[i].duplicate();
                proof {
                    assert(contains_ci(cv.artists[i as int].name, title@));
                    let k = artist_like_idx(cv, title@);
                    assert(0 <= k < cv.artists.len() && contains_ci(cv.artists[k].name, title@)
                        && (forall|j: int|
                        0 <= j < k ==> !contains_ci((#[trigger] cv.artists[j]).name, title@)));
                    if k < i as int {
                        assert(!contains_ci(cv.artists[k].name, title@));
                    }
                    if k > i as int {
                        assert(!contains_ci(cv.artists[i as int].name, title@));
                    }
                    assert(k == i as int);
                }
                return Some(a);
            }
        }
        None
    }

    /// The artist whose name equals `title` up to ASCII case, if any.
    pub fn by_title_exact(title: &String, c: &Catalog) -> (r: Option<Artist>)
        requires
            wf(c.deep_view()),
        ensures
            match r {
                Some(a) => has_artist(c.deep_view(), title@) && a.deep_view() == c.deep_view().artists[artist_idx(
                    c.deep_view(),
                    title@,
                )],
                None => !has_artist(c.deep_view(), title@),
            },
    {
        match c.find_artist(title) {
            Some(i) => Some(c.artists[i].duplicate()),
            None => None,
        }
    }

    /// Exact lookup by name, as the resolve step uses it.
    pub fn get_by_title(title: &String, c: &Catalog) -> (r: Result<Artist, Error>)
        requires
            wf(c.deep_view()),
        ensures
            match r {
                Ok(a) => has_artist(c.deep_view(), title@) && a.deep_view() == c.deep_view().artists[artist_idx(
                    c.deep_view(),
                    title@,
                )],
                Err(_) => !has_artist(c.deep_view(), title@),
            },
    {
        match Artist::by_title_exact(title, c) {
            Some(a) => Ok(a),
            None => Err(Error::msg(String::from_str("Failed to get artist"))),
        }
    }
}

impl Genre {
    /// The row with this id, which is its index in the table.
    pub fn get_by_id(id: usize, c: &Catalog) -> (r: Option<Genre>)
        ensures
            match r {
                Some(g) => id < c.deep_view().genres.len() && g.deep_view() == c.deep_view().genres[id as int],
                None => id >= c.deep_view().genres.len(),
            },
    {
        if id < c.genres.len() {
            Some(c.genres[id].duplicate())
        } else {
            None
        }
    }

    /// The genre whose name equals `title` up to ASCII case, if any.
    pub fn get_by_title(title: &String, c: &Catalog) -> (r: Result<Genre, Error>)
        requires
            wf(c.deep_view()),
        ensures
            match r {
                Ok(g) => has_genre(c.deep_view(), title@) && g.deep_view() == c.deep_view().genres[genre_idx(
                    c.deep_view(),
                    title@,
                )],
                Err(_) => !has_genre(c.deep_view(), title@),
            },
    {
        match c.find_genre(title) {
            Some(i) => Ok(c.genres[i].duplicate()),
            None => Err(Error::msg(String::from_str("Failed to get genre"))),
        }
    }
}

impl Art {
    /// The row with this id, which is its index in the table.
    pub fn get_by_id(id: usize, c: &Catalog) -> (r: Option<Art>)
        ensures
            match r {
                Some(a) => id < c.deep_view().art.len() && a.deep_view() == c.deep_view().art[id as int],
                None => id >= c.deep_view().art.len(),
            },
    {
        if id < c.art.len() {
            let row = &c.art[id];
            let copy = Art { id: row.id, hash: row.hash, data: crate::catalog::clone_bytes(&row.data) };
            proof {
                assert(copy.deep_view() =~= c.deep_view().art[id as int]);
            }
            Some(copy)
        } else {
            None
        }
    }
}

/// Some album's title contains `pat`, without case.
pub open spec fn album_like(c: CatalogV, pat: Seq<char>) -> bool {
    exists|i: int| 0 <= i < c.albums.len() && contains_ci((#[trigger] c.albums[i]).title, pat)
}

/// The first album whose title contains `pat`, without case.
pub open spec fn album_like_idx(c: CatalogV, pat: Seq<char>) -> int {
    choose|i: int|
        0 <= i < c.albums.len() && contains_ci((#[trigger] c.albums[i]).title, pat) && (forall|
            j: int,
        |
            0 <= j < i ==> !contains_ci((#[trigger] c.albums[j]).title, pat))
}

/// The albums joined to one artist, in table order.
pub open spec fn albums_of_artist(c: CatalogV, id: usize) -> Seq<AlbumV> {
    c.albums.filter(
        |a: AlbumV|
            c.album_artists.contains(crate::catalog::AlbumArtist { album_id: a.id, artist_id: id }),
    )
}

impl Album {
    /// Every album row.
    pub fn all(c: &Catalog) -> (r: Vec<Album>)
        ensures
            r.deep_view() == c.deep_view().albums,
    {
        let mut out: Vec<Album> = Vec::new();
        let n = c.albums.len();
        for i in 0..n
            invariant
                n == c.albums.len(),
                out@.len() == i,
                out.deep_view() =~~= c.deep_view().albums.take(i as int),
        {
            out.push(c.albums[i].duplicate());
            proof {
                assert(out.deep_view() =~~= c.deep_view().albums.take(i + 1));
            }
        }
        proof {
            assert(c.deep_view().albums.take(n as int) =~~= c.deep_view().albums);
        }
        out
    }

    /// The row with this id, which is its index in the table.
    pub fn by_id(id: usize, c: &Catalog) -> (r: Option<Album>)
        ensures
            match r {
                Some(a) => id < c.deep_view().albums.len() && a.deep_view() == c.deep_view().albums[id as int],
                None => id >= c.deep_view().albums.len(),
            },
    {
        if id < c.albums.len() {
            Some(c.albums[id].duplicate())
        } else {
            None
        }
    }

    /// First album whose title contains `title`, without case: the
    /// user-facing fuzzy search.
    pub fn by_title(title: &String, c: &Catalog) -> (r: Option<Album>)
        ensures
            match r {
                Some(a) => album_like(c.deep_view(), title@) && a.deep_view()
                    == c.deep_view().albums[album_like_idx(c.deep_view(), title@)],
                None => !album_like(c.deep_view(), title@),
            },
    {
        let ghost cv = c.deep_view();
        let n = c.albums.len();
        for i in 0..n
            invariant
                cv == c.deep_view(),
                n == c.albums.len(),
                forall|j: int| 0 <= j < i ==> !contains_ci((#[trigger] cv.albums[j]).title, title@),
        {
            if string_contains_ci(&c.albums[i].title, title) {
                let a = c.albums[i].duplicate();
                proof {
                    assert(contains_ci(cv.albums[i as int].title, title@));
                    let k = album_like_idx(cv, title@);
                    assert(0 <= k < cv.albums.len() && contains_ci(cv.albums[k].title, title@)
                        && (forall|j: int|
                        0 <= j < k ==> !contains_ci((#[trigger] cv.albums[j]).title, title@)));
                    if k < i as int {
                        assert(!contains_ci(cv.albums[k].title, title@));
                    }
                    if k > i as int {
                        assert(!contains_ci(cv.albums[i as int].title, title@));
                    }
                    assert(k == i as int);
                }
                return Some(a);
            }
        }
        None
    }
}

// ---------------------------------------------------------------------------
// Track queries, including the association joins.
// ---------------------------------------------------------------------------

impl Catalog {
    /// Whether this track–artist pair is on file.
    pub fn has_track_artist(&self, track_id: usize, artist_id: usize) -> (r: bool)
        ensures
            r == self.deep_view().track_artists.contains(TrackArtist { track_id, artist_id }),
    {
        let ghost cv = self.deep_view();
        let p = TrackArtist { track_id, artist_id };
        let n = self.track_artists.len();
        for k in 0..n
            invariant
                cv == self.deep_view(),
                n == self.track_artists.len(),
                p == (TrackArtist { track_id, artist_id }),
                forall|l: int| 0 <= l < k ==> (#[trigger] cv.track_artists[l]) != p,
        {
            if self.track_artists[k].track_id == track_id && self.track_artists[k].artist_id
                == artist_id {
                assert(cv.track_artists[k as int] == p);
                return true;
            }
        }
        false
    }

    /// Whether this track–genre pair is on file.
    pub fn has_track_genre(&self, track_id: usize, genre_id: usize) -> (r: bool)
        ensures
            r == self.deep_view().track_genres.contains(TrackGenre { track_id, genre_id }),
    {
        let ghost cv = self.deep_view();
        let p = TrackGenre { track_id, genre_id };
        let n = self.track_genres.len();
        for k in 0..n
            invariant
                cv == self.deep_view(),
                n == self.track_genres.len(),
                p == (TrackGenre { track_id, genre_id }),
                forall|l: int| 0 <= l < k ==> (#[trigger] cv.track_genres[l]) != p,
        {
            if self.track_genres[k].track_id == track_id && self.track_genres[k].genre_id
                == genre_id {
                assert(cv.track_genres[k as int] == p);
                return true;
            }
        }
        false
    }
}

/// The album listing order: disc number first, then track number, ties
/// broken by id — so for a catalog with distinct ids exactly one sorted
/// arrangement exists.
pub open spec fn track_le(a: TrackV, b: TrackV) -> bool {
    ||| a.disc_number < b.disc_number
    ||| (a.disc_number == b.disc_number && a.track_number < b.track_number)
    ||| (a.disc_number == b.disc_number && a.track_number == b.track_number && a.id <= b.id)
}

/// Ascending by disc number, then track number.
pub open spec fn sorted_tracks(s: Seq<TrackV>) -> bool {
    forall|i: int, j: int| 0 <= i < j < s.len() ==> track_le(#[trigger] s[i], #[trigger] s[j])
}

/// Whether `a` sorts no later than `b` in an album listing.
fn track_le_exec(a: &Track, b: &Track) -> (r: bool)
    ensures
        r == track_le(a.deep_view(), b.deep_view()),
{
    a.disc_number < b.disc_number || (a.disc_number == b.disc_number && (a.track_number
        < b.track_number || (a.track_number == b.track_number && a.id <= b.id)))
}

/// Selection sort of track rows into album order.
pub(crate) fn sort_tracks(v: Vec<Track>) -> (r: Vec<Track>)
    ensures
        r.deep_view().to_multiset() == v.deep_view().to_multiset(),
        sorted_tracks(r.deep_view()),
{
    broadcast use vstd::seq_lib::group_to_multiset_ensures;

    let ghost orig = v.deep_view();
    let mut src = v;
    let mut out: Vec<Track> = Vec::new();
    while src.len() > 0
        invariant
            out.deep_view().to_multiset().add(src.deep_view().to_multiset())
                =~= orig.to_multiset(),
            sorted_tracks(out.deep_view()),
            forall|i: int, j: int|
                0 <= i < out.deep_view().len() && 0 <= j < src.deep_view().len() ==> track_le(
                    #[trigger] out.deep_view()[i],
                    #[trigger] src.deep_view()[j],
                ),
        decreases src.len(),
    {
        let ghost s0 = src.deep_view();
        let ghost o0 = out.deep_view();
        let n = src.len();
        let mut m: usize = 0;
        for k in 1..n
            invariant
                n == src.len(),
                s0 == src.deep_view(),
                m < n,
                forall|j: int| 0 <= j < k ==> track_le(s0[m as int], #[trigger] s0[j]),
        {
            if !track_le_exec(&src[m], &src[k]) {
                m = k;
            }
        }
        let t = src.remove(m);
        out.push(t);
        proof {
            broadcast use vstd::seq_lib::group_to_multiset_ensures;
            broadcast use vstd::multiset::group_multiset_axioms;

            let x = s0[m as int];
            assert(src.deep_view() =~~= s0.remove(m as int));
            assert(out.deep_view() =~~= o0.push(x));
            assert(s0.contains(x));
            assert(s0.to_multiset().count(x) > 0);
            assert(o0.push(x).to_multiset() =~= o0.to_multiset().insert(x));
            assert(s0.remove(m as int).to_multiset() == s0.to_multiset().remove(x));
            assert(out.deep_view().to_multiset().add(src.deep_view().to_multiset()) =~= o0.to_multiset().add(
                s0.to_multiset(),
            ));
        }
    }
    out
}

/// The tracks of one album, in table order.
pub open spec fn tracks_of_album(c: CatalogV, id: usize) -> Seq<TrackV> {
    c.tracks.filter(|t: TrackV| t.album_id == Some(id))
}

/// The tracks joined to one artist, in table order.
pub open spec fn tracks_of_artist(c: CatalogV, id: usize) -> Seq<TrackV> {
    c.tracks.filter(
        |t: TrackV| c.track_artists.contains(TrackArtist { track_id: t.id, artist_id: id }),
    )
}

/// The tracks joined to one genre, in table order.
pub open spec fn tracks_of_genre(c: CatalogV, id: usize) -> Seq<TrackV> {
    c.tracks.filter(
        |t: TrackV| c.track_genres.contains(TrackGenre { track_id: t.id, genre_id: id }),
    )
}

impl Track {
    /// Every track row.
    pub fn all(c: &Catalog) -> (r: Vec<Track>)
        ensures
            r.deep_view() == c.deep_view().tracks,
    {
        let mut out: Vec<Track> = Vec::new();
        let n = c.tracks.len();
        for i in 0..n
            invariant
                n == c.tracks.len(),
                out@.len() == i,
                out.deep_view() =~~= c.deep_view().tracks.take(i as int),
        {
            out.push(c.tracks[i].duplicate());
            proof {
                assert(out.deep_view() =~~= c.deep_view().tracks.take(i + 1));
            }
        }
        proof {
            assert(c.deep_view().tracks.take(n as int) =~~= c.deep_view().tracks);
        }
        out
    }

    /// Every track row.
    pub fn get_all(c: &Catalog) -> (r: Vec<Track>)
        ensures
            r.deep_view() == c.deep_view().tracks,
    {
        Track::all(c)
    }

    /// The row with this id, which is its index in the table.
    pub fn by_id(id: usize, c: &Catalog) -> (r: Option<Track>)
        ensures
            match r {
                Some(t) => id < c.deep_view().tracks.len() && t.deep_view() == c.deep_view().tracks[id as int],
                None => id >= c.deep_view().tracks.len(),
            },
    {
        if id < c.tracks.len() {
            Some(c.tracks[id].duplicate())
        } else {
            None
        }
    }

    /// The row with this id, which is its index in the table.
    pub fn get_by_id(id: usize, c: &Catalog) -> (r: Option<Track>)
        ensures
            match r {
                Some(t) => id < c.deep_view().tracks.len() && t.deep_view() == c.deep_view().tracks[id as int],
                None => id >= c.deep_view().tracks.len(),
            },
    {
        Track::by_id(id, c)
    }

    /// First track titled exactly `title`, if any.
    pub fn get_one_by_title(title: &String, c: &Catalog) -> (r: Option<Track>)
        ensures
            match r {
                Some(t) => has_track_title(c.deep_view(), title@) && t.deep_view()
                    == c.deep_view().tracks[track_title_idx(c.deep_view(), title@)],
                None => !has_track_title(c.deep_view(), title@),
            },
    {
        let ghost cv = c.deep_view();
        let n = c.tracks.len();
        for i in 0..n
            invariant
                cv == c.deep_view(),
                n == c.tracks.len(),
                forall|j: int| 0 <= j < i ==> (#[trigger] cv.tracks[j]).title != title@,
        {
            if c.tracks[i].title == *title {
                let t = c.tracks[i].duplicate();
                proof {
                    assert(cv.tracks[i as int].title == title@);
                    let k = track_title_idx(cv, title@);
                    assert(0 <= k < cv.tracks.len() && cv.tracks[k].title == title@ && (forall|
                        j: int,
                    |
                        0 <= j < k ==> (#[trigger] cv.tracks[j]).title != title@));
                    if k < i as int {
                        assert(cv.tracks[k].title != title@);
                    }
                    if k > i as int {
                        assert(cv.tracks[i as int].title != title@);
                    }
                    assert(k == i as int);
                }
                return Some(t);
            }
        }
        None
    }

    /// Every track titled exactly `title`, in table order.
    pub fn get_by_title(title: &String, c: &Catalog) -> (r: Vec<Track>)
        ensures
            r.deep_view() == c.deep_view().tracks.filter(|t: TrackV| t.title == title@),
    {
        let ghost cv = c.deep_view();
        let ghost pred = |t: TrackV| t.title == title@;
        let mut out: Vec<Track> = Vec::new();
        let n = c.tracks.len();
        proof {
            reveal(Seq::filter);
        }
        for i in 0..n
            invariant
                cv == c.deep_view(),
                n == c.tracks.len(),
                pred == (|t: TrackV| t.title == title@),
                out.deep_view() =~~= cv.tracks.take(i as int).filter(pred),
        {
            proof {
                reveal(Seq::filter);
                assert(cv.tracks.take(i + 1).drop_last() =~= cv.tracks.take(i as int));
            }
            if c.tracks[i].title == *title {
                out.push(c.tracks[i].duplicate());
            }
            proof {
                assert(out.deep_view() =~~= cv.tracks.take(i + 1).filter(pred));
            }
        }
        proof {
            assert(cv.tracks.take(n as int) =~= cv.tracks);
        }
        out
    }

    /// The tracks of one album, ascending by disc number, then track number.
    pub fn by_album_id(id: usize, c: &Catalog) -> (r: Vec<Track>)
        ensures
            r.deep_view().to_multiset() == tracks_of_album(c.deep_view(), id).to_multiset(),
            sorted_tracks(r.deep_view()),
    {
        let ghost cv = c.deep_view();
        let ghost pred = |t: TrackV| t.album_id == Some(id);
        let mut out: Vec<Track> = Vec::new();
        let n = c.tracks.len();
        proof {
            reveal(Seq::filter);
        }
        for i in 0..n
            invariant
                cv == c.deep_view(),
                n == c.tracks.len(),
                pred == (|t: TrackV| t.album_id == Some(id)),
                out.deep_view() =~~= cv.tracks.take(i as int).filter(pred),
        {
            proof {
                reveal(Seq::filter);
                assert(cv.tracks.take(i + 1).drop_last() =~= cv.tracks.take(i as int));
            }
            let keep = match c.tracks[i].album_id {
                Some(a) => a == id,
                None => false,
            };
            if keep {
                out.push(c.tracks[i].duplicate());
            }
            proof {
                assert(out.deep_view() =~~= cv.tracks.take(i + 1).filter(pred));
            }
        }
        proof {
            assert(cv.tracks.take(n as int) =~= cv.tracks);
        }
        sort_tracks(out)
    }

    /// The tracks of one album, ascending by disc number, then track number.
    pub fn get_by_album_id(id: usize, c: &Catalog) -> (r: Vec<Track>)
        ensures
            r.deep_view().to_multiset() == tracks_of_album(c.deep_view(), id).to_multiset(),
            sorted_tracks(r.deep_view()),
    {
        Track::by_album_id(id, c)
    }

    /// The tracks joined to one artist, in table order.
    pub fn by_artist_id(id: usize, c: &Catalog) -> (r: Vec<Track>)
        ensures
            r.deep_view() == tracks_of_artist(c.deep_view(), id),
    {
        let ghost cv = c.deep_view();
        let ghost pred = |t: TrackV|
            cv.track_artists.contains(TrackArtist { track_id: t.id, artist_id: id });
        let mut out: Vec<Track> = Vec::new();
        let n = c.tracks.len();
        proof {
            reveal(Seq::filter);
        }
        for i in 0..n
            invariant
                cv == c.deep_view(),
                n == c.tracks.len(),
                pred == (|t: TrackV|
                    cv.track_artists.contains(TrackArtist { track_id: t.id, artist_id: id })),
                out.deep_view() =~~= cv.tracks.take(i as int).filter(pred),
        {
            proof {
                reveal(Seq::filter);
                assert(cv.tracks.take(i + 1).drop_last() =~= cv.tracks.take(i as int));
            }
            if c.has_track_artist(c.tracks[i].id, id) {
                out.push(c.tracks[i].duplicate());
            }
            proof {
                assert(out.deep_view() =~~= cv.tracks.take(i + 1).filter(pred));
            }
        }
        proof {
            assert(cv.tracks.take(n as int) =~= cv.tracks);
        }
        out
    }

    /// The tracks joined to one artist, in table order.
    pub fn get_by_artist_id(id: usize, c: &Catalog) -> (r: Vec<Track>)
        ensures
            r.deep_view() == tracks_of_artist(c.deep_view(), id),
    {
        Track::by_artist_id(id, c)
    }

    /// The tracks joined to one genre, in table order.
    pub fn by_genre_id(id: usize, c: &Catalog) -> (r: Vec<Track>)
        ensures
            r.deep_view() == tracks_of_genre(c.deep_view(), id),
    {
        let ghost cv = c.deep_view();
        let ghost pred = |t: TrackV|
            cv.track_genres.contains(TrackGenre { track_id: t.id, genre_id: id });
        let mut out: Vec<Track> = Vec::new();
        let n = c.tracks.len();
        proof {
            reveal(Seq::filter);
        }
        for i in 0..n
            invariant
                cv == c.deep_view(),
                n == c.tracks.len(),
                pred == (|t: TrackV|
                    cv.track_genres.contains(TrackGenre { track_id: t.id, genre_id: id })),
                out.deep_view() =~~= cv.tracks.take(i as int).filter(pred),
        {
            proof {
                reveal(Seq::filter);
                assert(cv.tracks.take(i + 1).drop_last() =~= cv.tracks.take(i as int));
            }
            if c.has_track_genre(c.tracks[i].id, id) {
                out.push(c.tracks[i].duplicate());
            }
            proof {
                assert(out.deep_view() =~~= cv.tracks.take(i + 1).filter(pred));
            }
        }
        proof {
            assert(cv.tracks.take(n as int) =~= cv.tracks);
        }
        out
    }

    /// The tracks joined to one genre, in table order.
    pub fn get_by_genre_id(id: usize, c: &Catalog) -> (r: Vec<Track>)
        ensures
            r.deep_view() == tracks_of_genre(c.deep_view(), id),
    {
        Track::by_genre_id(id, c)
    }

    /// The tracks of the first album whose title contains `title`.
    pub fn by_album_title(title: &String, c: &Catalog) -> (r: Result<Vec<Track>, Error>)
        ensures
            match r {
                Ok(ts) => album_like(c.deep_view(), title@) && ts.deep_view().to_multiset()
                    == tracks_of_album(
                    c.deep_view(),
                    c.deep_view().albums[album_like_idx(c.deep_view(), title@)].id,
                ).to_multiset() && sorted_tracks(ts.deep_view()),
                Err(_) => !album_like(c.deep_view(), title@),
            },
    {
        match Album::by_title(title, c) {
            Some(a) => Ok(Track::by_album_id(a.id, c)),
            None => Err(Error::msg(String::from_str("Failed to get album"))),
        }
    }

    /// The tracks of the first album whose title contains `title`.
    pub fn get_by_album_title(title: &String, c: &Catalog) -> (r: Result<Vec<Track>, Error>)
        ensures
            match r {
                Ok(ts) => album_like(c.deep_view(), title@) && ts.deep_view().to_multiset()
                    == tracks_of_album(
                    c.deep_view(),
                    c.deep_view().albums[album_like_idx(c.deep_view(), title@)].id,
                ).to_multiset() && sorted_tracks(ts.deep_view()),
                Err(_) => !album_like(c.deep_view(), title@),
            },
    {
        Track::by_album_title(title, c)
    }

    /// The tracks of the artist with exactly this name.
    pub fn get_by_artist_title(title: &String, c: &Catalog) -> (r: Result<Vec<Track>, Error>)
        requires
            wf(c.deep_view()),
        ensures
            match r {
                Ok(ts) => has_artist(c.deep_view(), title@) && ts.deep_view() == tracks_of_artist(
                    c.deep_view(),
                    c.deep_view().artists[artist_idx(c.deep_view(), title@)].id,
                ),
                Err(_) => !has_artist(c.deep_view(), title@),
            },
    {
        match Artist::by_title_exact(title, c) {
            Some(a) => Ok(Track::by_artist_id(a.id, c)),
            None => Err(Error::msg(String::from_str("Failed to get artist"))),
        }
    }

    /// The tracks of the genre with exactly this name.
    pub fn get_by_genre_title(title: &String, c: &Catalog) -> (r: Result<Vec<Track>, Error>)
        requires
            wf(c.deep_view()),
        ensures
            match r {
                Ok(ts) => has_genre(c.deep_view(), title@) && ts.deep_view() == tracks_of_genre(
                    c.deep_view(),
                    c.deep_view().genres[genre_idx(c.deep_view(), title@)].id,
                ),
                Err(_) => !has_genre(c.deep_view(), title@),
            },
    {
        match Genre::get_by_title(title, c) {
            Ok(g) => Ok(Track::by_genre_id(g.id, c)),
            Err(e) => Err(e),
        }
    }

    /// The tracks of the genre with exactly this name.
    pub fn by_genre_title(title: &String, c: &Catalog) -> (r: Result<Vec<Track>, Error>)
        requires
            wf(c.deep_view()),
        ensures
            match r {
                Ok(ts) => has_genre(c.deep_view(), title@) && ts.deep_view() == tracks_of_genre(
                    c.deep_view(),
                    c.deep_view().genres[genre_idx(c.deep_view(), title@)].id,
                ),
                Err(_) => !has_genre(c.deep_view(), title@),
            },
    {
        Track::get_by_genre_title(title, c)
    }

    /// This track's album row, if it references one.
    pub fn album(&self, c: &Catalog) -> (r: Option<Album>)
        ensures
            match r {
                Some(a) => self.album_id matches Some(id) && (id as int) < c.deep_view().albums.len()
                    && a.deep_view() == c.deep_view().albums[self.album_id->Some_0 as int],
                None => self.album_id matches Some(id) ==> id as int >= c.deep_view().albums.len(),
            },
    {
        match self.album_id {
            Some(id) => Album::by_id(id, c),
            None => None,
        }
    }

    /// The artists joined to this track, in table order.
    pub fn artist(&self, c: &Catalog) -> (r: Vec<Artist>)
        ensures
            r.deep_view() == c.deep_view().artists.filter(
                |a: ArtistV|
                    c.deep_view().track_artists.contains(
                        TrackArtist { track_id: self.id, artist_id: a.id },
                    ),
            ),
    {
        let ghost cv = c.deep_view();
        let ghost pred = |a: ArtistV|
            cv.track_artists.contains(TrackArtist { track_id: self.id, artist_id: a.id });
        let mut out: Vec<Artist> = Vec::new();
        let n = c.artists.len();
        proof {
            reveal(Seq::filter);
        }
        for i in 0..n
            invariant
                cv == c.deep_view(),
                n == c.artists.len(),
                pred == (|a: ArtistV|
                    cv.track_artists.contains(TrackArtist { track_id: self.id, artist_id: a.id })),
                out.deep_view() =~~= cv.artists.take(i as int).filter(pred),
        {
            proof {
                reveal(Seq::filter);
                assert(cv.artists.take(i + 1).drop_last() =~= cv.artists.take(i as int));
            }
            if c.has_track_artist(self.id, c.artists[i].id) {
                out.push(c.artists[i].duplicate());
            }
            proof {
                assert(out.deep_view() =~~= cv.artists.take(i + 1).filter(pred));
            }
        }
        proof {
            assert(cv.artists.take(n as int) =~= cv.artists);
        }
        out
    }
}

impl Album {
    /// The artists joined to this album, in table order.
    pub fn artist(&self, c: &Catalog) -> (r: Vec<Artist>)
        ensures
            r.deep_view() == c.deep_view().artists.filter(
                |a: ArtistV|
                    c.deep_view().album_artists.contains(
                        crate::catalog::AlbumArtist { album_id: self.id, artist_id: a.id },
                    ),
            ),
    {
        let ghost cv = c.deep_view();
        let ghost pred = |a: ArtistV|
            cv.album_artists.contains(
                crate::catalog::AlbumArtist { album_id: self.id, artist_id: a.id },
            );
        let mut out: Vec<Artist> = Vec::new();
        let n = c.artists.len();
        proof {
            reveal(Seq::filter);
        }
        for i in 0..n
            invariant
                cv == c.deep_view(),
                n == c.artists.len(),
                pred == (|a: ArtistV|
                    cv.album_artists.contains(
                        crate::catalog::AlbumArtist { album_id: self.id, artist_id: a.id },
                    )),
                out.deep_view() =~~= cv.artists.take(i as int).filter(pred),
        {
            proof {
                reveal(Seq::filter);
                assert(cv.artists.take(i + 1).drop_last() =~= cv.artists.take(i as int));
            }
            if c.has_album_artist(self.id, c.artists[i].id) {
                out.push(c.artists[i].duplicate());
            }
            proof {
                assert(out.deep_view() =~~= cv.artists.take(i + 1).filter(pred));
            }
        }
        proof {
            assert(cv.artists.take(n as int) =~= cv.artists);
        }
        out
    }

    /// The tracks of this album, ascending by disc number, then track number.
    pub fn tracks(&self, c: &Catalog) -> (r: Vec<Track>)
        ensures
            r.deep_view().to_multiset() == tracks_of_album(c.deep_view(), self.id).to_multiset(),
            sorted_tracks(r.deep_view()),
    {
        Track::by_album_id(self.id, c)
    }
}

impl Album {
    /// The albums joined to one artist, in table order.
    pub fn by_artist_id(id: usize, c: &Catalog) -> (r: Vec<Album>)
        ensures
            r.deep_view() == albums_of_artist(c.deep_view(), id),
    {
        let ghost cv = c.deep_view();
        let ghost pred = |a: AlbumV|
            cv.album_artists.contains(crate::catalog::AlbumArtist { album_id: a.id, artist_id: id });
        let mut out: Vec<Album> = Vec::new();
        let n = c.albums.len();
        proof {
            reveal(Seq::filter);
        }
        for i in 0..n
            invariant
                cv == c.deep_view(),
                n == c.albums.len(),
                pred == (|a: AlbumV|
                    cv.album_artists.contains(
                        crate::catalog::AlbumArtist { album_id: a.id, artist_id: id },
                    )),
                out.deep_view() =~~= cv.albums.take(i as int).filter(pred),
        {
            proof {
                reveal(Seq::filter);
                assert(cv.albums.take(i + 1).drop_last() =~= cv.albums.take(i as int));
            }
            if c.has_album_artist(c.albums[i].id, id) {
                out.push(c.albums[i].duplicate());
            }
            proof {
                assert(out.deep_view() =~~= cv.albums.take(i + 1).filter(pred));
            }
        }
        proof {
            assert(cv.albums.take(n as int) =~= cv.albums);
        }
        out
    }
}

impl Catalog {
    /// Whether this album–artist pair is on file.
    pub fn has_album_artist(&self, album_id: usize, artist_id: usize) -> (r: bool)
        ensures
            r == self.deep_view().album_artists.contains(
                crate::catalog::AlbumArtist { album_id, artist_id },
            ),
    {
        let ghost cv = self.deep_view();
        let p = crate::catalog::AlbumArtist { album_id, artist_id };
        let n = self.album_artists.len();
        for k in 0..n
            invariant
                cv == self.deep_view(),
                n == self.album_artists.len(),
                p == (crate::catalog::AlbumArtist { album_id, artist_id }),
                forall|l: int| 0 <= l < k ==> (#[trigger] cv.album_artists[l]) != p,
        {
            if self.album_artists[k].album_id == album_id && self.album_artists[k].artist_id
                == artist_id {
                assert(cv.album_artists[k as int] == p);
                return true;
            }
        }
        false
    }
}

} // verus!
