use vstd::prelude::*;

use crate::catalog::{Artist, ArtistV, Catalog, Track, TrackV};

verus! {

/// What kind of entity a metadata container describes.
#[derive(PartialEq, Eq, Structural, Clone, Copy, Debug)]
pub enum ContentType {
    Artist,
    Album,
    Track,
}

// ---------------------------------------------------------------------------
// A name-to-id map with unique keys, as the response containers carry.
// ---------------------------------------------------------------------------

/// A name-to-id map; inserting an existing key overwrites its id in place.
#[derive(PartialEq, Eq, Debug)]
pub struct IdMap {
    pub entries: Vec<(String, usize)>,
}

/// Some entry carries this key.
pub open spec fn idmap_has(m: Seq<(Seq<char>, usize)>, k: Seq<char>) -> bool {
    exists|i: int| 0 <= i < m.len() && (#[trigger] m[i]).0 == k
}

/// The entry carrying this key.
pub open spec fn idmap_idx(m: Seq<(Seq<char>, usize)>, k: Seq<char>) -> int {
    choose|i: int| 0 <= i < m.len() && (#[trigger] m[i]).0 == k
}

/// Keys are unique.
pub open spec fn idmap_wf(m: Seq<(Seq<char>, usize)>) -> bool {
    forall|i: int, j: int| 0 <= i < j < m.len() ==> (#[trigger] m[i]).0 != (#[trigger] m[j]).0
}

/// Insert with overwrite: an existing key keeps its place, a new key goes
/// to the end.
pub open spec fn idmap_insert(m: Seq<(Seq<char>, usize)>, k: Seq<char>, v: usize) -> Seq<
    (Seq<char>, usize),
> {
    if idmap_has(m, k) {
        m.update(idmap_idx(m, k), (k, v))
    } else {
        m.push((k, v))
    }
}

/// The map a list of pairs folds into, in order.
pub open spec fn idmap_of_pairs(v: Seq<(Seq<char>, usize)>) -> Seq<(Seq<char>, usize)>
    decreases v.len(),
{
    if v.len() == 0 {
        Seq::empty()
    } else {
        idmap_insert(idmap_of_pairs(v.drop_last()), v.last().0, v.last().1)
    }
}

/// The map the artist rows fold into, name to id, in order.
pub open spec fn idmap_of_artists(v: Seq<ArtistV>) -> Seq<(Seq<char>, usize)>
    decreases v.len(),
{
    if v.len() == 0 {
        Seq::empty()
    } else {
        idmap_insert(idmap_of_artists(v.drop_last()), v.last().name, v.last().id)
    }
}

/// The map the track rows fold into, title to id, in order.
pub open spec fn idmap_of_tracks(v: Seq<TrackV>) -> Seq<(Seq<char>, usize)>
    decreases v.len(),
{
    if v.len() == 0 {
        Seq::empty()
    } else {
        idmap_insert(idmap_of_tracks(v.drop_last()), v.last().title, v.last().id)
    }
}

impl IdMap {
    /// The empty map.
    pub fn empty() -> (r: IdMap)
        ensures
            r.entries@.len() == 0,
            idmap_wf(r.entries.deep_view()),
    {
        IdMap { entries: Vec::new() }
    }

    /// Insert a name-to-id pair, overwriting an existing key in place.
    pub fn insert(&mut self, name: &String, id: usize)
        requires
            idmap_wf(old(self).entries.deep_view()),
        ensures
            final(self).entries.deep_view() == idmap_insert(
                old(self).entries.deep_view(),
                name@,
                id,
            ),
            idmap_wf(final(self).entries.deep_view()),
    {
        let ghost m = self.entries.deep_view();
        let n = self.entries.len();
        for i in 0..n
            invariant
                m == self.entries.deep_view(),
                m == old(self).entries.deep_view(),
                idmap_wf(m),
                n == self.entries.len(),
                forall|j: int| 0 <= j < i ==> (#[trigger] m[j]).0 != name@,
        {
            if self.entries[i].0 == *name {
                proof {
                    assert(m[i as int].0 == name@);
                    let k = idmap_idx(m, name@);
                    assert(0 <= k < m.len() && m[k].0 == name@);
                    if k != i as int {
                        assert(false);
                    }
                }
                vstd::pervasive::VecAdditionalExecFns::set(
                    &mut self.entries,
                    i,
                    (name.clone(), id),
                );
                proof {
                    assert(self.entries.deep_view() =~~= idmap_insert(m, name@, id));
                }
                return ;
            }
        }
        self.entries.push((name.clone(), id));
        proof {
            assert(self.entries.deep_view() =~~= idmap_insert(m, name@, id));
        }
    }

    /// Build a map from given pairs, later pairs overwriting earlier keys;
    /// never fails.
    pub fn new(map: Vec<(String, usize)>) -> (r: Option<IdMap>)
        ensures
            r matches Some(m) && m.entries.deep_view() == idmap_of_pairs(map.deep_view())
                && idmap_wf(m.entries.deep_view()),
    {
        let ghost vv = map.deep_view();
        let mut out = IdMap::empty();
        let n = map.len();
        for i in 0..n
            invariant
                vv == map.deep_view(),
                n == map.len(),
                idmap_wf(out.entries.deep_view()),
                out.entries.deep_view() == idmap_of_pairs(vv.take(i as int)),
        {
            out.insert(&map[i].0, map[i].1);
            proof {
                assert(vv.take(i + 1).drop_last() =~= vv.take(i as int));
                assert(vv.take(i + 1).last() == vv[i as int]);
            }
        }
        proof {
            assert(vv.take(n as int) =~= vv);
        }
        Some(out)
    }

    /// Fold artist rows into a name-to-id map.
    pub fn from_artists(v: &Vec<Artist>) -> (r: Option<IdMap>)
        ensures
            r matches Some(m) && m.entries.deep_view() == idmap_of_artists(v.deep_view())
                && idmap_wf(m.entries.deep_view()),
    {
        let ghost vv = v.deep_view();
        let mut out = IdMap::empty();
        let n = v.len();
        for i in 0..n
            invariant
                vv == v.deep_view(),
                n == v.len(),
                idmap_wf(out.entries.deep_view()),
                out.entries.deep_view() == idmap_of_artists(vv.take(i as int)),
        {
            out.insert(&v[i].name, v[i].id);
            proof {
                assert(vv.take(i + 1).drop_last() =~= vv.take(i as int));
                assert(vv.take(i + 1).last() == vv[i as int]);
            }
        }
        proof {
            assert(vv.take(n as int) =~= vv);
        }
        Some(out)
    }

    /// Fold track rows into a title-to-id map.
    pub fn from_tracks(v: &Vec<Track>) -> (r: Option<IdMap>)
        ensures
            r matches Some(m) && m.entries.deep_view() == idmap_of_tracks(v.deep_view())
                && idmap_wf(m.entries.deep_view()),
    {
        let ghost vv = v.deep_view();
        let mut out = IdMap::empty();
        let n = v.len();
        for i in 0..n
            invariant
                vv == v.deep_view(),
                n == v.len(),
                idmap_wf(out.entries.deep_view()),
                out.entries.deep_view() == idmap_of_tracks(vv.take(i as int)),
        {
            out.insert(&v[i].title, v[i].id);
            proof {
                assert(vv.take(i + 1).drop_last() =~= vv.take(i as int));
                assert(vv.take(i + 1).last() == vv[i as int]);
            }
        }
        proof {
            assert(vv.take(n as int) =~= vv);
        }
        Some(out)
    }
}

// ---------------------------------------------------------------------------
// The response containers.
// ---------------------------------------------------------------------------

/// A track's place within its album.
#[derive(PartialEq, Eq, Structural, Clone, Copy, Debug)]
pub struct Order(pub Option<i32>, pub Option<i32>);

impl Order {
    /// Wrap a disc and track number.
    pub fn new(disc: Option<i32>, track: Option<i32>) -> (r: Option<Order>)
        ensures
            r == Some(Order(disc, track)),
    {
        Some(Order(disc, track))
    }
}

/// A track's place within its album, as an older container wrote it.
#[derive(PartialEq, Eq, Structural, Clone, Copy, Debug)]
pub struct Index(pub Option<i32>, pub Option<i32>);

impl Index {
    /// Wrap a disc and track number.
    pub fn new(disc: Option<i32>, track: Option<i32>) -> (r: Option<Index>)
        ensures
            r == Some(Index(disc, track)),
    {
        Some(Index(disc, track))
    }
}

/// Where a track's media file lives and how it is encoded.
#[derive(PartialEq, Eq, Debug)]
pub struct MediaContainer {
    pub duration: Option<i32>,
    pub file: String,
    pub size: i32,
    pub format: String,
}

impl Default for MediaContainer {
    /// An empty media description.
    fn default() -> (r: MediaContainer)
        ensures
            r.duration is None,
            r.file@.len() == 0,
            r.size == 0,
            r.format@.len() == 0,
    {
        MediaContainer { duration: None, file: String::new(), size: 0, format: String::new() }
    }
}

/// One track, summarized for an album listing.
#[derive(PartialEq, Eq, Debug)]
pub struct TrackSummary {
    pub title: String,
    pub id: usize,
    pub disc_number: i32,
    pub track_number: i32,
}

impl TrackSummary {
    /// Summarize a track row.
    pub fn from_track(t: &Track) -> (r: TrackSummary)
        ensures
            r.title@ == t.title@,
            r.id == t.id,
            r.disc_number == t.disc_number,
            r.track_number == t.track_number,
    {
        TrackSummary {
            title: t.title.clone(),
            id: t.id,
            disc_number: t.disc_number,
            track_number: t.track_number,
        }
    }
}

/// One entity of the catalog, flattened for a response.
#[derive(PartialEq, Eq, Debug)]
pub struct MetaDataContainer {
    pub kind: ContentType,
    pub id: usize,
    pub index: Option<Order>,
    pub disc_title: Option<String>,
    pub content_group: Option<String>,
    pub title: Option<String>,
    pub subtitle: Option<String>,
    pub year: Option<i32>,
    pub release_date: Option<String>,
    pub art: Option<bool>,
    pub genre: Option<Vec<String>>,
    pub children: Option<IdMap>,
    pub tracks: Option<Vec<TrackSummary>>,
    pub album: Option<IdMap>,
    pub artist: Option<IdMap>,
    pub album_artist: Option<IdMap>,
    pub grandparents: Option<IdMap>,
    pub bpm: Option<String>,
    pub length: Option<u64>,
    pub initial_key: Option<String>,
    pub language: Option<String>,
    pub added_at: Option<String>,
    pub media: Option<MediaContainer>,
}

impl MetaDataContainer {
    /// A container with everything blank but its kind and id.
    fn blank(kind: ContentType, id: usize) -> (r: MetaDataContainer)
        ensures
            r.kind == kind,
            r.id == id,
            r.index is None,
            r.disc_title is None,
            r.content_group is None,
            r.title is None,
            r.subtitle is None,
            r.year is None,
            r.release_date is None,
            r.art is None,
            r.genre is None,
            r.children is None,
            r.tracks is None,
            r.album is None,
            r.artist is None,
            r.album_artist is None,
            r.grandparents is None,
            r.bpm is None,
            r.length is None,
            r.initial_key is None,
            r.language is None,
            r.added_at is None,
            r.media is None,
    {
        MetaDataContainer {
            kind,
            id,
            index: None,
            disc_title: None,
            content_group: None,
            title: None,
            subtitle: None,
            year: None,
            release_date: None,
            art: None,
            genre: None,
            children: None,
            tracks: None,
            album: None,
            artist: None,
            album_artist: None,
            grandparents: None,
            bpm: None,
            length: None,
            initial_key: None,
            language: None,
            added_at: None,
            media: None,
        }
    }

    /// Flatten an artist row.
    pub fn from_artist(a: &Artist) -> (r: MetaDataContainer)
        ensures
            r.kind == ContentType::Artist,
            r.id == a.id,
            r.title matches Some(t) && t@ == a.name@,
            r.artist is None,
            r.album is None,
            r.tracks is None,
    {
        let mut r = MetaDataContainer::blank(ContentType::Artist, a.id);
        r.title = Some(a.name.clone());
        r
    }

    /// Flatten a track row, joining in its artists and its album reference.
    pub fn from_track(t: &Track, c: &Catalog) -> (r: MetaDataContainer)
        ensures
            r.kind == ContentType::Track,
            r.id == t.id,
            r.index == Some(Order(Some(t.disc_number), Some(t.track_number))),
            r.title matches Some(x) && x@ == t.title@,
            r.year == t.year,
            r.disc_title.deep_view() == t.disc_title.deep_view(),
            r.content_group.deep_view() == t.content_group.deep_view(),
            r.subtitle.deep_view() == t.subtitle.deep_view(),
            r.release_date.deep_view() == t.release_date.deep_view(),
            r.bpm.deep_view() == t.bpm.deep_view(),
            r.length == Some(t.length),
            r.initial_key.deep_view() == t.initial_key.deep_view(),
            r.language.deep_view() == t.language.deep_view(),
            r.added_at.deep_view() == t.added_at.deep_view(),
            r.artist matches Some(m) && m.entries.deep_view() == idmap_of_artists(
                c.deep_view().artists.filter(
                    |a: ArtistV|
                        c.deep_view().track_artists.contains(
                            crate::catalog::TrackArtist { track_id: t.id, artist_id: a.id },
                        ),
                ),
            ),
            ({
                match t.album_id {
                    Some(aid) => if (aid as int) < c.deep_view().albums.len() {
                        r.album matches Some(m) && m.entries.deep_view() == Seq::empty().push(
                            (c.deep_view().albums[aid as int].title, aid),
                        )
                    } else {
                        r.album is None
                    },
                    None => r.album is None,
                }
            }),
    {
        let mut r = MetaDataContainer::blank(ContentType::Track, t.id);
        r.index = Some(Order(Some(t.disc_number), Some(t.track_number)));
        r.title = Some(t.title.clone());
        r.year = t.year;
        r.disc_title = crate::draft::copy_opt_string(&t.disc_title);
        r.content_group = crate::draft::copy_opt_string(&t.content_group);
        r.subtitle = crate::draft::copy_opt_string(&t.subtitle);
        r.release_date = crate::draft::copy_opt_string(&t.release_date);
        r.bpm = crate::draft::copy_opt_string(&t.bpm);
        r.length = Some(t.length);
        r.initial_key = crate::draft::copy_opt_string(&t.initial_key);
        r.language = crate::draft::copy_opt_string(&t.language);
        r.added_at = crate::draft::copy_opt_string(&t.added_at);
        let artists = t.artist(c);
        r.artist = IdMap::from_artists(&artists);
        r.album = match t.album_id {
            Some(aid) => {
                if aid < c.albums.len() {
                    let mut m = IdMap::empty();
                    m.insert(&c.albums[aid].title, aid);
                    proof {
                        assert(m.entries.deep_view() =~~= Seq::empty().push(
                            (c.deep_view().albums[aid as int].title, aid),
                        ));
                    }
                    Some(m)
                } else {
                    None
                }
            },
            None => None,
        };
        r
    }

    /// Flatten an album row, joining in its artists and track summaries.
    pub fn from_album(a: &crate::catalog::Album, c: &Catalog) -> (r: MetaDataContainer)
        ensures
            r.kind == ContentType::Album,
            r.id == a.id,
            r.title matches Some(x) && x@ == a.title@,
            r.year == a.year,
            r.art == Some(a.art_id is Some),
            r.album_artist matches Some(m) && m.entries.deep_view() == idmap_of_artists(
                c.deep_view().artists.filter(
                    |x: ArtistV|
                        c.deep_view().album_artists.contains(
                            crate::catalog::AlbumArtist { album_id: a.id, artist_id: x.id },
                        ),
                ),
            ),
            r.tracks matches Some(v) && (exists|s: Seq<TrackV>|
                #[trigger] s.to_multiset() == crate::queries::tracks_of_album(
                    c.deep_view(),
                    a.id,
                ).to_multiset() && crate::queries::sorted_tracks(s) && v@.len() == s.len() && (
                forall|k: int|
                    0 <= k < v@.len() ==> {
                        let t = s[k];
                        (#[trigger] v@[k]).title@ == t.title && v@[k].id == t.id
                            && v@[k].disc_number == t.disc_number && v@[k].track_number
                            == t.track_number
                    })),
    {
        let mut r = MetaDataContainer::blank(ContentType::Album, a.id);
        r.title = Some(a.title.clone());
        r.year = a.year;
        r.art = Some(
            match a.art_id {
                Some(_) => true,
                None => false,
            },
        );
        let artists = a.artist(c);
        r.album_artist = IdMap::from_artists(&artists);
        let tracks = crate::catalog::Track::by_album_id(a.id, c);
        let ghost src = tracks.deep_view();
        let mut summaries: Vec<TrackSummary> = Vec::new();
        let m = tracks.len();
        for j in 0..m
            invariant
                m == tracks.len(),
                tracks.deep_view() == src,
                summaries@.len() == j,
                forall|k: int|
                    0 <= k < j ==> {
                        let t = src[k];
                        (#[trigger] summaries@[k]).title@ == t.title && summaries@[k].id == t.id
                            && summaries@[k].disc_number == t.disc_number
                            && summaries@[k].track_number == t.track_number
                    },
        {
            summaries.push(TrackSummary::from_track(&tracks[j]));
        }
        proof {
            assert(src.to_multiset() == crate::queries::tracks_of_album(
                c.deep_view(),
                a.id,
            ).to_multiset() && crate::queries::sorted_tracks(src));
        }
        r.tracks = Some(summaries);
        r
    }
}

/// A list of flattened entities, all of one kind.
#[derive(PartialEq, Eq, Debug)]
pub struct ResponseContainer {
    pub size: usize,
    pub level: ContentType,
    pub metadata: Vec<MetaDataContainer>,
}

impl ResponseContainer {
    /// Wrap a nonempty list of containers; the level is the first one's kind.
    pub fn new(v: Vec<MetaDataContainer>) -> (r: ResponseContainer)
        requires
            v@.len() > 0,
        ensures
            r.size == v@.len(),
            r.level == v@[0].kind,
            r.metadata == v,
    {
        let size = v.len();
        let level = v[0].kind;
        ResponseContainer { size, level, metadata: v }
    }
}

} // verus!
