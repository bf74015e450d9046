use magpie::api::{
    get_album, get_albums, get_artist, get_artists, get_track, get_tracks, Filter, MagpieAlbum,
    MagpieArtist, MagpieData, MagpieResponse, MagpieStatus, MagpieTrack, Version,
};
use magpie::catalog::{Catalog, Track};
use magpie::draft::{RawTag, TrackDraft};
use magpie::error::{Error, ExtractionError, MagpieError};
use magpie::response::{IdMap, MetaDataContainer, ResponseContainer, TrackSummary};
use magpie::subsonic::{subsonic_dispatch, SubsonicLicense, SubsonicResponse, SubsonicStatus};
use magpie::types::MagpieResponse as SharedResponse;
use magpie::types::MagpieStatus as SharedStatus;
use magpie::types::SimpleTrack;

fn tag(title: &str, artist: &str, album: &str, genre: &str, track: i32) -> RawTag {
    RawTag {
        title: Some(title.to_string()),
        track_number: Some(track),
        disc_number: Some(1),
        year: Some(2001),
        album: Some(album.to_string()),
        release_date: None,
        disc_title: None,
        content_group: None,
        subtitle: None,
        bpm: None,
        initial_key: None,
        language: None,
        artists: vec![artist.to_string()],
        album_artists: vec![artist.to_string()],
        genres: vec![genre.to_string()],
        picture: None,
        duration_secs: 180,
    }
}

fn sample_catalog() -> Catalog {
    let mut c = Catalog::new();
    for (i, (title, artist, album, genre)) in [
        ("Song1", "X", "Alb", "Rock"),
        ("Song2", "X", "Alb", "Rock"),
        ("Quiet", "Y", "Calm", "Ambient"),
    ]
    .iter()
    .enumerate()
    {
        let d = TrackDraft::from_tag(
            tag(title, artist, album, genre, i as i32 + 1),
            format!("/lib/{title}.flac"),
            100 + i as u64,
        )
        .unwrap();
        Track::new(&d, &mut c);
    }
    c
}

#[test]
fn version_stamp() {
    let v = Version::default();
    assert_eq!(v.major, 0);
    assert_eq!(v.minor, 1);
}

#[test]
fn response_builders_chain() {
    let r = MagpieResponse::new();
    assert_eq!(r.status, MagpieStatus::Unimplemented);
    let r = r.add_data(MagpieData::Empty).set_pagination(50, 0);
    assert_eq!(r.status, MagpieStatus::Okay);
    assert_eq!(r.count, Some(50));
    assert_eq!(r.page, Some(0));
    let r = MagpieResponse::new().error("nope");
    assert_eq!(r.status, MagpieStatus::Error("nope".to_string()));
}

#[test]
fn artists_query_filters_by_name() {
    let c = sample_catalog();
    let mut f = Filter::none();
    f.name = Some("x".to_string());
    let r = get_artists(&f, &c);
    assert_eq!(r.status, MagpieStatus::Okay);
    match r.data {
        MagpieData::Artists(v) => {
            assert_eq!(v.len(), 1);
            assert_eq!(v[0].name, "X");
        }
        _ => panic!("expected artists"),
    }

    let mut f = Filter::none();
    f.name = Some("zzz".to_string());
    let r = get_artists(&f, &c);
    assert!(matches!(r.status, MagpieStatus::Error(_)));
}

#[test]
fn tracks_query_resolves_the_album_filter() {
    let c = sample_catalog();
    let mut f = Filter::none();
    f.album = Some("alb".to_string());
    let r = get_tracks(&f, &c).unwrap();
    assert_eq!(r.status, MagpieStatus::Okay);
    match r.data {
        MagpieData::Tracks(v) => {
            assert_eq!(v.len(), 2);
            assert_eq!(v[0].title, "Song1");
            assert_eq!(v[0].album.as_deref(), Some("Alb"));
            assert_eq!(v[1].title, "Song2");
        }
        _ => panic!("expected tracks"),
    }

    let mut f = Filter::none();
    f.album = Some("no such album".to_string());
    assert!(get_tracks(&f, &c).is_err());
}

#[test]
fn tracks_query_pages_its_results() {
    let c = sample_catalog();
    let mut f = Filter::none();
    f.limit = Some(1);
    f.offset = Some(1);
    let r = get_tracks(&f, &c).unwrap();
    match r.data {
        MagpieData::Tracks(v) => {
            assert_eq!(v.len(), 1);
            assert_eq!(v[0].title, "Song2");
        }
        _ => panic!("expected tracks"),
    }
    assert_eq!(r.count, Some(1));
    assert_eq!(r.page, Some(1));
}

#[test]
fn albums_query_filters_by_year() {
    let c = sample_catalog();
    let mut f = Filter::none();
    f.year = Some(2001);
    let r = get_albums(&f, &c);
    match r.data {
        MagpieData::Albums(v) => {
            assert_eq!(v.len(), 2);
            assert_eq!(v[0].title, "Alb");
            assert_eq!(v[0].artist, Some(vec!["X".to_string()]));
        }
        _ => panic!("expected albums"),
    }
    let mut f = Filter::none();
    f.year = Some(1900);
    assert!(matches!(get_albums(&f, &c).status, MagpieStatus::Error(_)));
}

#[test]
fn single_entity_queries_join_their_children() {
    let c = sample_catalog();
    let r = get_artist(0, &c);
    assert_eq!(r.status, MagpieStatus::Okay);
    match (r.data, r.children) {
        (MagpieData::Artist(a), Some(MagpieData::Albums(albums))) => {
            assert_eq!(a.name, "X");
            assert_eq!(albums.len(), 1);
            assert_eq!(albums[0].title, "Alb");
        }
        _ => panic!("expected artist with album children"),
    }

    let r = get_album(0, &c);
    match (r.data, r.children) {
        (MagpieData::Album(a), Some(MagpieData::Tracks(tracks))) => {
            assert_eq!(a.title, "Alb");
            assert_eq!(tracks.len(), 2);
        }
        _ => panic!("expected album with track children"),
    }

    let r = get_track(2, &c);
    match r.data {
        MagpieData::Track(t) => assert_eq!(t.title, "Quiet"),
        _ => panic!("expected track"),
    }
    assert!(matches!(get_track(99, &c).status, MagpieStatus::Error(_)));
    assert!(matches!(get_artist(99, &c).status, MagpieStatus::Error(_)));
    assert!(matches!(get_album(99, &c).status, MagpieStatus::Error(_)));
}

#[test]
fn dto_builders_copy_their_rows() {
    let c = sample_catalog();
    let a = MagpieArtist::new(&c.artists[0]);
    assert_eq!(a.id, 0);
    assert_eq!(a.name, "X");
    let al = MagpieAlbum::new(&c.albums[0], &c);
    assert_eq!(al.title, "Alb");
    assert_eq!(al.year, Some(2001));
    let mut c = c;
    c.tracks[0].added_at = Some("2024-01-01 00:00:00".to_string());
    let t = MagpieTrack::new(&c.tracks[0], &c);
    assert_eq!(t.title, "Song1");
    assert_eq!(t.album.as_deref(), Some("Alb"));
    assert_eq!(t.length, Some(180));
    assert_eq!(t.added_at.as_deref(), Some("2024-01-01 00:00:00"));
}

#[test]
fn idmap_insert_overwrites_existing_keys() {
    let mut m = IdMap::empty();
    m.insert(&"X".to_string(), 1);
    m.insert(&"Y".to_string(), 2);
    m.insert(&"X".to_string(), 7);
    assert_eq!(m.entries, vec![("X".to_string(), 7), ("Y".to_string(), 2)]);
    let m2 = IdMap::new(vec![("A".to_string(), 1), ("A".to_string(), 2)]).unwrap();
    assert_eq!(m2.entries, vec![("A".to_string(), 2)]);
}

#[test]
fn idmap_folds_rows() {
    let c = sample_catalog();
    let m = IdMap::from_artists(&magpie::catalog::Artist::all(&c)).unwrap();
    assert_eq!(
        m.entries,
        vec![("X".to_string(), 0), ("Y".to_string(), 1)]
    );
    let m = IdMap::from_tracks(&Track::all(&c)).unwrap();
    assert_eq!(m.entries.len(), 3);
    assert_eq!(m.entries[0], ("Song1".to_string(), 0));
}

#[test]
fn metadata_containers_flatten_rows() {
    let c = sample_catalog();
    let m = MetaDataContainer::from_artist(&c.artists[0]);
    assert_eq!(m.id, 0);
    assert_eq!(m.title.as_deref(), Some("X"));

    let mut c = c;
    c.tracks[0].added_at = Some("2024-01-01 00:00:00".to_string());
    let m = MetaDataContainer::from_track(&c.tracks[0], &c);
    assert_eq!(m.title.as_deref(), Some("Song1"));
    assert_eq!(m.length, Some(180));
    assert_eq!(m.added_at.as_deref(), Some("2024-01-01 00:00:00"));
    let artist_map = m.artist.unwrap();
    assert_eq!(artist_map.entries, vec![("X".to_string(), 0)]);
    let album_map = m.album.unwrap();
    assert_eq!(album_map.entries, vec![("Alb".to_string(), 0)]);

    let m = MetaDataContainer::from_album(&c.albums[0], &c);
    assert_eq!(m.title.as_deref(), Some("Alb"));
    assert_eq!(m.art, Some(false));
    let tracks = m.tracks.unwrap();
    assert_eq!(tracks.len(), 2);
    assert_eq!(tracks[0].title, "Song1");

    let rc = ResponseContainer::new(vec![MetaDataContainer::from_artist(&c.artists[0])]);
    assert_eq!(rc.size, 1);

    let ts = TrackSummary::from_track(&c.tracks[1]);
    assert_eq!(ts.track_number, 2);
}

#[test]
fn subsonic_envelope_and_license() {
    let r = SubsonicResponse::new();
    assert_eq!(r.version, "1.16.1");
    assert_eq!(r.magpie_version, "0.2.0");
    assert_eq!(r.subsonic_type, "Magpie");
    assert_eq!(r.status, SubsonicStatus::Okay);
    assert!(r.license.is_none());

    assert_eq!(SubsonicResponse::ping().status, SubsonicStatus::Okay);
    assert_eq!(
        SubsonicResponse::unimplemented().status,
        SubsonicStatus::Unimplemented
    );

    let r = SubsonicResponse::get_license();
    let license = r.license.unwrap();
    assert_eq!(license.valid, "true");
    assert_eq!(license.email, "alwaysvalid@example.com");
    // the expiry comes from the clock: only its shape is fixed
    assert!(!license.license_expires.is_empty());
    assert!(license.license_expires.contains('T'));

    let direct = SubsonicLicense::new();
    assert_eq!(direct.valid, "true");
}

#[test]
fn listings_come_back_ordered() {
    let mut c = Catalog::new();
    for (i, (title, artist, album, year)) in [
        ("Late", "beta", "Newer", 2005),
        ("Early", "Alpha", "Older", 2001),
    ]
    .iter()
    .enumerate()
    {
        let mut t = tag(title, artist, album, "Rock", 1);
        t.year = Some(*year);
        let d = TrackDraft::from_tag(t, format!("/lib/{title}.flac"), i as u64).unwrap();
        Track::new(&d, &mut c);
    }
    // artists ascending by name, by code point
    let r = get_artists(&Filter::none(), &c);
    match r.data {
        MagpieData::Artists(v) => {
            let names: Vec<String> = v.iter().map(|a| a.name.clone()).collect();
            assert_eq!(names, vec!["Alpha", "beta"]);
        }
        _ => panic!("expected artists"),
    }
    // albums ascending by year
    let r = get_albums(&Filter::none(), &c);
    match r.data {
        MagpieData::Albums(v) => {
            let years: Vec<Option<i32>> = v.iter().map(|a| a.year).collect();
            assert_eq!(years, vec![Some(2001), Some(2005)]);
        }
        _ => panic!("expected albums"),
    }
    // tracks ascending by disc, then track number
    let mut t = tag("DiscTwo", "beta", "Newer", "Rock", 1);
    t.disc_number = Some(2);
    let d = TrackDraft::from_tag(t, "/lib/d2.flac".to_string(), 9).unwrap();
    Track::new(&d, &mut c);
    let r = get_tracks(&Filter::none(), &c).unwrap();
    match r.data {
        MagpieData::Tracks(v) => {
            let discs: Vec<Option<i32>> = v.iter().map(|t| t.disc_number).collect();
            assert_eq!(discs, vec![Some(1), Some(1), Some(2)]);
        }
        _ => panic!("expected tracks"),
    }
}

#[test]
fn subsonic_dispatch_answers_system_routes_only() {
    let r = subsonic_dispatch("/ping");
    assert_eq!(r.status, SubsonicStatus::Okay);
    assert!(r.license.is_none());
    let r = subsonic_dispatch("/getLicense");
    assert_eq!(r.status, SubsonicStatus::Okay);
    assert!(r.license.is_some());
    assert_eq!(subsonic_dispatch("/getAlbumList").status, SubsonicStatus::Unimplemented);
    assert_eq!(subsonic_dispatch("/stream").status, SubsonicStatus::Unimplemented);
}

#[test]
fn error_types_carry_their_messages() {
    let e = Error::msg("boom".to_string());
    assert_eq!(e.text(), "boom");
    assert_eq!(MagpieError::GenericError.message(), "Unknown error occured, sorry.");
    assert_eq!(
        MagpieError::DatabaseError { msg: "locked".to_string() }.message(),
        "locked"
    );
    assert_eq!(ExtractionError::IoError.message(), "could not read file");
    assert_eq!(ExtractionError::NoTagFound.message(), "could not find tag in file");
    assert_eq!(ExtractionError::MissingRequiredField.message(), "no title");
}

#[test]
fn shared_status_type_round_trips() {
    for s in [SharedStatus::Okay, SharedStatus::Error, SharedStatus::Unimplemented] {
        let text = s.as_string();
        assert_eq!(SharedStatus::from_string(&text), Some(s));
    }
    assert_eq!(SharedStatus::from_string(&"ok".to_string()), Some(SharedStatus::Okay));
    assert_eq!(SharedStatus::from_string(&"bogus".to_string()), None);
    assert_eq!(SharedStatus::Okay.as_string(), "Ok");
}

#[test]
fn generic_response_builders() {
    let r: SharedResponse<SimpleTrack> = SharedResponse {
        status: SharedStatus::Unimplemented,
        count: None,
        page: None,
        data: Vec::new(),
    };
    let r = r
        .set_status(SharedStatus::Okay)
        .set_data(vec![SimpleTrack { id: 1, title: "a".to_string() }])
        .set_page(3);
    assert_eq!(r.status, SharedStatus::Okay);
    assert_eq!(r.count, Some(1));
    assert_eq!(r.page, Some(3));
    let r = r.push_data(SimpleTrack { id: 2, title: "b".to_string() });
    assert_eq!(r.count, Some(2));
    let mut more = vec![SimpleTrack { id: 3, title: "c".to_string() }];
    let r = r.append_data(&mut more);
    assert_eq!(r.count, Some(3));
    assert!(more.is_empty());
    assert_eq!(r.data().len(), 3);
}
