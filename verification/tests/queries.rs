use magpie::catalog::{Album, Art, Artist, Catalog, Genre, Track};
use magpie::draft::{RawTag, TrackDraft};

fn tag(title: &str, artists: Vec<&str>, album: &str, genre: &str, track: i32) -> RawTag {
    RawTag {
        title: Some(title.to_string()),
        track_number: Some(track),
        disc_number: Some(1),
        year: Some(2001),
        album: Some(album.to_string()),
        release_date: None,
        disc_title: None,
        content_group: None,
        subtitle: None,
        bpm: None,
        initial_key: None,
        language: None,
        artists: artists.iter().map(|a| a.to_string()).collect(),
        album_artists: artists.iter().map(|a| a.to_string()).collect(),
        genres: vec![genre.to_string()],
        picture: None,
        duration_secs: 60,
    }
}

fn sample() -> Catalog {
    let mut c = Catalog::new();
    for (i, (title, artist, album, genre)) in [
        ("Song1", "X", "Alb", "Rock"),
        ("Song2", "X", "Alb", "Rock"),
        ("Quiet", "Y", "Calm Nights", "Ambient"),
    ]
    .iter()
    .enumerate()
    {
        let d = TrackDraft::from_tag(
            tag(title, vec![artist], album, genre, i as i32 + 1),
            format!("/lib/{title}.flac"),
            100 + i as u64,
        )
        .unwrap();
        Track::new(&d, &mut c);
    }
    c
}

#[test]
fn tracks_by_album_title_is_a_substring_search() {
    let c = sample();
    let tracks = Track::get_by_album_title(&"alb".to_string(), &c).unwrap();
    assert_eq!(tracks.len(), 2);
    assert_eq!(tracks[0].title, "Song1");
    let tracks = Track::by_album_title(&"night".to_string(), &c).unwrap();
    assert_eq!(tracks.len(), 1);
    assert_eq!(tracks[0].title, "Quiet");
    assert!(Track::get_by_album_title(&"missing".to_string(), &c).is_err());
}

#[test]
fn tracks_by_artist_title_is_exact() {
    let c = sample();
    let tracks = Track::get_by_artist_title(&"x".to_string(), &c).unwrap();
    assert_eq!(tracks.len(), 2);
    // substring of an artist name is not the artist
    assert!(Track::get_by_artist_title(&"X Files".to_string(), &c).is_err());
}

#[test]
fn tracks_by_genre_title_joins_the_pairs() {
    let c = sample();
    let tracks = Track::get_by_genre_title(&"rock".to_string(), &c).unwrap();
    assert_eq!(tracks.len(), 2);
    let tracks = Track::by_genre_title(&"Ambient".to_string(), &c).unwrap();
    assert_eq!(tracks.len(), 1);
    assert!(Track::by_genre_title(&"Polka".to_string(), &c).is_err());
}

#[test]
fn lookups_by_id_mirror_the_tables() {
    let c = sample();
    assert_eq!(Track::by_id(0, &c).unwrap().title, "Song1");
    assert_eq!(Track::get_by_id(2, &c).unwrap().title, "Quiet");
    assert!(Track::by_id(3, &c).is_none());
    assert_eq!(Artist::by_id(1, &c).unwrap().name, "Y");
    assert_eq!(Album::by_id(0, &c).unwrap().title, "Alb");
    assert_eq!(Genre::get_by_id(1, &c).unwrap().name, "Ambient");
    assert!(Art::get_by_id(0, &c).is_none());
}

#[test]
fn title_queries() {
    let c = sample();
    assert_eq!(Track::get_one_by_title(&"Quiet".to_string(), &c).unwrap().id, 2);
    assert!(Track::get_one_by_title(&"quiet".to_string(), &c).is_none());
    assert_eq!(Track::get_by_title(&"Song1".to_string(), &c).len(), 1);
    assert_eq!(Track::get_by_title(&"Song9".to_string(), &c).len(), 0);
    // fuzzy artist search, versus exact resolution
    assert_eq!(Artist::by_title(&"y".to_string(), &c).unwrap().name, "Y");
    assert!(Artist::by_title_exact(&"Cal".to_string(), &c).is_none());
    assert_eq!(Artist::get_by_title(&"Y".to_string(), &c).unwrap().id, 1);
    assert_eq!(Album::by_title(&"CALM".to_string(), &c).unwrap().title, "Calm Nights");
    assert_eq!(Genre::get_by_title(&"ROCK".to_string(), &c).unwrap().id, 0);
}

#[test]
fn whole_table_listings() {
    let c = sample();
    assert_eq!(Artist::all(&c).len(), 2);
    assert_eq!(Album::all(&c).len(), 2);
    assert_eq!(Track::all(&c).len(), 3);
    assert_eq!(Track::get_all(&c).len(), 3);
}

#[test]
fn association_joins() {
    let c = sample();
    let tracks = Track::by_artist_id(0, &c);
    assert_eq!(tracks.len(), 2);
    let tracks = Track::get_by_artist_id(1, &c);
    assert_eq!(tracks.len(), 1);
    assert_eq!(tracks[0].title, "Quiet");
    let tracks = Track::by_genre_id(0, &c);
    assert_eq!(tracks.len(), 2);
    let tracks = Track::get_by_genre_id(1, &c);
    assert_eq!(tracks.len(), 1);
    let albums = Album::by_artist_id(0, &c);
    assert_eq!(albums.len(), 1);
    assert_eq!(albums[0].title, "Alb");

    let track = Track::by_id(0, &c).unwrap();
    let artists = track.artist(&c);
    assert_eq!(artists.len(), 1);
    assert_eq!(artists[0].name, "X");
    let album = track.album(&c).unwrap();
    assert_eq!(album.title, "Alb");
    assert_eq!(album.tracks(&c).len(), 2);
    assert_eq!(album.artist(&c).len(), 1);
}

#[test]
fn album_tracks_come_back_sorted_by_disc_then_track() {
    let mut c = Catalog::new();
    for (title, disc, track, path) in [
        ("B2", 2, 2, "/lib/b2.flac"),
        ("A2", 1, 2, "/lib/a2.flac"),
        ("B1", 2, 1, "/lib/b1.flac"),
        ("A1", 1, 1, "/lib/a1.flac"),
    ] {
        let mut t = tag(title, vec!["X"], "Alb", "Rock", track);
        t.disc_number = Some(disc);
        let d = TrackDraft::from_tag(t, path.to_string(), 1).unwrap();
        Track::new(&d, &mut c);
    }
    let titles: Vec<String> =
        Track::by_album_id(0, &c).iter().map(|t| t.title.clone()).collect();
    assert_eq!(titles, vec!["A1", "A2", "B1", "B2"]);
    let titles: Vec<String> = Track::get_by_album_title(&"Alb".to_string(), &c)
        .unwrap()
        .iter()
        .map(|t| t.title.clone())
        .collect();
    assert_eq!(titles, vec!["A1", "A2", "B1", "B2"]);
}

#[test]
fn multiple_artists_on_one_track() {
    let mut c = Catalog::new();
    let d = TrackDraft::from_tag(
        tag("Duet", vec!["A", "B"], "Together", "Pop", 1),
        "/lib/duet.flac".to_string(),
        5,
    )
    .unwrap();
    let tid = Track::new(&d, &mut c);
    assert_eq!(c.artists.len(), 2);
    assert_eq!(c.track_artists.len(), 2);
    assert_eq!(c.album_artists.len(), 2);
    let track = Track::by_id(tid, &c).unwrap();
    assert_eq!(track.artist(&c).len(), 2);
}
