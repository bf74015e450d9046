use magpie::catalog::{Album, Art, Artist, Catalog, Genre, Track};
use magpie::draft::{RawTag, TrackDraft};
use magpie::error::ExtractionError;
use magpie::scan::{scan, FileEntry, FileOutcome};

fn tag(
    title: Option<&str>,
    artist: &str,
    album: &str,
    genre: &str,
    track: i32,
    disc: i32,
) -> RawTag {
    RawTag {
        title: title.map(|t| t.to_string()),
        track_number: Some(track),
        disc_number: Some(disc),
        year: Some(2001),
        album: Some(album.to_string()),
        release_date: None,
        disc_title: None,
        content_group: None,
        subtitle: None,
        bpm: None,
        initial_key: None,
        language: None,
        artists: vec![artist.to_string()],
        album_artists: vec![artist.to_string()],
        genres: vec![genre.to_string()],
        picture: None,
        duration_secs: 180,
    }
}

fn media_entry(path: &str, name: &str, filesize: u64, t: Result<RawTag, ExtractionError>) -> FileEntry {
    FileEntry {
        path: path.to_string(),
        name: name.to_string(),
        is_dir: false,
        filesize,
        tag: t,
    }
}

fn library_entries() -> Vec<FileEntry> {
    vec![
        media_entry(
            "/lib/A/Song1.flac",
            "Song1.flac",
            1000,
            Ok(tag(Some("Song1"), "X", "Alb", "Rock", 1, 1)),
        ),
        media_entry(
            "/lib/A/Song2.flac",
            "Song2.flac",
            1001,
            Ok(tag(Some("Song2"), "X", "Alb", "Rock", 2, 1)),
        ),
    ]
}

#[test]
fn concrete_scenario_two_songs_one_album() {
    let mut c = Catalog::new();
    let outcomes = scan(&library_entries(), &mut c);
    assert_eq!(outcomes, vec![FileOutcome::Ingested, FileOutcome::Ingested]);
    assert_eq!(c.artists.len(), 1);
    assert_eq!(c.artists[0].name, "X");
    assert_eq!(c.genres.len(), 1);
    assert_eq!(c.genres[0].name, "Rock");
    assert_eq!(c.albums.len(), 1);
    assert_eq!(c.albums[0].title, "Alb");
    assert_eq!(c.tracks.len(), 2);
    let album_id = c.albums[0].id;
    assert_eq!(c.tracks[0].album_id, Some(album_id));
    assert_eq!(c.tracks[1].album_id, Some(album_id));
    assert_eq!(c.tracks[0].title, "Song1");
    assert_eq!(c.tracks[1].title, "Song2");
    assert_eq!(c.tracks[0].track_number, 1);
    assert_eq!(c.tracks[1].track_number, 2);
    // both tracks link to the one artist and the one genre
    assert_eq!(c.track_artists.len(), 2);
    assert!(c.track_artists.iter().all(|p| p.artist_id == c.artists[0].id));
    assert_eq!(c.track_genres.len(), 2);
    assert!(c.track_genres.iter().all(|p| p.genre_id == c.genres[0].id));
    assert_eq!(c.album_artists.len(), 1);
}

#[test]
fn scan_twice_changes_nothing() {
    let mut c = Catalog::new();
    scan(&library_entries(), &mut c);
    let artists = c.artists.len();
    let genres = c.genres.len();
    let albums = c.albums.len();
    let tracks = c.tracks.len();
    let aa = c.album_artists.len();
    let ta = c.track_artists.len();
    let tg = c.track_genres.len();
    let titles: Vec<String> = c.tracks.iter().map(|t| t.title.clone()).collect();

    let outcomes = scan(&library_entries(), &mut c);
    assert_eq!(outcomes, vec![FileOutcome::Unchanged, FileOutcome::Unchanged]);
    assert_eq!(c.artists.len(), artists);
    assert_eq!(c.genres.len(), genres);
    assert_eq!(c.albums.len(), albums);
    assert_eq!(c.tracks.len(), tracks);
    assert_eq!(c.album_artists.len(), aa);
    assert_eq!(c.track_artists.len(), ta);
    assert_eq!(c.track_genres.len(), tg);
    let titles2: Vec<String> = c.tracks.iter().map(|t| t.title.clone()).collect();
    assert_eq!(titles, titles2);
}

#[test]
fn identical_artwork_lands_in_one_row() {
    let mut c = Catalog::new();
    let picture = vec![1u8, 2, 3, 4, 5];
    let id1 = Art::new(picture.clone(), &mut c);
    let id2 = Art::new(picture.clone(), &mut c);
    assert_eq!(id1, id2);
    assert_eq!(c.art.len(), 1);
    assert_eq!(c.art[0].data, picture);

    // two albums with the same embedded picture reference the same art row
    let mut t1 = tag(Some("S1"), "X", "AlbumOne", "Rock", 1, 1);
    t1.picture = Some(picture.clone());
    let mut t2 = tag(Some("S2"), "Y", "AlbumTwo", "Rock", 1, 1);
    t2.picture = Some(picture.clone());
    let d1 = TrackDraft::from_tag(t1, "/lib/a.flac".to_string(), 10).unwrap();
    let d2 = TrackDraft::from_tag(t2, "/lib/b.flac".to_string(), 11).unwrap();
    Track::new(&d1, &mut c);
    Track::new(&d2, &mut c);
    assert_eq!(c.art.len(), 1);
    assert_eq!(c.albums[0].art_id, Some(id1));
    assert_eq!(c.albums[1].art_id, Some(id1));
}

#[test]
fn rescan_with_new_filesize_updates_in_place() {
    let mut c = Catalog::new();
    let first = vec![media_entry(
        "/lib/A/Song1.flac",
        "Song1.flac",
        1000,
        Ok(tag(Some("Song1"), "X", "Alb", "Rock", 1, 1)),
    )];
    scan(&first, &mut c);
    assert_eq!(c.tracks.len(), 1);
    let old_id = c.tracks[0].id;

    let second = vec![media_entry(
        "/lib/A/Song1.flac",
        "Song1.flac",
        2000,
        Ok(tag(Some("Song1 Remastered"), "X", "Alb", "Rock", 1, 1)),
    )];
    let outcomes = scan(&second, &mut c);
    assert_eq!(outcomes, vec![FileOutcome::Ingested]);
    assert_eq!(c.tracks.len(), 1);
    assert_eq!(c.tracks[0].id, old_id);
    assert_eq!(c.tracks[0].title, "Song1 Remastered");
    assert_eq!(c.tracks[0].filesize, 2000);
}

#[test]
fn unchanged_file_is_skipped_without_reading_tags() {
    let mut c = Catalog::new();
    scan(&library_entries(), &mut c);
    let again = vec![media_entry(
        "/lib/A/Song1.flac",
        "Song1.flac",
        1000,
        Err(ExtractionError::IoError),
    )];
    let outcomes = scan(&again, &mut c);
    assert_eq!(outcomes, vec![FileOutcome::Unchanged]);
    assert_eq!(c.tracks.len(), 2);
    assert_eq!(c.tracks[0].title, "Song1");
}

#[test]
fn update_keeps_the_stored_added_at_stamp() {
    let mut c = Catalog::new();
    let d = TrackDraft::from_tag(
        tag(Some("S"), "X", "Alb", "Rock", 1, 1),
        "/lib/s.flac".to_string(),
        10,
    )
    .unwrap();
    Track::new(&d, &mut c);
    // the engine never writes the stamp itself; the backing store would
    assert_eq!(c.tracks[0].added_at, None);
    c.tracks[0].added_at = Some("2024-01-01 00:00:00".to_string());

    let d2 = TrackDraft::from_tag(
        tag(Some("S Remastered"), "X", "Alb", "Rock", 1, 1),
        "/lib/s.flac".to_string(),
        20,
    )
    .unwrap();
    Track::new(&d2, &mut c);
    assert_eq!(c.tracks.len(), 1);
    assert_eq!(c.tracks[0].title, "S Remastered");
    assert_eq!(c.tracks[0].added_at, Some("2024-01-01 00:00:00".to_string()));
}

#[test]
fn same_association_twice_is_one_row() {
    let mut c = Catalog::new();
    let d = TrackDraft::from_tag(
        tag(Some("S"), "X", "Alb", "Rock", 1, 1),
        "/lib/s.flac".to_string(),
        10,
    )
    .unwrap();
    let tid = Track::new(&d, &mut c);
    let aid = Artist::by_title_or_new(&"X".to_string(), &mut c);
    assert_eq!(c.track_artists.len(), 1);
    c.link_track_artist(tid, aid);
    c.link_track_artist(tid, aid);
    assert_eq!(c.track_artists.len(), 1);
}

#[test]
fn one_corrupt_file_among_nine_good_ones() {
    let mut entries = Vec::new();
    for i in 0..9 {
        entries.push(media_entry(
            &format!("/lib/A/Song{i}.flac"),
            &format!("Song{i}.flac"),
            1000 + i as u64,
            Ok(tag(Some(&format!("Song{i}")), "X", "Alb", "Rock", i + 1, 1)),
        ));
    }
    entries.insert(
        4,
        media_entry("/lib/A/broken.flac", "broken.flac", 555, Err(ExtractionError::IoError)),
    );
    let mut c = Catalog::new();
    let outcomes = scan(&entries, &mut c);
    assert_eq!(c.tracks.len(), 9);
    let failures = outcomes.iter().filter(|o| **o == FileOutcome::Failed).count();
    assert_eq!(failures, 1);
    let ingested = outcomes.iter().filter(|o| **o == FileOutcome::Ingested).count();
    assert_eq!(ingested, 9);
}

#[test]
fn missing_title_is_a_per_file_failure() {
    let mut c = Catalog::new();
    let entries = vec![media_entry(
        "/lib/A/untitled.flac",
        "untitled.flac",
        77,
        Ok(tag(None, "X", "Alb", "Rock", 1, 1)),
    )];
    let outcomes = scan(&entries, &mut c);
    assert_eq!(outcomes, vec![FileOutcome::Failed]);
    assert_eq!(c.tracks.len(), 0);
    assert_eq!(c.albums.len(), 0);
    assert_eq!(c.artists.len(), 0);
}

#[test]
fn from_tag_requires_a_title() {
    let r = TrackDraft::from_tag(
        tag(None, "X", "Alb", "Rock", 1, 1),
        "/lib/x.flac".to_string(),
        5,
    );
    assert_eq!(r.unwrap_err(), ExtractionError::MissingRequiredField);
}

#[test]
fn from_tag_defaults_track_and_disc_to_one() {
    let mut t = tag(Some("S"), "X", "Alb", "Rock", 1, 1);
    t.track_number = None;
    t.disc_number = None;
    let d = TrackDraft::from_tag(t, "/lib/x.flac".to_string(), 5).unwrap();
    assert_eq!(d.track_number, 1);
    assert_eq!(d.disc_number, 1);
}

#[test]
fn aac_is_bucketed_but_not_ingested() {
    let mut c = Catalog::new();
    let entries = vec![media_entry(
        "/lib/A/bonus.aac",
        "bonus.aac",
        42,
        Ok(tag(Some("Bonus"), "X", "Alb", "Rock", 1, 1)),
    )];
    let outcomes = scan(&entries, &mut c);
    assert_eq!(outcomes, vec![FileOutcome::NotMedia]);
    assert_eq!(c.tracks.len(), 0);
}

#[test]
fn hidden_and_unsupported_entries_are_passed_over() {
    let mut c = Catalog::new();
    let entries = vec![
        media_entry(
            "/lib/.hidden.flac",
            ".hidden.flac",
            10,
            Ok(tag(Some("H"), "X", "Alb", "Rock", 1, 1)),
        ),
        media_entry("/lib/readme.txt", "readme.txt", 10, Err(ExtractionError::NoTagFound)),
        media_entry("/lib/cover.jpg", "cover.jpg", 10, Err(ExtractionError::NoTagFound)),
    ];
    let outcomes = scan(&entries, &mut c);
    assert_eq!(
        outcomes,
        vec![FileOutcome::Hidden, FileOutcome::NotMedia, FileOutcome::NotMedia]
    );
    assert_eq!(c.tracks.len(), 0);
}

#[test]
fn resolver_matches_names_without_case() {
    let mut c = Catalog::new();
    let a1 = Artist::by_title_or_new(&"Air".to_string(), &mut c);
    let a2 = Artist::by_title_or_new(&"AIR".to_string(), &mut c);
    assert_eq!(a1, a2);
    assert_eq!(c.artists.len(), 1);
    // but a name that merely contains it is someone else
    let a3 = Artist::by_title_or_new(&"Fair Warning".to_string(), &mut c);
    assert_ne!(a1, a3);
    assert_eq!(c.artists.len(), 2);

    let g1 = Genre::get_or_new(&"Rock".to_string(), &mut c);
    let g2 = Genre::get_or_new(&"rock".to_string(), &mut c);
    assert_eq!(g1, g2);
    assert_eq!(c.genres.len(), 1);
}

#[test]
fn album_year_and_art_are_first_writer_wins() {
    let mut c = Catalog::new();
    let mut t1 = tag(Some("S1"), "X", "Alb", "Rock", 1, 1);
    t1.year = Some(1999);
    let d1 = TrackDraft::from_tag(t1, "/lib/a.flac".to_string(), 1).unwrap();
    Track::new(&d1, &mut c);
    let mut t2 = tag(Some("S2"), "X", "Alb", "Rock", 2, 1);
    t2.year = Some(2020);
    let d2 = TrackDraft::from_tag(t2, "/lib/b.flac".to_string(), 2).unwrap();
    Track::new(&d2, &mut c);
    assert_eq!(c.albums.len(), 1);
    assert_eq!(c.albums[0].year, Some(1999));
}

#[test]
fn check_hash_sees_only_stored_art() {
    let mut c = Catalog::new();
    let data = vec![9u8, 9, 9];
    let h = magpie::fnv1a(&data);
    assert!(!Art::check_hash(h, &c));
    Art::new(data, &mut c);
    assert!(Art::check_hash(h, &c));
}

#[test]
fn track_check_is_the_path_filesize_gate() {
    let mut c = Catalog::new();
    let d = TrackDraft::from_tag(
        tag(Some("S"), "X", "Alb", "Rock", 1, 1),
        "/lib/s.flac".to_string(),
        10,
    )
    .unwrap();
    Track::new(&d, &mut c);
    assert!(Track::check(&"/lib/s.flac".to_string(), 10, &c));
    assert!(!Track::check(&"/lib/s.flac".to_string(), 11, &c));
    assert!(!Track::check(&"/lib/other.flac".to_string(), 10, &c));
}

#[test]
fn album_resolution_reuses_existing_albums() {
    let mut c = Catalog::new();
    let artists = vec!["X".to_string()];
    let id = Album::new(&"Alb".to_string(), &artists, Some(2000), &None, &mut c);
    let found = Album::by_title_exact(&"alb".to_string(), &c);
    assert_eq!(found, Some(id));
    let d = TrackDraft::from_tag(
        tag(Some("S"), "X", "Alb", "Rock", 1, 1),
        "/lib/s.flac".to_string(),
        10,
    )
    .unwrap();
    Track::new(&d, &mut c);
    assert_eq!(c.albums.len(), 1);
}
