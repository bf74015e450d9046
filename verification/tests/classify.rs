use magpie::classify::{classify, classify_walk, is_hidden_name, scan_dir, Entry, FileKind};
use magpie::draft::vectorize_tags;
use magpie::fnv1a;
use magpie::text::{str_contains_ci, str_eq_ci};

#[test]
fn audio_extensions_are_media() {
    for name in [
        "a.flac", "a.mp3", "a.opus", "a.aif", "a.aiff", "a.wav", "a.alac", "a.ape", "a.m4a",
        "a.ogg",
    ] {
        assert_eq!(classify(name), FileKind::Media);
    }
}

#[test]
fn image_extensions_are_images() {
    for name in ["cover.png", "cover.jpg", "cover.jpeg"] {
        assert_eq!(classify(name), FileKind::Image);
    }
}

#[test]
fn classification_ignores_case() {
    assert_eq!(classify("a.FLAC"), FileKind::Media);
    assert_eq!(classify("a.Mp3"), FileKind::Media);
    assert_eq!(classify("b.JPG"), FileKind::Image);
}

#[test]
fn unknown_or_missing_extensions_are_unsupported() {
    assert_eq!(classify("notes.txt"), FileKind::Unsupported);
    assert_eq!(classify("a.aac"), FileKind::Unsupported);
    assert_eq!(classify("noextension"), FileKind::Unsupported);
    assert_eq!(classify(""), FileKind::Unsupported);
    assert_eq!(classify("tricky."), FileKind::Unsupported);
    assert_eq!(classify(".flac"), FileKind::Unsupported);
    assert_eq!(classify("flac"), FileKind::Unsupported);
}

#[test]
fn last_extension_wins() {
    assert_eq!(classify("a.flac.txt"), FileKind::Unsupported);
    assert_eq!(classify("a.txt.flac"), FileKind::Media);
}

#[test]
fn walk_bucketing_casts_a_wider_net_than_the_gate() {
    // the walk counts aac as audio; the ingestion gate does not
    assert_eq!(classify_walk("a.aac"), FileKind::Media);
    assert_eq!(classify_walk("a.AAC"), FileKind::Media);
    assert_eq!(classify("a.aac"), FileKind::Unsupported);
    // on everything else the two classifiers agree
    for name in ["a.flac", "a.ogg", "cover.jpg", "notes.txt", "noextension", ".flac"] {
        assert_eq!(classify_walk(name), classify(name));
    }
}

#[test]
fn hidden_names_start_with_a_dot() {
    assert!(is_hidden_name(".git"));
    assert!(is_hidden_name(".hidden.flac"));
    assert!(!is_hidden_name("visible.flac"));
    assert!(!is_hidden_name(""));
}

fn entry(path: &str, name: &str, depth: usize, is_dir: bool) -> Entry {
    Entry { path: path.to_string(), name: name.to_string(), depth, is_dir }
}

#[test]
fn scan_dir_buckets_the_walk() {
    let entries = vec![
        entry("/lib", "lib", 0, true),
        entry("/lib/Artist", "Artist", 1, true),
        entry("/lib/Artist/Album", "Album", 2, true),
        entry("/lib/Artist/Album/Extras", "Extras", 3, true),
        entry("/lib/Artist/Album/song.flac", "song.flac", 3, false),
        entry("/lib/Artist/Album/bonus.aac", "bonus.aac", 3, false),
        entry("/lib/Artist/Album/cover.jpg", "cover.jpg", 3, false),
        entry("/lib/Artist/Album/notes.txt", "notes.txt", 3, false),
        entry("/lib/.cache", ".cache", 1, true),
        entry("/lib/.cache/x.flac", ".x.flac", 2, false),
    ];
    let s = scan_dir(&entries);
    assert_eq!(s.root, "/lib");
    assert_eq!(s.artists, vec!["/lib/Artist".to_string()]);
    assert_eq!(s.albums, vec!["/lib/Artist/Album".to_string()]);
    assert_eq!(
        s.tracks,
        vec![
            "/lib/Artist/Album/song.flac".to_string(),
            "/lib/Artist/Album/bonus.aac".to_string()
        ]
    );
    assert_eq!(s.images, vec!["/lib/Artist/Album/cover.jpg".to_string()]);
    assert_eq!(
        s.other,
        vec![
            "/lib/Artist/Album/Extras".to_string(),
            "/lib/Artist/Album/notes.txt".to_string()
        ]
    );
}

#[test]
fn fnv1a_known_values() {
    // the FNV-1a offset basis is the hash of the empty input
    assert_eq!(fnv1a(&vec![]), 0xcbf29ce484222325);
    // standard reference value for the single byte "a"
    assert_eq!(fnv1a(&vec![b'a']), 0xaf63dc4c8601ec8c);
    // deterministic: identical bytes, identical hash
    assert_eq!(fnv1a(&vec![1, 2, 3]), fnv1a(&vec![1, 2, 3]));
    assert_ne!(fnv1a(&vec![1, 2, 3]), fnv1a(&vec![3, 2, 1]));
}

#[test]
fn case_insensitive_text_helpers() {
    assert!(str_eq_ci("Fair Warning", "fair warning"));
    assert!(!str_eq_ci("Air", "Fair"));
    assert!(str_contains_ci("Fair Warning", "AIR"));
    assert!(str_contains_ci("anything", ""));
    assert!(!str_contains_ci("Air", "Fair Warning"));
}

#[test]
fn vectorize_tags_materializes_strings() {
    let tags: Vec<&str> = vec!["Rock", "Jazz"];
    let owned = vectorize_tags(&tags);
    assert_eq!(owned, vec!["Rock".to_string(), "Jazz".to_string()]);
    assert_eq!(vectorize_tags(&Vec::new()), Vec::<String>::new());
}
