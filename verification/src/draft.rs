use vstd::prelude::*;

use crate::error::ExtractionError;

verus! {

/// The tag fields as they come out of a file's tag block, every one of them
/// possibly absent. The surrounding process reads these with its tag parser
/// and hands them over as plain values.
#[derive(Debug)]
pub struct RawTag {
    pub title: Option<String>,
    pub track_number: Option<i32>,
    pub disc_number: Option<i32>,
    pub year: Option<i32>,
    pub album: Option<String>,
    pub release_date: Option<String>,
    pub disc_title: Option<String>,
    pub content_group: Option<String>,
    pub subtitle: Option<String>,
    pub bpm: Option<String>,
    pub initial_key: Option<String>,
    pub language: Option<String>,
    pub artists: Vec<String>,
    pub album_artists: Vec<String>,
    pub genres: Vec<String>,
    pub picture: Option<Vec<u8>>,
    pub duration_secs: u64,
}

#[verifier::ext_equal]
pub struct RawTagV {
    pub title: Option<Seq<char>>,
    pub track_number: Option<i32>,
    pub disc_number: Option<i32>,
    pub year: Option<i32>,
    pub album: Option<Seq<char>>,
    pub release_date: Option<Seq<char>>,
    pub disc_title: Option<Seq<char>>,
    pub content_group: Option<Seq<char>>,
    pub subtitle: Option<Seq<char>>,
    pub bpm: Option<Seq<char>>,
    pub initial_key: Option<Seq<char>>,
    pub language: Option<Seq<char>>,
    pub artists: Seq<Seq<char>>,
    pub album_artists: Seq<Seq<char>>,
    pub genres: Seq<Seq<char>>,
    pub picture: Option<Seq<u8>>,
    pub duration_secs: u64,
}

impl DeepView for RawTag {
    type V = RawTagV;

    open spec fn deep_view(&self) -> RawTagV {
        RawTagV {
            title: self.title.deep_view(),
            track_number: self.track_number,
            disc_number: self.disc_number,
            year: self.year,
            album: self.album.deep_view(),
            release_date: self.release_date.deep_view(),
            disc_title: self.disc_title.deep_view(),
            content_group: self.content_group.deep_view(),
            subtitle: self.subtitle.deep_view(),
            bpm: self.bpm.deep_view(),
            initial_key: self.initial_key.deep_view(),
            language: self.language.deep_view(),
            artists: self.artists.deep_view(),
            album_artists: self.album_artists.deep_view(),
            genres: self.genres.deep_view(),
            picture: self.picture.deep_view(),
            duration_secs: self.duration_secs,
        }
    }
}

/// A validated, not-yet-persisted track: every mandatory field present,
/// defaults applied.
#[derive(Debug)]
pub struct TrackDraft {
    pub path: String,
    pub filesize: u64,
    pub title: String,
    pub track_number: i32,
    pub disc_number: i32,
    pub year: Option<i32>,
    pub release_date: Option<String>,
    pub disc_title: Option<String>,
    pub content_group: Option<String>,
    pub subtitle: Option<String>,
    pub bpm: Option<String>,
    pub initial_key: Option<String>,
    pub language: Option<String>,
    pub length: u64,
    pub album: Option<String>,
    pub album_artists: Vec<String>,
    pub artists: Vec<String>,
    pub genres: Vec<String>,
    pub picture: Option<Vec<u8>>,
}

#[verifier::ext_equal]
pub struct TrackDraftV {
    pub path: Seq<char>,
    pub filesize: u64,
    pub title: Seq<char>,
    pub track_number: i32,
    pub disc_number: i32,
    pub year: Option<i32>,
    pub release_date: Option<Seq<char>>,
    pub disc_title: Option<Seq<char>>,
    pub content_group: Option<Seq<char>>,
    pub subtitle: Option<Seq<char>>,
    pub bpm: Option<Seq<char>>,
    pub initial_key: Option<Seq<char>>,
    pub language: Option<Seq<char>>,
    pub length: u64,
    pub album: Option<Seq<char>>,
    pub album_artists: Seq<Seq<char>>,
    pub artists: Seq<Seq<char>>,
    pub genres: Seq<Seq<char>>,
    pub picture: Option<Seq<u8>>,
}

impl DeepView for TrackDraft {
    type V = TrackDraftV;

    open spec fn deep_view(&self) -> TrackDraftV {
        TrackDraftV {
            path: self.path@,
            filesize: self.filesize,
            title: self.title@,
            track_number: self.track_number,
            disc_number: self.disc_number,
            year: self.year,
            release_date: self.release_date.deep_view(),
            disc_title: self.disc_title.deep_view(),
            content_group: self.content_group.deep_view(),
            subtitle: self.subtitle.deep_view(),
            bpm: self.bpm.deep_view(),
            initial_key: self.initial_key.deep_view(),
            language: self.language.deep_view(),
            length: self.length,
            album: self.album.deep_view(),
            album_artists: self.album_artists.deep_view(),
            artists: self.artists.deep_view(),
            genres: self.genres.deep_view(),
            picture: self.picture.deep_view(),
        }
    }
}

/// The draft a well-formed tag yields: title taken as given, track and disc
/// numbers defaulting to 1.
pub open spec fn draft_of(tag: RawTagV, path: Seq<char>, filesize: u64) -> TrackDraftV {
    TrackDraftV {
        path,
        filesize,
        title: tag.title->Some_0,
        track_number: if tag.track_number is Some {
            tag.track_number->Some_0
        } else {
            1
        },
        disc_number: if tag.disc_number is Some {
            tag.disc_number->Some_0
        } else {
            1
        },
        year: tag.year,
        release_date: tag.release_date,
        disc_title: tag.disc_title,
        content_group: tag.content_group,
        subtitle: tag.subtitle,
        bpm: tag.bpm,
        initial_key: tag.initial_key,
        language: tag.language,
        length: tag.duration_secs,
        album: tag.album,
        album_artists: tag.album_artists,
        artists: tag.artists,
        genres: tag.genres,
        picture: tag.picture,
    }
}

impl TrackDraft {
    /// Validate a raw tag into a draft. The title is mandatory: a tag without
    /// one is rejected, and nothing else ever fails.
    pub fn from_tag(tag: RawTag, path: String, filesize: u64) -> (r: Result<
        TrackDraft,
        ExtractionError,
    >)
        ensures
            match r {
                Ok(d) => tag.title is Some && d.deep_view() == draft_of(
                    tag.deep_view(),
                    path@,
                    filesize,
                ),
                Err(e) => tag.title is None && e is MissingRequiredField,
            },
    {
        let title = match tag.title {
            Some(t) => t,
            None => {
                return Err(ExtractionError::MissingRequiredField);
            },
        };
        let track_number = match tag.track_number {
            Some(n) => n,
            None => 1,
        };
        let disc_number = match tag.disc_number {
            Some(n) => n,
            None => 1,
        };
        Ok(
            TrackDraft {
                path,
                filesize,
                title,
                track_number,
                disc_number,
                year: tag.year,
                release_date: tag.release_date,
                disc_title: tag.disc_title,
                content_group: tag.content_group,
                subtitle: tag.subtitle,
                bpm: tag.bpm,
                initial_key: tag.initial_key,
                language: tag.language,
                length: tag.duration_secs,
                album: tag.album,
                album_artists: tag.album_artists,
                artists: tag.artists,
                genres: tag.genres,
                picture: tag.picture,
            },
        )
    }
}

/// Copy an optional owned string.
pub(crate) fn copy_opt_string(o: &Option<String>) -> (r: Option<String>)
    ensures
        r.deep_view() == o.deep_view(),
{
    match o {
        Some(s) => Some(s.clone()),
        None => None,
    }
}

/// Copy a list of owned strings.
pub(crate) fn copy_strings(v: &Vec<String>) -> (r: Vec<String>)
    ensures
        r.deep_view() == v.deep_view(),
{
    let mut out: Vec<String> = Vec::new();
    let n = v.len();
    for i in 0..n
        invariant
            n == v.len(),
            out@.len() == i,
            out.deep_view() =~~= v.deep_view().take(i as int),
    {
        out.push(v[i].clone());
        proof {
            assert(out.deep_view() =~~= v.deep_view().take(i + 1));
        }
    }
    proof {
        assert(v.deep_view().take(n as int) =~~= v.deep_view());
    }
    out
}

/// Copy an optional byte buffer.
pub(crate) fn copy_opt_bytes(o: &Option<Vec<u8>>) -> (r: Option<Vec<u8>>)
    ensures
        r.deep_view() == o.deep_view(),
{
    match o {
        Some(d) => {
            let r = d.clone();
            proof {
                assert(r@ =~= d@);
                assert(r.deep_view() =~= d.deep_view());
            }
            Some(r)
        },
        None => None,
    }
}

impl RawTag {
    /// Copy the whole tag.
    pub fn duplicate(&self) -> (r: RawTag)
        ensures
            r.deep_view() == self.deep_view(),
    {
        let r = RawTag {
            title: copy_opt_string(&self.title),
            track_number: self.track_number,
            disc_number: self.disc_number,
            year: self.year,
            album: copy_opt_string(&self.album),
            release_date: copy_opt_string(&self.release_date),
            disc_title: copy_opt_string(&self.disc_title),
            content_group: copy_opt_string(&self.content_group),
            subtitle: copy_opt_string(&self.subtitle),
            bpm: copy_opt_string(&self.bpm),
            initial_key: copy_opt_string(&self.initial_key),
            language: copy_opt_string(&self.language),
            artists: copy_strings(&self.artists),
            album_artists: copy_strings(&self.album_artists),
            genres: copy_strings(&self.genres),
            picture: copy_opt_bytes(&self.picture),
            duration_secs: self.duration_secs,
        };
        proof {
            assert(r.deep_view() =~= self.deep_view());
        }
        r
    }
}

/// Materialize borrowed tag strings into owned ones.
pub fn vectorize_tags(tags: &Vec<&str>) -> (r: Vec<String>)
    ensures
        r.deep_view() == tags.deep_view(),
{
    let mut out: Vec<String> = Vec::new();
    let n = tags.len();
    for i in 0..n
        invariant
            n == tags.len(),
            out@.len() == i,
            out.deep_view() =~~= tags.deep_view().take(i as int),
    {
        out.push(tags[i].to_owned());
        proof {
            assert(out.deep_view() =~~= tags.deep_view().take(i + 1));
        }
    }
    proof {
        assert(tags.deep_view().take(n as int) =~~= tags.deep_view());
    }
    out
}

} // verus!
