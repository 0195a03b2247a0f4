//! Indexing and reorganization planning for a music library.
//!
//! A flat stream of per-file tag metadata is grouped into an
//! Artist -> Album -> Song hierarchy (`MusicIndex`), consistency checks
//! report likely tag errors, and a planner computes the directory
//! creations and file moves that bring the files into a canonical
//! `Artist/Album/NN - Artist - Title.ext` layout.
//!
//! Paths are plain `String`s throughout; reading tags, walking
//! directories and applying the planned operations are left to the
//! surrounding program.

use vstd::prelude::*;
use vstd::utf8::encode_utf8;

pub mod check;
pub mod index;
pub mod laws;
pub mod names;
pub mod plan;
pub mod tag;

verus! {

/// One indexed audio file. Owned by `MusicIndex::songs`; referenced
/// elsewhere only by position in that vector.
#[derive(Clone, Debug, PartialEq)]
pub struct Song {
    pub track: Option<u16>,
    pub total_tracks: Option<u16>,
    pub disc: Option<u16>,
    pub total_discs: Option<u16>,
    pub artist: Option<String>,
    pub title: Option<String>,
    pub current_file: String,
}

/// An album under an artist: an optional name (absent only when the
/// file's album tag was absent) and the indices of its songs.
#[derive(Clone, Debug, PartialEq)]
pub struct Album {
    pub name: Option<String>,
    pub songs: Vec<usize>,
}

/// An artist with its albums, in first-seen order.
#[derive(Clone, Debug, PartialEq)]
pub struct Artist {
    pub name: String,
    pub albums: Vec<Album>,
}

/// The tag fields of one file, as the external tag reader reports them.
#[derive(Clone, Debug, PartialEq)]
pub struct Metadata {
    pub track: Option<u16>,
    pub total_tracks: Option<u16>,
    pub disc: Option<u16>,
    pub total_discs: Option<u16>,
    pub artist: Option<String>,
    pub album_artist: Option<String>,
    pub album: Option<String>,
    pub title: Option<String>,
}

impl Default for Metadata {
    /// All fields absent.
    fn default() -> (r: Self)
        ensures
            r.track is None,
            r.total_tracks is None,
            r.disc is None,
            r.total_discs is None,
            r.artist is None,
            r.album_artist is None,
            r.album is None,
            r.title is None,
    {
        Metadata {
            track: None,
            total_tracks: None,
            disc: None,
            total_discs: None,
            artist: None,
            album_artist: None,
            album: None,
            title: None,
        }
    }
}

/// The root aggregate: the scanned directory, the flat song list in
/// discovery order, the artist hierarchy in first-seen order, and the
/// indices of songs that have neither an artist nor an album artist.
#[derive(Clone, Debug, PartialEq)]
pub struct MusicIndex {
    pub music_dir: String,
    pub songs: Vec<Song>,
    pub artists: Vec<Artist>,
    pub unknown: Vec<usize>,
}

impl MusicIndex {
    /// An empty index over the given source directory.
    pub fn from(music_dir: String) -> (r: Self)
        ensures
            r.music_dir == music_dir,
            r.songs@ == Seq::<Song>::empty(),
            r.artists@ == Seq::<Artist>::empty(),
            r.unknown@ == Seq::<usize>::empty(),
    {
        MusicIndex { music_dir, songs: Vec::new(), artists: Vec::new(), unknown: Vec::new() }
    }
}

/// A single target directory to create.
#[derive(Clone, Debug, PartialEq)]
pub struct DirCreation {
    pub path: String,
}

/// An `(old, new)` path pair; move-vs-copy semantics are chosen by the
/// caller when the plan is applied, not stored on the operation.
#[derive(Clone, Debug, PartialEq)]
pub struct FileOperation {
    pub old: String,
    pub new: String,
}

/// Whether planned file operations are applied by renaming or copying.
#[derive(Copy, Clone, Debug, PartialEq, Eq, Structural)]
pub enum FileOpType {
    Move,
    Copy,
}

impl From<bool> for FileOpType {
    fn from(copy: bool) -> (r: Self) {
        if copy {
            FileOpType::Copy
        } else {
            FileOpType::Move
        }
    }
}

impl vstd::std_specs::convert::FromSpecImpl<bool> for FileOpType {
    open spec fn obeys_from_spec() -> bool {
        true
    }

    open spec fn from_spec(copy: bool) -> Self {
        if copy {
            FileOpType::Copy
        } else {
            FileOpType::Move
        }
    }
}

/// A patch of tag fields to write back to a file. A present empty
/// string (or zero) means "remove this field"; an absent field means
/// "do not touch it".
#[derive(Clone, Debug, PartialEq)]
pub struct TagUpdate {
    pub meta: Metadata,
}

/// One reorganization pass: the directories to create, in order,
/// followed by the file operations that depend on them.
#[derive(Clone, Debug, PartialEq)]
pub struct Changes {
    pub dir_creations: Vec<DirCreation>,
    pub file_operations: Vec<FileOperation>,
}

/// The settings the surrounding program hands to the engine.
#[derive(Clone, Debug, PartialEq)]
pub struct Args {
    pub music_dir: String,
    pub output_dir: String,
    pub verbosity: usize,
    pub op_type: FileOpType,
    pub assume_yes: bool,
    pub dry_run: bool,
    pub no_check: bool,
    pub keep_embedded_artworks: bool,
    pub no_cleanup: bool,
}

/// The string inside an optional name, or the empty sequence.
pub open spec fn opt_chars(o: Option<String>) -> Seq<char> {
    match o {
        Some(s) => s@,
        None => Seq::empty(),
    }
}

/// An optional name seen as an optional character sequence.
pub open spec fn opt_name(o: Option<String>) -> Option<Seq<char>> {
    match o {
        Some(s) => Some(s@),
        None => None,
    }
}

pub trait OptionAsStr {
    spec fn opt_str_spec(&self) -> Seq<char>;

    /// The contained string, or `""` when absent.
    fn opt_str(&self) -> (r: &str)
        ensures
            r@ == self.opt_str_spec(),
    ;
}

impl OptionAsStr for Option<String> {
    open spec fn opt_str_spec(&self) -> Seq<char> {
        opt_chars(*self)
    }

    fn opt_str(&self) -> (r: &str) {
        proof {
            reveal_strlit("");
        }
        match self {
            Some(s) => s.as_str(),
            None => "",
        }
    }
}

impl<'a> OptionAsStr for Option<&'a String> {
    open spec fn opt_str_spec(&self) -> Seq<char> {
        match *self {
            Some(s) => s@,
            None => Seq::empty(),
        }
    }

    fn opt_str(&self) -> (r: &str) {
        proof {
            reveal_strlit("");
        }
        match self {
            Some(s) => s.as_str(),
            None => "",
        }
    }
}

pub trait OptionLen {
    spec fn opt_len_spec(&self) -> usize;

    /// The byte length of the contained string, or 0 when absent.
    fn len(&self) -> (r: usize)
        ensures
            r == self.opt_len_spec(),
    ;
}

impl OptionLen for Option<String> {
    open spec fn opt_len_spec(&self) -> usize {
        match *self {
            Some(s) => encode_utf8(s@).len() as usize,
            None => 0,
        }
    }

    fn len(&self) -> (r: usize) {
        match self {
            Some(s) => s.as_str().len(),
            None => 0,
        }
    }
}

} // verus!
