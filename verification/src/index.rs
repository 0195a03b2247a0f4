//! Building the grouped index: one song at a time, grouped under the
//! album artist when present, else the artist, else into the unknown
//! bucket; albums are unique within an artist by exact name equality.

use vstd::prelude::*;

use crate::names::{
    extension_of, has_file_extension, str_eq,
};
use crate::{opt_name, Album, Artist, Metadata, MusicIndex, Song};

verus! {

/// The extensions the index accepts.
pub open spec fn is_audio_extension(e: Seq<char>) -> bool {
    e == "mp3"@ || e == "m4a"@ || e == "m4b"@ || e == "m4p"@ || e == "m4v"@
}

/// The name a song is grouped under: the album artist when present,
/// else the artist, else nothing.
pub open spec fn grouping_name(m: Metadata) -> Option<Seq<char>> {
    match m.album_artist {
        Some(a) => Some(a@),
        None => match m.artist {
            Some(a) => Some(a@),
            None => None,
        },
    }
}

/// The song derived from one file's metadata.
pub open spec fn song_of(m: Metadata, path: String) -> Song {
    Song {
        track: m.track,
        total_tracks: m.total_tracks,
        disc: m.disc,
        total_discs: m.total_discs,
        artist: m.artist,
        title: m.title,
        current_file: path,
    }
}

/// The first artist with this exact name, or -1.
pub open spec fn find_artist(artists: Seq<Artist>, name: Seq<char>) -> int
    decreases artists.len(),
{
    if artists.len() == 0 {
        -1
    } else if artists[0].name@ == name {
        0
    } else {
        let r = find_artist(artists.drop_first(), name);
        if r < 0 {
            -1
        } else {
            r + 1
        }
    }
}

/// The first album with this exact optional name (absent matches
/// absent), or -1.
pub open spec fn find_album(albums: Seq<Album>, name: Option<Seq<char>>) -> int
    decreases albums.len(),
{
    if albums.len() == 0 {
        -1
    } else if opt_name(albums[0].name) == name {
        0
    } else {
        let r = find_album(albums.drop_first(), name);
        if r < 0 {
            -1
        } else {
            r + 1
        }
    }
}

pub proof fn lemma_find_artist_at(artists: Seq<Artist>, name: Seq<char>, k: int)
    requires
        0 <= k < artists.len(),
        artists[k].name@ == name,
        forall|j: int| 0 <= j < k ==> artists[j].name@ != name,
    ensures
        find_artist(artists, name) == k,
    decreases artists.len(),
{
    if k > 0 {
        lemma_find_artist_at(artists.drop_first(), name, k - 1);
    }
}

pub proof fn lemma_find_artist_none(artists: Seq<Artist>, name: Seq<char>)
    requires
        forall|j: int| 0 <= j < artists.len() ==> artists[j].name@ != name,
    ensures
        find_artist(artists, name) == -1,
    decreases artists.len(),
{
    if artists.len() > 0 {
        lemma_find_artist_none(artists.drop_first(), name);
    }
}

pub proof fn lemma_find_album_at(albums: Seq<Album>, name: Option<Seq<char>>, k: int)
    requires
        0 <= k < albums.len(),
        opt_name(albums[k].name) == name,
        forall|j: int| 0 <= j < k ==> opt_name(albums[j].name) != name,
    ensures
        find_album(albums, name) == k,
    decreases albums.len(),
{
    if k > 0 {
        lemma_find_album_at(albums.drop_first(), name, k - 1);
    }
}

pub proof fn lemma_find_album_none(albums: Seq<Album>, name: Option<Seq<char>>)
    requires
        forall|j: int| 0 <= j < albums.len() ==> opt_name(albums[j].name) != name,
    ensures
        find_album(albums, name) == -1,
    decreases albums.len(),
{
    if albums.len() > 0 {
        lemma_find_album_none(albums.drop_first(), name);
    }
}

/// An album of one just-added song.
pub open spec fn is_new_album(al: Album, al_name: Option<Seq<char>>, si: usize) -> bool {
    opt_name(al.name) == al_name && al.songs@ == seq![si]
}

/// An artist holding exactly one new album of one just-added song.
pub open spec fn is_new_artist(ar: Artist, name: Seq<char>, al_name: Option<Seq<char>>, si: usize) -> bool {
    ar.name@ == name && ar.albums@.len() == 1 && is_new_album(ar.albums@[0], al_name, si)
}

/// How one artist changes when a song is filed under it: appended to
/// the first album of the same name, or into a fresh album.
pub open spec fn added_to_artist(olda: Artist, newa: Artist, al_name: Option<Seq<char>>, si: usize) -> bool {
    let li = find_album(olda.albums@, al_name);
    newa.name == olda.name && if li < 0 {
        newa.albums@.len() == olda.albums@.len() + 1 && newa.albums@.subrange(
            0,
            olda.albums@.len() as int,
        ) == olda.albums@ && is_new_album(newa.albums@.last(), al_name, si)
    } else {
        newa.albums@.len() == olda.albums@.len() && (forall|j: int|
            0 <= j < olda.albums@.len() && j != li ==> newa.albums@[j] == olda.albums@[j])
            && newa.albums@[li].name == olda.albums@[li].name && newa.albums@[li].songs@
            == olda.albums@[li].songs@.push(si)
    }
}

/// How the artist list changes when a song is filed under `name`:
/// appended under the first artist of that name, or under a fresh
/// artist at the end.
pub open spec fn added_to_artists(
    olds: Seq<Artist>,
    news: Seq<Artist>,
    name: Seq<char>,
    al_name: Option<Seq<char>>,
    si: usize,
) -> bool {
    let ai = find_artist(olds, name);
    if ai < 0 {
        news.len() == olds.len() + 1 && news.subrange(0, olds.len() as int) == olds
            && is_new_artist(news.last(), name, al_name, si)
    } else {
        news.len() == olds.len() && (forall|j: int|
            0 <= j < olds.len() && j != ai ==> news[j] == olds[j]) && added_to_artist(
            olds[ai],
            news[ai],
            al_name,
            si,
        )
    }
}

/// Every song index of the album is valid and the album is non-empty.
pub open spec fn album_wf(al: Album, n_songs: int) -> bool {
    al.songs@.len() >= 1 && forall|k: int|
        0 <= k < al.songs@.len() ==> (#[trigger] al.songs@[k] as int) < n_songs
}

pub open spec fn artist_wf(ar: Artist, n_songs: int) -> bool {
    forall|l: int| 0 <= l < ar.albums@.len() ==> album_wf(#[trigger] ar.albums@[l], n_songs)
}

pub open spec fn song_wf(s: Song) -> bool {
    has_file_extension(s.current_file@) && is_audio_extension(extension_of(s.current_file@))
}

/// The index invariant: every index referenced by an album or by the
/// unknown bucket is valid in `songs`, albums are non-empty, and every
/// indexed file carries a recognized audio extension.
pub open spec fn index_wf(idx: MusicIndex) -> bool {
    &&& forall|a: int|
        0 <= a < idx.artists@.len() ==> artist_wf(
            #[trigger] idx.artists@[a],
            idx.songs@.len() as int,
        )
    &&& forall|u: int|
        0 <= u < idx.unknown@.len() ==> (#[trigger] idx.unknown@[u] as int) < idx.songs@.len()
    &&& forall|i: int| 0 <= i < idx.songs@.len() ==> song_wf(#[trigger] idx.songs@[i])
}

fn clone_opt_string(o: &Option<String>) -> (r: Option<String>)
    ensures
        r == *o,
{
    match o {
        Some(s) => Some(s.clone()),
        None => None,
    }
}

fn find_artist_exec(artists: &Vec<Artist>, name: &str) -> (r: usize)
    ensures
        r <= artists@.len(),
        r < artists@.len() ==> find_artist(artists@, name@) == r as int,
        r == artists@.len() ==> find_artist(artists@, name@) == -1,
{
    let mut i: usize = 0;
    while i < artists.len()
        invariant
            i <= artists@.len(),
            forall|j: int| 0 <= j < i ==> artists@[j].name@ != name@,
        decreases artists@.len() - i,
    {
        if str_eq(artists[i].name.as_str(), name) {
            proof {
                lemma_find_artist_at(artists@, name@, i as int);
            }
            return i;
        }
        i = i + 1;
    }
    proof {
        lemma_find_artist_none(artists@, name@);
    }
    i
}

fn opt_name_eq(a: &Option<String>, b: &Option<String>) -> (r: bool)
    ensures
        r == (opt_name(*a) == opt_name(*b)),
{
    match (a, b) {
        (Some(x), Some(y)) => str_eq(x.as_str(), y.as_str()),
        (None, None) => true,
        _ => false,
    }
}

fn find_album_exec(albums: &Vec<Album>, name: &Option<String>) -> (r: usize)
    ensures
        r <= albums@.len(),
        r < albums@.len() ==> find_album(albums@, opt_name(*name)) == r as int,
        r == albums@.len() ==> find_album(albums@, opt_name(*name)) == -1,
{
    let mut i: usize = 0;
    while i < albums.len()
        invariant
            i <= albums@.len(),
            forall|j: int| 0 <= j < i ==> opt_name(albums@[j].name) != opt_name(*name),
        decreases albums@.len() - i,
    {
        if opt_name_eq(&albums[i].name, name) {
            proof {
                lemma_find_album_at(albums@, opt_name(*name), i as int);
            }
            return i;
        }
        i = i + 1;
    }
    proof {
        lemma_find_album_none(albums@, opt_name(*name));
    }
    i
}

impl MusicIndex {
    /// Files one song's metadata into the index: the song is appended
    /// to `songs`; it is then grouped under its album artist when
    /// present, else its artist, else its index is recorded in
    /// `unknown`.
    pub fn add(&mut self, m: &Metadata, path: String)
        requires
            has_file_extension(path@),
            is_audio_extension(extension_of(path@)),
        ensures
            final(self).music_dir == old(self).music_dir,
            final(self).songs@ == old(self).songs@.push(song_of(*m, path)),
            match grouping_name(*m) {
                None => {
                    &&& final(self).unknown@ == old(self).unknown@.push(
                        old(self).songs@.len() as usize,
                    )
                    &&& final(self).artists@ == old(self).artists@
                },
                Some(name) => {
                    &&& final(self).unknown@ == old(self).unknown@
                    &&& added_to_artists(
                        old(self).artists@,
                        final(self).artists@,
                        name,
                        opt_name(m.album),
                        old(self).songs@.len() as usize,
                    )
                },
            },
            index_wf(*old(self)) ==> index_wf(*final(self)),
    {
        let song_index = self.songs.len();
        let song = Song {
            track: m.track,
            total_tracks: m.total_tracks,
            disc: m.disc,
            total_discs: m.total_discs,
            artist: clone_opt_string(&m.artist),
            title: clone_opt_string(&m.title),
            current_file: path,
        };
        self.songs.push(song);

        let artist_name: String = match &m.album_artist {
            Some(a) => a.clone(),
            None => match &m.artist {
                Some(a) => a.clone(),
                None => {
                    self.unknown.push(song_index);
                    return ;
                },
            },
        };

        let ai = find_artist_exec(&self.artists, artist_name.as_str());
        if ai < self.artists.len() {
            let mut ar = self.artists.remove(ai);
            let ghost old_ar = ar;
            let li = find_album_exec(&ar.albums, &m.album);
            if li < ar.albums.len() {
                let mut al = ar.albums.remove(li);
                al.songs.push(song_index);
                ar.albums.insert(li, al);
                proof {
                    assert(ar.albums@ =~= old_ar.albums@.update(li as int, ar.albums@[li as int]));
                }
            } else {
                let mut songs_v: Vec<usize> = Vec::new();
                songs_v.push(song_index);
                ar.albums.push(Album { name: clone_opt_string(&m.album), songs: songs_v });
                proof {
                    assert(ar.albums@.subrange(0, old_ar.albums@.len() as int) =~= old_ar.albums@);
                }
            }
            self.artists.insert(ai, ar);
            proof {
                assert(self.artists@ =~= old(self).artists@.update(ai as int, ar));
            }
        } else {
            let mut songs_v: Vec<usize> = Vec::new();
            songs_v.push(song_index);
            let mut albums_v: Vec<Album> = Vec::new();
            albums_v.push(Album { name: clone_opt_string(&m.album), songs: songs_v });
            self.artists.push(Artist { name: artist_name, albums: albums_v });
            proof {
                assert(self.artists@.subrange(0, old(self).artists@.len() as int) =~= old(
                    self,
                ).artists@);
            }
        }
    }
}

} // verus!
