//! The reorganization planner: from a built index and an output root,
//! the ordered directory creations and file operations that bring every
//! file to its canonical place. Existence of candidate directories is
//! supplied by the caller as a list of already-existing paths.

use vstd::prelude::*;

use crate::index::{album_wf, artist_wf, index_wf};
use crate::names::{
    chars_of, eq_ignore, eq_ignore_case, extension_of, extension_str, file_name_of, file_name_str,
    joined, join_path, push_all, push_chars, sanitize_name, sanitized, single_name, str_eq,
    string_of, track_chars, track_prefix,
};
use crate::{
    opt_chars, Album, Artist, Changes, DirCreation, FileOperation, MusicIndex, OptionAsStr, Song,
};

verus! {

/// Whether `p` is among the paths known to exist.
pub open spec fn in_paths(ex: Seq<Seq<char>>, p: Seq<char>) -> bool {
    exists|i: int| 0 <= i < ex.len() && ex[i] == p
}

pub open spec fn paths_view(ex: Seq<String>) -> Seq<Seq<char>> {
    ex.map_values(|s: String| s@)
}

pub open spec fn dirs_view(ds: Seq<DirCreation>) -> Seq<Seq<char>> {
    ds.map_values(|d: DirCreation| d.path@)
}

pub open spec fn ops_view(fs: Seq<FileOperation>) -> Seq<(Seq<char>, Seq<char>)> {
    fs.map_values(|f: FileOperation| (f.old@, f.new@))
}

/// The directory of one artist under the output root.
pub open spec fn artist_dir(out: Seq<char>, ar: Artist) -> Seq<char> {
    join_path(out, sanitized(ar.name@))
}

/// An album is flattened directly under the artist directory when it
/// has no name, its name is empty, or it holds exactly one song whose
/// album name is `"{title} - single"` up to ASCII case.
pub open spec fn is_single_album(al: Album, songs: Seq<Song>) -> bool {
    match al.name {
        None => true,
        Some(n) => n@.len() == 0 || (al.songs@.len() == 1 && match songs[al.songs@[0] as int].title {
            Some(t) => eq_ignore_case(n@, single_name(t@)),
            None => false,
        }),
    }
}

/// The directory of one album: a named album gets a subdirectory of
/// the artist directory, a nameless one stays in the artist directory.
pub open spec fn album_dir(out: Seq<char>, ar: Artist, al: Album) -> Seq<char> {
    match al.name {
        Some(n) => join_path(artist_dir(out, ar), sanitized(n@)),
        None => artist_dir(out, ar),
    }
}

/// Where the songs of this album are placed.
pub open spec fn song_dest_dir(out: Seq<char>, ar: Artist, al: Album, songs: Seq<Song>) -> Seq<
    char,
> {
    if is_single_album(al, songs) {
        artist_dir(out, ar)
    } else {
        album_dir(out, ar, al)
    }
}

/// A missing track number renders as 0 (that is, as `00`).
pub open spec fn track_of(t: Option<u16>) -> u16 {
    match t {
        Some(n) => n,
        None => 0,
    }
}

/// The planned file name of one song: for a single
/// `{artist} - {title}.{ext}`, in a regular album prefixed with
/// `{NN} - `; missing artist or title render as empty segments.
pub open spec fn song_file_name(single: bool, s: Song) -> Seq<char> {
    let base = sanitized(opt_chars(s.artist)) + " - "@ + sanitized(opt_chars(s.title)) + "."@
        + extension_of(s.current_file@);
    if single {
        base
    } else {
        track_prefix(track_of(s.track)) + " - "@ + base
    }
}

/// The full target path of one song of one album.
pub open spec fn song_target(out: Seq<char>, ar: Artist, al: Album, songs: Seq<Song>, s: Song) -> Seq<
    char,
> {
    join_path(song_dest_dir(out, ar, al, songs), song_file_name(is_single_album(al, songs), s))
}

/// The file operations of the first `k` songs of one album; a song
/// already at its target is skipped.
pub open spec fn album_ops(out: Seq<char>, ar: Artist, al: Album, songs: Seq<Song>, k: int) -> Seq<
    (Seq<char>, Seq<char>),
>
    decreases k,
{
    if k <= 0 {
        Seq::empty()
    } else {
        let prev = album_ops(out, ar, al, songs, k - 1);
        let s = songs[al.songs@[k - 1] as int];
        let t = song_target(out, ar, al, songs, s);
        if t == s.current_file@ {
            prev
        } else {
            prev.push((s.current_file@, t))
        }
    }
}

/// The file operations of the first `l` albums of one artist.
pub open spec fn artist_ops(out: Seq<char>, ar: Artist, songs: Seq<Song>, l: int) -> Seq<
    (Seq<char>, Seq<char>),
>
    decreases l,
{
    if l <= 0 {
        Seq::empty()
    } else {
        artist_ops(out, ar, songs, l - 1) + album_ops(
            out,
            ar,
            ar.albums@[l - 1],
            songs,
            ar.albums@[l - 1].songs@.len() as int,
        )
    }
}

/// The file operations of the first `a` artists.
pub open spec fn artists_ops(out: Seq<char>, artists: Seq<Artist>, songs: Seq<Song>, a: int) -> Seq<
    (Seq<char>, Seq<char>),
>
    decreases a,
{
    if a <= 0 {
        Seq::empty()
    } else {
        artists_ops(out, artists, songs, a - 1) + artist_ops(
            out,
            artists[a - 1],
            songs,
            artists[a - 1].albums@.len() as int,
        )
    }
}

/// Where songs without a usable artist are collected.
pub open spec fn unknown_dir(out: Seq<char>) -> Seq<char> {
    join_path(out, "unknown"@)
}

/// The target of an unknown-bucket song: same file name, under the
/// unknown directory.
pub open spec fn unknown_target(out: Seq<char>, s: Song) -> Seq<char> {
    join_path(unknown_dir(out), file_name_of(s.current_file@))
}

/// The file operations of the first `u` unknown-bucket songs.
pub open spec fn unknown_ops(out: Seq<char>, songs: Seq<Song>, unknown: Seq<usize>, u: int) -> Seq<
    (Seq<char>, Seq<char>),
>
    decreases u,
{
    if u <= 0 {
        Seq::empty()
    } else {
        let prev = unknown_ops(out, songs, unknown, u - 1);
        let s = songs[unknown[u - 1] as int];
        let t = unknown_target(out, s);
        if t == s.current_file@ {
            prev
        } else {
            prev.push((s.current_file@, t))
        }
    }
}

/// Every file operation of one plan, in order: all artists, then the
/// unknown bucket.
pub open spec fn plan_ops(idx: MusicIndex, out: Seq<char>) -> Seq<(Seq<char>, Seq<char>)> {
    artists_ops(out, idx.artists@, idx.songs@, idx.artists@.len() as int) + unknown_ops(
        out,
        idx.songs@,
        idx.unknown@,
        idx.unknown@.len() as int,
    )
}

/// The output root itself, when it does not exist yet.
pub open spec fn root_dir_part(out: Seq<char>, ex: Seq<Seq<char>>) -> Seq<Seq<char>> {
    if !in_paths(ex, out) {
        seq![out]
    } else {
        Seq::empty()
    }
}

/// The directory of one album, when one is needed and absent.
pub open spec fn album_dirs(out: Seq<char>, ar: Artist, al: Album, songs: Seq<Song>, ex: Seq<Seq<char>>) -> Seq<
    Seq<char>,
> {
    if !is_single_album(al, songs) && !in_paths(ex, album_dir(out, ar, al)) {
        seq![album_dir(out, ar, al)]
    } else {
        Seq::empty()
    }
}

/// The album directories of the first `l` albums of one artist.
pub open spec fn artist_albums_dirs(
    out: Seq<char>,
    ar: Artist,
    songs: Seq<Song>,
    ex: Seq<Seq<char>>,
    l: int,
) -> Seq<Seq<char>>
    decreases l,
{
    if l <= 0 {
        Seq::empty()
    } else {
        artist_albums_dirs(out, ar, songs, ex, l - 1) + album_dirs(out, ar, ar.albums@[l - 1], songs, ex)
    }
}

/// The artist directory, when absent, followed by its album
/// directories.
pub open spec fn artist_dirs(out: Seq<char>, ar: Artist, songs: Seq<Song>, ex: Seq<Seq<char>>) -> Seq<
    Seq<char>,
> {
    (if !in_paths(ex, artist_dir(out, ar)) {
        seq![artist_dir(out, ar)]
    } else {
        Seq::empty()
    }) + artist_albums_dirs(out, ar, songs, ex, ar.albums@.len() as int)
}

/// The directories of the first `a` artists.
pub open spec fn artists_dirs(
    out: Seq<char>,
    artists: Seq<Artist>,
    songs: Seq<Song>,
    ex: Seq<Seq<char>>,
    a: int,
) -> Seq<Seq<char>>
    decreases a,
{
    if a <= 0 {
        Seq::empty()
    } else {
        artists_dirs(out, artists, songs, ex, a - 1) + artist_dirs(out, artists[a - 1], songs, ex)
    }
}

/// The unknown directory, when needed and absent.
pub open spec fn unknown_dir_part(out: Seq<char>, ex: Seq<Seq<char>>, n_unknown: int) -> Seq<
    Seq<char>,
> {
    if n_unknown > 0 && !in_paths(ex, unknown_dir(out)) {
        seq![unknown_dir(out)]
    } else {
        Seq::empty()
    }
}

/// Every directory creation of one plan, in order: the output root,
/// then per artist its directory and album directories, then the
/// unknown directory.
pub open spec fn plan_dirs(idx: MusicIndex, out: Seq<char>, ex: Seq<Seq<char>>) -> Seq<Seq<char>> {
    root_dir_part(out, ex) + artists_dirs(out, idx.artists@, idx.songs@, ex, idx.artists@.len() as int)
        + unknown_dir_part(out, ex, idx.unknown@.len() as int)
}

/// Whether `p` is among the given existing paths.
fn path_exists(existing: &Vec<String>, p: &str) -> (r: bool)
    ensures
        r == in_paths(paths_view(existing@), p@),
{
    let mut i: usize = 0;
    while i < existing.len()
        invariant
            i <= existing@.len(),
            forall|j: int| 0 <= j < i ==> paths_view(existing@)[j] != p@,
        decreases existing@.len() - i,
    {
        if str_eq(existing[i].as_str(), p) {
            proof {
                assert(paths_view(existing@)[i as int] == p@);
            }
            return true;
        }
        i = i + 1;
    }
    false
}

impl Changes {
    /// Computes one reorganization pass over a built index: directory
    /// creations for every needed directory not listed in `existing`,
    /// and a file operation for every song not already at its target.
    pub fn from(index: &MusicIndex, output_dir: &String, existing: &Vec<String>) -> (r: Self)
        requires
            index_wf(*index),
        ensures
            dirs_view(r.dir_creations@) == plan_dirs(*index, output_dir@, paths_view(existing@)),
            ops_view(r.file_operations@) == plan_ops(*index, output_dir@),
    {
        let ghost ex = paths_view(existing@);
        let ghost out = output_dir@;
        let ghost songs_g = index.songs@;
        let ghost artists_g = index.artists@;

        let mut dir_creations: Vec<DirCreation> = Vec::new();
        let mut file_operations: Vec<FileOperation> = Vec::new();

        if !path_exists(existing, output_dir.as_str()) {
            dir_creations.push(DirCreation { path: output_dir.clone() });
        }
        proof {
            assert(dirs_view(dir_creations@) =~= root_dir_part(out, ex));
        }

        let n = index.artists.len();
        let mut a: usize = 0;
        while a < n
            invariant
                index_wf(*index),
                ex == paths_view(existing@),
                out == output_dir@,
                songs_g == index.songs@,
                artists_g == index.artists@,
                n == artists_g.len(),
                a <= n,
                dirs_view(dir_creations@) == root_dir_part(out, ex) + artists_dirs(
                    out,
                    artists_g,
                    songs_g,
                    ex,
                    a as int,
                ),
                ops_view(file_operations@) == artists_ops(out, artists_g, songs_g, a as int),
            decreases n - a,
        {
            let ghost ar_g = artists_g[a as int];
            let san_artist = sanitize_name(index.artists[a].name.as_str());
            let ar_dir = joined(output_dir.as_str(), san_artist.as_str());
            proof {
                assert(ar_dir@ == artist_dir(out, ar_g));
            }
            if !path_exists(existing, ar_dir.as_str()) {
                let ghost before = dir_creations@;
                dir_creations.push(DirCreation { path: ar_dir.clone() });
                proof {
                    assert(dirs_view(dir_creations@) =~= dirs_view(before).push(ar_dir@));
                }
            }
            proof {
                assert(dirs_view(dir_creations@) =~= root_dir_part(out, ex) + artists_dirs(
                    out,
                    artists_g,
                    songs_g,
                    ex,
                    a as int,
                ) + (if !in_paths(ex, artist_dir(out, ar_g)) {
                    seq![artist_dir(out, ar_g)]
                } else {
                    Seq::<Seq<char>>::empty()
                }));
            }

            let m = index.artists[a].albums.len();
            let mut l: usize = 0;
            while l < m
                invariant
                    index_wf(*index),
                    ex == paths_view(existing@),
                    out == output_dir@,
                    songs_g == index.songs@,
                    artists_g == index.artists@,
                    n == artists_g.len(),
                    a < n,
                    ar_g == artists_g[a as int],
                    m == ar_g.albums@.len(),
                    l <= m,
                    ar_dir@ == artist_dir(out, ar_g),
                    dirs_view(dir_creations@) == root_dir_part(out, ex) + artists_dirs(
                        out,
                        artists_g,
                        songs_g,
                        ex,
                        a as int,
                    ) + (if !in_paths(ex, artist_dir(out, ar_g)) {
                        seq![artist_dir(out, ar_g)]
                    } else {
                        Seq::<Seq<char>>::empty()
                    }) + artist_albums_dirs(out, ar_g, songs_g, ex, l as int),
                    ops_view(file_operations@) == artists_ops(out, artists_g, songs_g, a as int)
                        + artist_ops(out, ar_g, songs_g, l as int),
                decreases m - l,
            {
                let ghost al_g = ar_g.albums@[l as int];
                proof {
                    assert(artist_wf(ar_g, songs_g.len() as int));
                    assert(album_wf(al_g, songs_g.len() as int));
                }

                // single-or-album decision
                let first_si = index.artists[a].albums[l].songs[0];
                let single: bool = match &index.artists[a].albums[l].name {
                    None => true,
                    Some(nm) => {
                        if nm.as_str().is_empty() {
                            true
                        } else if index.artists[a].albums[l].songs.len() == 1 {
                            match &index.songs[first_si].title {
                                Some(t) => {
                                    let mut sn = chars_of(t.as_str());
                                    push_all(&mut sn, " - single");
                                    let sn_str = string_of(&sn);
                                    eq_ignore(nm.as_str(), sn_str.as_str())
                                },
                                None => false,
                            }
                        } else {
                            false
                        }
                    },
                };
                proof {
                    assert(single == is_single_album(al_g, songs_g));
                }

                let al_dir: String = match &index.artists[a].albums[l].name {
                    Some(nm) => {
                        let san_album = sanitize_name(nm.as_str());
                        joined(ar_dir.as_str(), san_album.as_str())
                    },
                    None => ar_dir.clone(),
                };
                proof {
                    assert(al_dir@ == album_dir(out, ar_g, al_g));
                }

                if !single && !path_exists(existing, al_dir.as_str()) {
                    let ghost before = dir_creations@;
                    dir_creations.push(DirCreation { path: al_dir.clone() });
                    proof {
                        assert(dirs_view(dir_creations@) =~= dirs_view(before).push(al_dir@));
                    }
                }
                proof {
                    assert(artist_albums_dirs(out, ar_g, songs_g, ex, l + 1)
                        =~= artist_albums_dirs(out, ar_g, songs_g, ex, l as int) + album_dirs(
                        out,
                        ar_g,
                        al_g,
                        songs_g,
                        ex,
                    ));
                    assert(dirs_view(dir_creations@) =~= root_dir_part(out, ex) + artists_dirs(
                        out,
                        artists_g,
                        songs_g,
                        ex,
                        a as int,
                    ) + (if !in_paths(ex, artist_dir(out, ar_g)) {
                        seq![artist_dir(out, ar_g)]
                    } else {
                        Seq::<Seq<char>>::empty()
                    }) + artist_albums_dirs(out, ar_g, songs_g, ex, l + 1));
                }

                let cnt = index.artists[a].albums[l].songs.len();
                let mut k: usize = 0;
                while k < cnt
                    invariant
                        index_wf(*index),
                        ex == paths_view(existing@),
                        out == output_dir@,
                        songs_g == index.songs@,
                        artists_g == index.artists@,
                        n == artists_g.len(),
                        a < n,
                        ar_g == artists_g[a as int],
                        m == ar_g.albums@.len(),
                        l < m,
                        al_g == ar_g.albums@[l as int],
                        cnt == al_g.songs@.len(),
                        k <= cnt,
                        ar_dir@ == artist_dir(out, ar_g),
                        al_dir@ == album_dir(out, ar_g, al_g),
                        single == is_single_album(al_g, songs_g),
                        ops_view(file_operations@) == artists_ops(out, artists_g, songs_g, a as int)
                            + artist_ops(out, ar_g, songs_g, l as int) + album_ops(
                            out,
                            ar_g,
                            al_g,
                            songs_g,
                            k as int,
                        ),
                    decreases cnt - k,
                {
                    proof {
                        assert(artist_wf(ar_g, songs_g.len() as int));
                        assert(album_wf(al_g, songs_g.len() as int));
                    }
                    let si = index.artists[a].albums[l].songs[k];
                    let ghost s_g = songs_g[si as int];
                    let ext = extension_str(index.songs[si].current_file.as_str());

                    let mut fname: Vec<char> = Vec::new();
                    if !single {
                        let tn: u16 = match index.songs[si].track {
                            Some(t) => t,
                            None => 0,
                        };
                        let tp = track_chars(tn);
                        push_chars(&mut fname, &tp);
                        push_all(&mut fname, " - ");
                    }
                    let san_s_artist = sanitize_name(index.songs[si].artist.opt_str());
                    push_all(&mut fname, san_s_artist.as_str());
                    push_all(&mut fname, " - ");
                    let san_s_title = sanitize_name(index.songs[si].title.opt_str());
                    push_all(&mut fname, san_s_title.as_str());
                    push_all(&mut fname, ".");
                    push_all(&mut fname, ext.as_str());
                    proof {
                        assert(fname@ =~= song_file_name(single, s_g));
                    }

                    let fname_str = string_of(&fname);
                    let new_file = if single {
                        joined(ar_dir.as_str(), fname_str.as_str())
                    } else {
                        joined(al_dir.as_str(), fname_str.as_str())
                    };
                    proof {
                        assert(new_file@ == song_target(out, ar_g, al_g, songs_g, s_g));
                    }

                    if !str_eq(new_file.as_str(), index.songs[si].current_file.as_str()) {
                        let ghost before = file_operations@;
                        file_operations.push(
                            FileOperation { old: index.songs[si].current_file.clone(), new: new_file },
                        );
                        proof {
                            assert(ops_view(file_operations@) =~= ops_view(before).push(
                                (s_g.current_file@, song_target(out, ar_g, al_g, songs_g, s_g)),
                            ));
                        }
                    }
                    k = k + 1;
                    proof {
                        assert(ops_view(file_operations@) =~= artists_ops(
                            out,
                            artists_g,
                            songs_g,
                            a as int,
                        ) + artist_ops(out, ar_g, songs_g, l as int) + album_ops(
                            out,
                            ar_g,
                            al_g,
                            songs_g,
                            k as int,
                        ));
                    }
                }

                l = l + 1;
                proof {
                    assert(artist_ops(out, ar_g, songs_g, l as int) =~= artist_ops(
                        out,
                        ar_g,
                        songs_g,
                        l - 1,
                    ) + album_ops(out, ar_g, al_g, songs_g, al_g.songs@.len() as int));
                    assert(ops_view(file_operations@) =~= artists_ops(out, artists_g, songs_g, a as int)
                        + artist_ops(out, ar_g, songs_g, l as int));
                }
            }

            a = a + 1;
            proof {
                assert(artists_dirs(out, artists_g, songs_g, ex, a as int) =~= artists_dirs(
                    out,
                    artists_g,
                    songs_g,
                    ex,
                    a - 1,
                ) + artist_dirs(out, ar_g, songs_g, ex));
                assert(dirs_view(dir_creations@) =~= root_dir_part(out, ex) + artists_dirs(
                    out,
                    artists_g,
                    songs_g,
                    ex,
                    a as int,
                ));
                assert(artists_ops(out, artists_g, songs_g, a as int) =~= artists_ops(
                    out,
                    artists_g,
                    songs_g,
                    a - 1,
                ) + artist_ops(out, ar_g, songs_g, ar_g.albums@.len() as int));
                assert(ops_view(file_operations@) =~= artists_ops(out, artists_g, songs_g, a as int));
            }
        }

        // the unknown bucket: same file names, under one directory
        if index.unknown.len() > 0 {
            let unk = joined(output_dir.as_str(), "unknown");
            proof {
                assert(unk@ == unknown_dir(out));
            }
            if !path_exists(existing, unk.as_str()) {
                let ghost before = dir_creations@;
                dir_creations.push(DirCreation { path: unk.clone() });
                proof {
                    assert(dirs_view(dir_creations@) =~= dirs_view(before).push(unk@));
                }
            }
            proof {
                assert(dirs_view(dir_creations@) =~= plan_dirs(*index, out, ex));
            }

            let u_count = index.unknown.len();
            let mut u: usize = 0;
            while u < u_count
                invariant
                    index_wf(*index),
                    out == output_dir@,
                    songs_g == index.songs@,
                    artists_g == index.artists@,
                    u_count == index.unknown@.len(),
                    u <= u_count,
                    unk@ == unknown_dir(out),
                    ops_view(file_operations@) == artists_ops(
                        out,
                        artists_g,
                        songs_g,
                        artists_g.len() as int,
                    ) + unknown_ops(out, songs_g, index.unknown@, u as int),
                decreases u_count - u,
            {
                let si = index.unknown[u];
                let ghost s_g = songs_g[si as int];
                let keep_name = file_name_str(index.songs[si].current_file.as_str());
                let new_file = joined(unk.as_str(), keep_name.as_str());
                proof {
                    assert(new_file@ == unknown_target(out, s_g));
                }
                if !str_eq(new_file.as_str(), index.songs[si].current_file.as_str()) {
                    let ghost before = file_operations@;
                    file_operations.push(
                        FileOperation { old: index.songs[si].current_file.clone(), new: new_file },
                    );
                    proof {
                        assert(ops_view(file_operations@) =~= ops_view(before).push(
                            (s_g.current_file@, unknown_target(out, s_g)),
                        ));
                    }
                }
                u = u + 1;
                proof {
                    assert(ops_view(file_operations@) =~= artists_ops(
                        out,
                        artists_g,
                        songs_g,
                        artists_g.len() as int,
                    ) + unknown_ops(out, songs_g, index.unknown@, u as int));
                }
            }
        }
        proof {
            assert(dirs_view(dir_creations@) =~= plan_dirs(*index, out, ex));
            assert(ops_view(file_operations@) =~= plan_ops(*index, out));
        }

        Changes { dir_creations, file_operations }
    }

    /// A cursor over the plan's directory creations, in order.
    pub fn dir_creation_iter(&self) -> (r: DirCreationIter<'_>)
        ensures
            r.changes == self,
            r.pos == 0,
    {
        DirCreationIter::from(self)
    }

    /// A cursor over the plan's file operations, in order, tagged with
    /// the semantics the caller will apply them with.
    pub fn file_operation_iter(&self, op_type: crate::FileOpType) -> (r: FileOperationIter<'_>)
        ensures
            r.changes == self,
            r.op_type == op_type,
            r.pos == 0,
    {
        FileOperationIter::from(self, op_type)
    }
}

/// Hands out the plan's directory creations one at a time, in the
/// order they must be applied.
pub struct DirCreationIter<'a> {
    pub changes: &'a Changes,
    pub pos: usize,
}

impl<'a> DirCreationIter<'a> {
    pub fn from(changes: &'a Changes) -> (r: Self)
        ensures
            r.changes == changes,
            r.pos == 0,
    {
        DirCreationIter { changes, pos: 0 }
    }

    /// The next directory creation, or nothing once all are handed
    /// out.
    pub fn next(&mut self) -> (r: Option<&'a DirCreation>)
        ensures
            final(self).changes == old(self).changes,
            match r {
                Some(d) => {
                    &&& (old(self).pos as int) < old(self).changes.dir_creations@.len()
                    &&& *d == old(self).changes.dir_creations@[old(self).pos as int]
                    &&& final(self).pos == old(self).pos + 1
                },
                None => {
                    &&& (old(self).pos as int) >= old(self).changes.dir_creations@.len()
                    &&& final(self).pos == old(self).pos
                },
            },
    {
        if self.pos < self.changes.dir_creations.len() {
            let d = &self.changes.dir_creations[self.pos];
            self.pos = self.pos + 1;
            Some(d)
        } else {
            None
        }
    }
}

/// Hands out the plan's file operations one at a time, in order,
/// together with the move-or-copy choice made by the caller.
pub struct FileOperationIter<'a> {
    pub changes: &'a Changes,
    pub op_type: crate::FileOpType,
    pub pos: usize,
}

impl<'a> FileOperationIter<'a> {
    pub fn from(changes: &'a Changes, op_type: crate::FileOpType) -> (r: Self)
        ensures
            r.changes == changes,
            r.op_type == op_type,
            r.pos == 0,
    {
        FileOperationIter { changes, op_type, pos: 0 }
    }

    /// The next file operation, or nothing once all are handed out.
    pub fn next(&mut self) -> (r: Option<&'a FileOperation>)
        ensures
            final(self).changes == old(self).changes,
            final(self).op_type == old(self).op_type,
            match r {
                Some(f) => {
                    &&& (old(self).pos as int) < old(self).changes.file_operations@.len()
                    &&& *f == old(self).changes.file_operations@[old(self).pos as int]
                    &&& final(self).pos == old(self).pos + 1
                },
                None => {
                    &&& (old(self).pos as int) >= old(self).changes.file_operations@.len()
                    &&& final(self).pos == old(self).pos
                },
            },
    {
        if self.pos < self.changes.file_operations.len() {
            let f = &self.changes.file_operations[self.pos];
            self.pos = self.pos + 1;
            Some(f)
        } else {
            None
        }
    }
}

} // verus!
