//! Global properties of the planner, chiefly: a computed plan never
//! moves a file onto itself, and once a plan has been applied, planning
//! again produces an empty plan.

use vstd::prelude::*;

use crate::index::index_wf;
use crate::names::{
    dec_digits, digit_char, extension_of, file_name_of, has_file_extension, is_forbidden_char,
    join_path, last_index_of, lemma_last_index_of_props, lemma_last_index_of_unique,
    replace_boundary_dots, sanitized, strip_forbidden, track_prefix,
};
use crate::plan::{
    album_dir, album_dirs, album_ops, artist_albums_dirs, artist_dir, artist_dirs, artist_ops,
    artists_dirs, artists_ops, in_paths, is_single_album, plan_dirs, plan_ops, root_dir_part,
    song_dest_dir, song_file_name, song_target, track_of, unknown_dir, unknown_dir_part,
    unknown_ops, unknown_target,
};
use crate::{opt_chars, opt_name, Album, Artist, MusicIndex, Song};

verus! {

proof fn lemma_sanitized_no_slash(s: Seq<char>)
    ensures
        forall|i: int| 0 <= i < sanitized(s).len() ==> sanitized(s)[i] != '/',
{
    let st = strip_forbidden(s);
    assert forall|i: int| 0 <= i < st.len() implies !is_forbidden_char(st[i]) by {
        s.lemma_filter_pred(|c: char| !is_forbidden_char(c), i);
    }
    let r = replace_boundary_dots(st);
    assert forall|i: int| 0 <= i < r.len() implies r[i] != '/' by {
        assert(r[i] == st[i] || r[i] == '_');
    }
}

proof fn lemma_file_name_no_slash(p: Seq<char>)
    ensures
        forall|i: int| 0 <= i < file_name_of(p).len() ==> file_name_of(p)[i] != '/',
{
    lemma_last_index_of_props(p, '/');
}

proof fn lemma_extension_chars(p: Seq<char>)
    ensures
        forall|i: int|
            0 <= i < extension_of(p).len() ==> (extension_of(p)[i] != '.' && extension_of(p)[i]
                != '/'),
{
    lemma_file_name_no_slash(p);
    lemma_last_index_of_props(file_name_of(p), '.');
}

proof fn lemma_join_file_name(dir: Seq<char>, fname: Seq<char>)
    requires
        forall|i: int| 0 <= i < fname.len() ==> fname[i] != '/',
    ensures
        file_name_of(join_path(dir, fname)) == fname,
{
    let j = join_path(dir, fname);
    assert(j[dir.len() as int] == '/');
    assert forall|i: int| dir.len() < i < j.len() implies j[i] != '/' by {
        assert(j[i] == fname[i - dir.len() - 1]);
    }
    lemma_last_index_of_unique(j, '/', dir.len() as int);
    assert(file_name_of(j) =~= fname);
}

proof fn lemma_extension_of_named(dir: Seq<char>, stem: Seq<char>, ext: Seq<char>)
    requires
        stem.len() >= 1,
        forall|i: int| 0 <= i < stem.len() ==> stem[i] != '/',
        forall|i: int| 0 <= i < ext.len() ==> (ext[i] != '.' && ext[i] != '/'),
    ensures
        has_file_extension(join_path(dir, stem + seq!['.'] + ext)),
        extension_of(join_path(dir, stem + seq!['.'] + ext)) == ext,
        file_name_of(join_path(dir, stem + seq!['.'] + ext)) == stem + seq!['.'] + ext,
{
    let fname = stem + seq!['.'] + ext;
    assert forall|i: int| 0 <= i < fname.len() implies fname[i] != '/' by {
        if i < stem.len() {
            assert(fname[i] == stem[i]);
        } else if i == stem.len() {
            assert(fname[i] == '.');
        } else {
            assert(fname[i] == ext[i - stem.len() - 1]);
        }
    }
    lemma_join_file_name(dir, fname);
    assert(fname[stem.len() as int] == '.');
    assert forall|i: int| stem.len() < i < fname.len() implies fname[i] != '.' by {
        assert(fname[i] == ext[i - stem.len() - 1]);
    }
    lemma_last_index_of_unique(fname, '.', stem.len() as int);
    assert(extension_of(join_path(dir, fname)) =~= ext);
}

proof fn lemma_dec_digits_no_slash(n: nat)
    ensures
        forall|i: int| 0 <= i < dec_digits(n).len() ==> dec_digits(n)[i] != '/',
    decreases n,
{
    if n >= 10 {
        lemma_dec_digits_no_slash(n / 10);
        let prev = dec_digits(n / 10);
        assert forall|i: int| 0 <= i < dec_digits(n).len() implies dec_digits(n)[i] != '/' by {
            if i < prev.len() {
                assert(dec_digits(n)[i] == prev[i]);
            } else {
                assert(dec_digits(n)[i] == digit_char(n % 10));
            }
        }
    }
}

proof fn lemma_track_prefix_no_slash(n: u16)
    ensures
        forall|i: int| 0 <= i < track_prefix(n).len() ==> track_prefix(n)[i] != '/',
{
    lemma_dec_digits_no_slash(n as nat);
}

/// The planned path of a song keeps the extension of its current file,
/// and has one.
proof fn lemma_song_target_extension(
    out: Seq<char>,
    ar: Artist,
    al: Album,
    songs: Seq<Song>,
    s: Song,
)
    ensures
        has_file_extension(song_target(out, ar, al, songs, s)),
        extension_of(song_target(out, ar, al, songs, s)) == extension_of(s.current_file@),
{
    reveal_strlit(" - ");
    reveal_strlit(".");
    let single = is_single_album(al, songs);
    let ext = extension_of(s.current_file@);
    let base_stem = sanitized(opt_chars(s.artist)) + " - "@ + sanitized(opt_chars(s.title));
    let stem = if single {
        base_stem
    } else {
        track_prefix(track_of(s.track)) + " - "@ + base_stem
    };
    lemma_extension_chars(s.current_file@);
    lemma_sanitized_no_slash(opt_chars(s.artist));
    lemma_sanitized_no_slash(opt_chars(s.title));
    lemma_track_prefix_no_slash(track_of(s.track));
    assert(" - "@.len() == 3 && " - "@[0] == ' ' && " - "@[1] == '-' && " - "@[2] == ' ');
    let a_len = sanitized(opt_chars(s.artist)).len() as int;
    let t_len = sanitized(opt_chars(s.title)).len() as int;
    assert forall|i: int| 0 <= i < base_stem.len() implies base_stem[i] != '/' by {
        if i < a_len {
            assert(base_stem[i] == sanitized(opt_chars(s.artist))[i]);
        } else if i < a_len + 3 {
            assert(base_stem[i] == " - "@[i - a_len]);
        } else {
            assert(base_stem[i] == sanitized(opt_chars(s.title))[i - a_len - 3]);
        }
    }
    let p_len = track_prefix(track_of(s.track)).len() as int;
    assert forall|i: int| 0 <= i < stem.len() implies stem[i] != '/' by {
        if single {
        } else {
            if i < p_len {
                assert(stem[i] == track_prefix(track_of(s.track))[i]);
            } else if i < p_len + 3 {
                assert(stem[i] == " - "@[i - p_len]);
            } else {
                assert(stem[i] == base_stem[i - p_len - 3]);
            }
        }
    }
    assert(song_file_name(single, s) =~= stem + seq!['.'] + ext);
    lemma_extension_of_named(song_dest_dir(out, ar, al, songs), stem, ext);
}

/// The planned path of an unknown-bucket song keeps its file name.
proof fn lemma_unknown_target_file_name(out: Seq<char>, s: Song)
    ensures
        file_name_of(unknown_target(out, s)) == file_name_of(s.current_file@),
{
    lemma_file_name_no_slash(s.current_file@);
    lemma_join_file_name(unknown_dir(out), file_name_of(s.current_file@));
}

proof fn lemma_album_ops_nontrivial(out: Seq<char>, ar: Artist, al: Album, songs: Seq<Song>, k: int)
    ensures
        forall|i: int|
            0 <= i < album_ops(out, ar, al, songs, k).len() ==> (#[trigger] album_ops(
                out,
                ar,
                al,
                songs,
                k,
            )[i]).0 != album_ops(out, ar, al, songs, k)[i].1,
    decreases k,
{
    if k > 0 {
        lemma_album_ops_nontrivial(out, ar, al, songs, k - 1);
        let prev = album_ops(out, ar, al, songs, k - 1);
        let cur = album_ops(out, ar, al, songs, k);
        assert forall|i: int| 0 <= i < cur.len() implies (cur[i]).0 != cur[i].1 by {
            if i < prev.len() {
                assert(cur[i] == prev[i]);
            }
        }
    }
}

proof fn lemma_artist_ops_nontrivial(out: Seq<char>, ar: Artist, songs: Seq<Song>, l: int)
    ensures
        forall|i: int|
            0 <= i < artist_ops(out, ar, songs, l).len() ==> (#[trigger] artist_ops(
                out,
                ar,
                songs,
                l,
            )[i]).0 != artist_ops(out, ar, songs, l)[i].1,
    decreases l,
{
    if l > 0 {
        lemma_artist_ops_nontrivial(out, ar, songs, l - 1);
        lemma_album_ops_nontrivial(
            out,
            ar,
            ar.albums@[l - 1],
            songs,
            ar.albums@[l - 1].songs@.len() as int,
        );
        let prev = artist_ops(out, ar, songs, l - 1);
        let tail = album_ops(out, ar, ar.albums@[l - 1], songs, ar.albums@[l - 1].songs@.len() as int);
        let cur = artist_ops(out, ar, songs, l);
        assert forall|i: int| 0 <= i < cur.len() implies (cur[i]).0 != cur[i].1 by {
            if i < prev.len() {
                assert(cur[i] == prev[i]);
            } else {
                assert(cur[i] == tail[i - prev.len()]);
            }
        }
    }
}

proof fn lemma_artists_ops_nontrivial(out: Seq<char>, artists: Seq<Artist>, songs: Seq<Song>, a: int)
    ensures
        forall|i: int|
            0 <= i < artists_ops(out, artists, songs, a).len() ==> (#[trigger] artists_ops(
                out,
                artists,
                songs,
                a,
            )[i]).0 != artists_ops(out, artists, songs, a)[i].1,
    decreases a,
{
    if a > 0 {
        lemma_artists_ops_nontrivial(out, artists, songs, a - 1);
        lemma_artist_ops_nontrivial(out, artists[a - 1], songs, artists[a - 1].albums@.len() as int);
        let prev = artists_ops(out, artists, songs, a - 1);
        let tail = artist_ops(out, artists[a - 1], songs, artists[a - 1].albums@.len() as int);
        let cur = artists_ops(out, artists, songs, a);
        assert forall|i: int| 0 <= i < cur.len() implies (cur[i]).0 != cur[i].1 by {
            if i < prev.len() {
                assert(cur[i] == prev[i]);
            } else {
                assert(cur[i] == tail[i - prev.len()]);
            }
        }
    }
}

proof fn lemma_unknown_ops_nontrivial(out: Seq<char>, songs: Seq<Song>, unknown: Seq<usize>, u: int)
    ensures
        forall|i: int|
            0 <= i < unknown_ops(out, songs, unknown, u).len() ==> (#[trigger] unknown_ops(
                out,
                songs,
                unknown,
                u,
            )[i]).0 != unknown_ops(out, songs, unknown, u)[i].1,
    decreases u,
{
    if u > 0 {
        lemma_unknown_ops_nontrivial(out, songs, unknown, u - 1);
        let prev = unknown_ops(out, songs, unknown, u - 1);
        let cur = unknown_ops(out, songs, unknown, u);
        assert forall|i: int| 0 <= i < cur.len() implies (cur[i]).0 != cur[i].1 by {
            if i < prev.len() {
                assert(cur[i] == prev[i]);
            }
        }
    }
}

/// The song at placement `(x, l, k)` of the hierarchy: song `k` of
/// album `l` of artist `x`.
pub open spec fn placed_song(idx: MusicIndex, x: int, l: int, k: int) -> Song {
    idx.songs@[idx.artists@[x].albums@[l].songs@[k] as int]
}

/// The planned target path of that song.
pub open spec fn placed_target(idx: MusicIndex, out: Seq<char>, x: int, l: int, k: int) -> Seq<
    char,
> {
    song_target(
        out,
        idx.artists@[x],
        idx.artists@[x].albums@[l],
        idx.songs@,
        placed_song(idx, x, l, k),
    )
}

pub open spec fn placement_in_range(idx: MusicIndex, x: int, l: int, k: int) -> bool {
    0 <= x < idx.artists@.len() && 0 <= l < idx.artists@[x].albums@.len() && 0 <= k
        < idx.artists@[x].albums@[l].songs@.len()
}

/// The song at position `u` of the unknown bucket.
pub open spec fn unknown_song(idx: MusicIndex, u: int) -> Song {
    idx.songs@[idx.unknown@[u] as int]
}

/// Every indexed song already sits at the path the planner would give
/// it.
pub open spec fn songs_at_targets(idx: MusicIndex, out: Seq<char>) -> bool {
    &&& forall|x: int, l: int, k: int|
        placement_in_range(idx, x, l, k) ==> placed_song(idx, x, l, k).current_file@
            == #[trigger] placed_target(idx, out, x, l, k)
    &&& forall|u: int|
        0 <= u < idx.unknown@.len() ==> (#[trigger] unknown_song(idx, u)).current_file@
            == unknown_target(out, unknown_song(idx, u))
}

/// Every directory the planner would need is among the existing paths.
pub open spec fn dirs_covered(idx: MusicIndex, out: Seq<char>, ex: Seq<Seq<char>>) -> bool {
    &&& in_paths(ex, out)
    &&& forall|x: int|
        0 <= x < idx.artists@.len() ==> in_paths(ex, artist_dir(out, #[trigger] idx.artists@[x]))
    &&& forall|x: int, l: int|
        0 <= x < idx.artists@.len() && 0 <= l < idx.artists@[x].albums@.len()
            && !is_single_album(#[trigger] idx.artists@[x].albums@[l], idx.songs@) ==> in_paths(
            ex,
            album_dir(out, idx.artists@[x], idx.artists@[x].albums@[l]),
        )
    &&& idx.unknown@.len() > 0 ==> in_paths(ex, unknown_dir(out))
}

proof fn lemma_album_ops_empty(idx: MusicIndex, out: Seq<char>, x: int, l: int, k: int)
    requires
        0 <= x < idx.artists@.len(),
        0 <= l < idx.artists@[x].albums@.len(),
        k <= idx.artists@[x].albums@[l].songs@.len(),
        forall|k2: int|
            0 <= k2 < k ==> placed_song(idx, x, l, k2).current_file@ == #[trigger] placed_target(
                idx,
                out,
                x,
                l,
                k2,
            ),
    ensures
        album_ops(out, idx.artists@[x], idx.artists@[x].albums@[l], idx.songs@, k).len() == 0,
    decreases k,
{
    if k > 0 {
        lemma_album_ops_empty(idx, out, x, l, k - 1);
        assert(placed_song(idx, x, l, k - 1).current_file@ == placed_target(idx, out, x, l, k - 1));
    }
}

proof fn lemma_artist_ops_empty(idx: MusicIndex, out: Seq<char>, x: int, l: int)
    requires
        0 <= x < idx.artists@.len(),
        l <= idx.artists@[x].albums@.len(),
        forall|l2: int, k2: int|
            0 <= l2 < l && 0 <= k2 < idx.artists@[x].albums@[l2].songs@.len() ==> placed_song(
                idx,
                x,
                l2,
                k2,
            ).current_file@ == #[trigger] placed_target(idx, out, x, l2, k2),
    ensures
        artist_ops(out, idx.artists@[x], idx.songs@, l).len() == 0,
    decreases l,
{
    if l > 0 {
        lemma_artist_ops_empty(idx, out, x, l - 1);
        lemma_album_ops_empty(idx, out, x, l - 1, idx.artists@[x].albums@[l - 1].songs@.len() as int);
    }
}

proof fn lemma_artists_ops_empty(idx: MusicIndex, out: Seq<char>, a: int)
    requires
        a <= idx.artists@.len(),
        forall|x2: int, l2: int, k2: int|
            0 <= x2 < a && placement_in_range(idx, x2, l2, k2) ==> placed_song(
                idx,
                x2,
                l2,
                k2,
            ).current_file@ == #[trigger] placed_target(idx, out, x2, l2, k2),
    ensures
        artists_ops(out, idx.artists@, idx.songs@, a).len() == 0,
    decreases a,
{
    if a > 0 {
        lemma_artists_ops_empty(idx, out, a - 1);
        lemma_artist_ops_empty(idx, out, a - 1, idx.artists@[a - 1].albums@.len() as int);
    }
}

proof fn lemma_unknown_ops_empty(idx: MusicIndex, out: Seq<char>, u: int)
    requires
        u <= idx.unknown@.len(),
        forall|u2: int|
            0 <= u2 < u ==> (#[trigger] unknown_song(idx, u2)).current_file@ == unknown_target(
                out,
                unknown_song(idx, u2),
            ),
    ensures
        unknown_ops(out, idx.songs@, idx.unknown@, u).len() == 0,
    decreases u,
{
    if u > 0 {
        lemma_unknown_ops_empty(idx, out, u - 1);
        assert(unknown_song(idx, u - 1) == idx.songs@[idx.unknown@[u - 1] as int]);
    }
}

proof fn lemma_albums_dirs_empty(idx: MusicIndex, out: Seq<char>, ex: Seq<Seq<char>>, x: int, l: int)
    requires
        0 <= x < idx.artists@.len(),
        l <= idx.artists@[x].albums@.len(),
        forall|l2: int|
            0 <= l2 < l && !is_single_album(#[trigger] idx.artists@[x].albums@[l2], idx.songs@)
                ==> in_paths(ex, album_dir(out, idx.artists@[x], idx.artists@[x].albums@[l2])),
    ensures
        artist_albums_dirs(out, idx.artists@[x], idx.songs@, ex, l).len() == 0,
    decreases l,
{
    if l > 0 {
        lemma_albums_dirs_empty(idx, out, ex, x, l - 1);
    }
}

proof fn lemma_artists_dirs_empty(idx: MusicIndex, out: Seq<char>, ex: Seq<Seq<char>>, a: int)
    requires
        a <= idx.artists@.len(),
        forall|x: int|
            0 <= x < a ==> in_paths(ex, artist_dir(out, #[trigger] idx.artists@[x])),
        forall|x: int, l: int|
            0 <= x < a && 0 <= l < idx.artists@[x].albums@.len() && !is_single_album(
                #[trigger] idx.artists@[x].albums@[l],
                idx.songs@,
            ) ==> in_paths(ex, album_dir(out, idx.artists@[x], idx.artists@[x].albums@[l])),
    ensures
        artists_dirs(out, idx.artists@, idx.songs@, ex, a).len() == 0,
    decreases a,
{
    if a > 0 {
        lemma_artists_dirs_empty(idx, out, ex, a - 1);
        lemma_albums_dirs_empty(idx, out, ex, a - 1, idx.artists@[a - 1].albums@.len() as int);
    }
}

/// A library already in canonical shape needs nothing: when every
/// needed directory exists and every song sits at its target, the plan
/// is empty.
pub proof fn lemma_plan_empty_when_applied(idx: MusicIndex, out: Seq<char>, ex: Seq<Seq<char>>)
    requires
        dirs_covered(idx, out, ex),
        songs_at_targets(idx, out),
    ensures
        plan_dirs(idx, out, ex).len() == 0,
        plan_ops(idx, out).len() == 0,
{
    lemma_artists_ops_empty(idx, out, idx.artists@.len() as int);
    lemma_unknown_ops_empty(idx, out, idx.unknown@.len() as int);
    lemma_artists_dirs_empty(idx, out, ex, idx.artists@.len() as int);
}

proof fn lemma_seq_contains_concat_l<T>(s1: Seq<T>, s2: Seq<T>, e: T)
    requires
        s1.contains(e),
    ensures
        (s1 + s2).contains(e),
{
    let i = choose|i: int| 0 <= i < s1.len() && s1[i] == e;
    assert((s1 + s2)[i] == e);
}

proof fn lemma_seq_contains_concat_r<T>(s1: Seq<T>, s2: Seq<T>, e: T)
    requires
        s2.contains(e),
    ensures
        (s1 + s2).contains(e),
{
    let i = choose|i: int| 0 <= i < s2.len() && s2[i] == e;
    assert((s1 + s2)[s1.len() + i] == e);
}

proof fn lemma_albums_dirs_has(idx: MusicIndex, out: Seq<char>, ex: Seq<Seq<char>>, x: int, l: int, m: int)
    requires
        0 <= x < idx.artists@.len(),
        0 <= l < m <= idx.artists@[x].albums@.len(),
        !is_single_album(idx.artists@[x].albums@[l], idx.songs@),
        !in_paths(ex, album_dir(out, idx.artists@[x], idx.artists@[x].albums@[l])),
    ensures
        artist_albums_dirs(out, idx.artists@[x], idx.songs@, ex, m).contains(
            album_dir(out, idx.artists@[x], idx.artists@[x].albums@[l]),
        ),
    decreases m,
{
    let d = album_dir(out, idx.artists@[x], idx.artists@[x].albums@[l]);
    if l == m - 1 {
        assert(album_dirs(out, idx.artists@[x], idx.artists@[x].albums@[l], idx.songs@, ex)[0]
            == d);
        lemma_seq_contains_concat_r(
            artist_albums_dirs(out, idx.artists@[x], idx.songs@, ex, m - 1),
            album_dirs(out, idx.artists@[x], idx.artists@[x].albums@[l], idx.songs@, ex),
            d,
        );
    } else {
        lemma_albums_dirs_has(idx, out, ex, x, l, m - 1);
        lemma_seq_contains_concat_l(
            artist_albums_dirs(out, idx.artists@[x], idx.songs@, ex, m - 1),
            album_dirs(out, idx.artists@[x], idx.artists@[x].albums@[m - 1], idx.songs@, ex),
            d,
        );
    }
}

proof fn lemma_artists_dirs_has_artist(idx: MusicIndex, out: Seq<char>, ex: Seq<Seq<char>>, x: int, a: int)
    requires
        0 <= x < a <= idx.artists@.len(),
        !in_paths(ex, artist_dir(out, idx.artists@[x])),
    ensures
        artists_dirs(out, idx.artists@, idx.songs@, ex, a).contains(
            artist_dir(out, idx.artists@[x]),
        ),
    decreases a,
{
    let d = artist_dir(out, idx.artists@[x]);
    if x == a - 1 {
        assert(artist_dirs(out, idx.artists@[x], idx.songs@, ex)[0] == d);
        lemma_seq_contains_concat_r(
            artists_dirs(out, idx.artists@, idx.songs@, ex, a - 1),
            artist_dirs(out, idx.artists@[a - 1], idx.songs@, ex),
            d,
        );
    } else {
        lemma_artists_dirs_has_artist(idx, out, ex, x, a - 1);
        lemma_seq_contains_concat_l(
            artists_dirs(out, idx.artists@, idx.songs@, ex, a - 1),
            artist_dirs(out, idx.artists@[a - 1], idx.songs@, ex),
            d,
        );
    }
}

proof fn lemma_artists_dirs_has_album(idx: MusicIndex, out: Seq<char>, ex: Seq<Seq<char>>, x: int, l: int, a: int)
    requires
        0 <= x < a <= idx.artists@.len(),
        0 <= l < idx.artists@[x].albums@.len(),
        !is_single_album(idx.artists@[x].albums@[l], idx.songs@),
        !in_paths(ex, album_dir(out, idx.artists@[x], idx.artists@[x].albums@[l])),
    ensures
        artists_dirs(out, idx.artists@, idx.songs@, ex, a).contains(
            album_dir(out, idx.artists@[x], idx.artists@[x].albums@[l]),
        ),
    decreases a,
{
    let d = album_dir(out, idx.artists@[x], idx.artists@[x].albums@[l]);
    if x == a - 1 {
        lemma_albums_dirs_has(idx, out, ex, x, l, idx.artists@[x].albums@.len() as int);
        lemma_seq_contains_concat_r(
            (if !in_paths(ex, artist_dir(out, idx.artists@[x])) {
                seq![artist_dir(out, idx.artists@[x])]
            } else {
                Seq::<Seq<char>>::empty()
            }),
            artist_albums_dirs(out, idx.artists@[x], idx.songs@, ex, idx.artists@[x].albums@.len() as int),
            d,
        );
        lemma_seq_contains_concat_r(
            artists_dirs(out, idx.artists@, idx.songs@, ex, a - 1),
            artist_dirs(out, idx.artists@[a - 1], idx.songs@, ex),
            d,
        );
    } else {
        lemma_artists_dirs_has_album(idx, out, ex, x, l, a - 1);
        lemma_seq_contains_concat_l(
            artists_dirs(out, idx.artists@, idx.songs@, ex, a - 1),
            artist_dirs(out, idx.artists@[a - 1], idx.songs@, ex),
            d,
        );
    }
}

/// Every directory the planner needs and that does not exist appears
/// in the plan's directory creations.
pub proof fn lemma_plan_dirs_complete(idx: MusicIndex, out: Seq<char>, ex: Seq<Seq<char>>)
    ensures
        !in_paths(ex, out) ==> plan_dirs(idx, out, ex).contains(out),
        forall|x: int|
            0 <= x < idx.artists@.len() && !in_paths(ex, artist_dir(out, #[trigger] idx.artists@[x]))
                ==> plan_dirs(idx, out, ex).contains(artist_dir(out, idx.artists@[x])),
        forall|x: int, l: int|
            0 <= x < idx.artists@.len() && 0 <= l < idx.artists@[x].albums@.len()
                && !is_single_album(#[trigger] idx.artists@[x].albums@[l], idx.songs@)
                && !in_paths(ex, album_dir(out, idx.artists@[x], idx.artists@[x].albums@[l]))
                ==> plan_dirs(idx, out, ex).contains(
                album_dir(out, idx.artists@[x], idx.artists@[x].albums@[l]),
            ),
        idx.unknown@.len() > 0 && !in_paths(ex, unknown_dir(out)) ==> plan_dirs(
            idx,
            out,
            ex,
        ).contains(unknown_dir(out)),
{
    let n = idx.artists@.len() as int;
    let mid = artists_dirs(out, idx.artists@, idx.songs@, ex, n);
    let upart = unknown_dir_part(out, ex, idx.unknown@.len() as int);
    if !in_paths(ex, out) {
        assert(plan_dirs(idx, out, ex)[0] == out);
    }
    assert forall|x: int|
        0 <= x < n && !in_paths(ex, artist_dir(out, #[trigger] idx.artists@[x])) implies plan_dirs(
        idx,
        out,
        ex,
    ).contains(artist_dir(out, idx.artists@[x])) by {
        let d = artist_dir(out, idx.artists@[x]);
        lemma_artists_dirs_has_artist(idx, out, ex, x, n);
        lemma_seq_contains_concat_r(root_dir_part(out, ex), mid, d);
        lemma_seq_contains_concat_l(root_dir_part(out, ex) + mid, upart, d);
    }
    assert forall|x: int, l: int|
        0 <= x < n && 0 <= l < idx.artists@[x].albums@.len() && !is_single_album(
            #[trigger] idx.artists@[x].albums@[l],
            idx.songs@,
        ) && !in_paths(ex, album_dir(out, idx.artists@[x], idx.artists@[x].albums@[l])) implies plan_dirs(
        idx,
        out,
        ex,
    ).contains(album_dir(out, idx.artists@[x], idx.artists@[x].albums@[l])) by {
        let d = album_dir(out, idx.artists@[x], idx.artists@[x].albums@[l]);
        lemma_artists_dirs_has_album(idx, out, ex, x, l, n);
        lemma_seq_contains_concat_r(root_dir_part(out, ex), mid, d);
        lemma_seq_contains_concat_l(root_dir_part(out, ex) + mid, upart, d);
    }
    if idx.unknown@.len() > 0 && !in_paths(ex, unknown_dir(out)) {
        assert(upart[0] == unknown_dir(out));
        lemma_seq_contains_concat_r(root_dir_part(out, ex) + mid, upart, unknown_dir(out));
    }
}

/// Two songs agreeing on everything the planner reads except the
/// current path.
pub open spec fn song_meta_eq(s1: Song, s2: Song) -> bool {
    &&& s2.track == s1.track
    &&& s2.total_tracks == s1.total_tracks
    &&& s2.disc == s1.disc
    &&& s2.total_discs == s1.total_discs
    &&& opt_name(s2.artist) == opt_name(s1.artist)
    &&& opt_name(s2.title) == opt_name(s1.title)
}

pub open spec fn artist_shape_eq(a1: Artist, a2: Artist) -> bool {
    &&& a2.name@ == a1.name@
    &&& a2.albums@.len() == a1.albums@.len()
    &&& forall|l: int|
        0 <= l < a1.albums@.len() ==> (opt_name((#[trigger] a1.albums@[l]).name) == opt_name(
            a2.albums@[l].name,
        ) && a2.albums@[l].songs@ == a1.albums@[l].songs@)
}

/// Two indexes with the same grouping structure and the same tag data;
/// only the songs' current paths may differ.
pub open spec fn same_shape(a: MusicIndex, b: MusicIndex) -> bool {
    &&& b.songs@.len() == a.songs@.len()
    &&& forall|i: int| 0 <= i < a.songs@.len() ==> song_meta_eq(#[trigger] a.songs@[i], b.songs@[i])
    &&& b.artists@.len() == a.artists@.len()
    &&& forall|x: int|
        0 <= x < a.artists@.len() ==> artist_shape_eq(#[trigger] a.artists@[x], b.artists@[x])
    &&& b.unknown@ == a.unknown@
}

/// `b` is `a` after one plan has been applied: every placed song's
/// current path in `b` is its planned target in `a`, and every
/// unknown-bucket song sits under the unknown directory with its old
/// file name.
pub open spec fn plan_applied(a: MusicIndex, b: MusicIndex, out: Seq<char>) -> bool {
    &&& forall|x: int, l: int, k: int|
        placement_in_range(a, x, l, k) ==> b.songs@[a.artists@[x].albums@[l].songs@[k] as int].current_file@
            == #[trigger] placed_target(a, out, x, l, k)
    &&& forall|u: int|
        0 <= u < a.unknown@.len() ==> b.songs@[a.unknown@[u] as int].current_file@
            == unknown_target(out, #[trigger] unknown_song(a, u))
}

/// After a plan is applied the planner reads the same names, the same
/// single-or-album decisions, and the same extensions, so every target
/// is unchanged — and every song now sits at it.
proof fn lemma_targets_preserved(idx1: MusicIndex, idx2: MusicIndex, out: Seq<char>)
    requires
        index_wf(idx1),
        same_shape(idx1, idx2),
        plan_applied(idx1, idx2, out),
    ensures
        forall|x: int|
            0 <= x < idx1.artists@.len() ==> artist_dir(out, #[trigger] idx2.artists@[x])
                == artist_dir(out, idx1.artists@[x]),
        forall|x: int, l: int|
            0 <= x < idx1.artists@.len() && 0 <= l < idx1.artists@[x].albums@.len()
                ==> is_single_album(#[trigger] idx2.artists@[x].albums@[l], idx2.songs@)
                == is_single_album(idx1.artists@[x].albums@[l], idx1.songs@),
        forall|x: int, l: int|
            0 <= x < idx1.artists@.len() && 0 <= l < idx1.artists@[x].albums@.len() ==> album_dir(
                out,
                idx2.artists@[x],
                #[trigger] idx2.artists@[x].albums@[l],
            ) == album_dir(out, idx1.artists@[x], idx1.artists@[x].albums@[l]),
        songs_at_targets(idx2, out),
{
    assert forall|x: int|
        0 <= x < idx1.artists@.len() implies artist_dir(out, #[trigger] idx2.artists@[x])
        == artist_dir(out, idx1.artists@[x]) by {
        assert(artist_shape_eq(idx1.artists@[x], idx2.artists@[x]));
    }
    assert forall|x: int, l: int|
        0 <= x < idx1.artists@.len() && 0 <= l < idx1.artists@[x].albums@.len()
        implies is_single_album(#[trigger] idx2.artists@[x].albums@[l], idx2.songs@)
        == is_single_album(idx1.artists@[x].albums@[l], idx1.songs@) by {
        assert(artist_shape_eq(idx1.artists@[x], idx2.artists@[x]));
        let al1 = idx1.artists@[x].albums@[l];
        let al2 = idx2.artists@[x].albums@[l];
        assert(crate::index::artist_wf(idx1.artists@[x], idx1.songs@.len() as int));
        match al1.name {
            None => {},
            Some(n1) => {
                if n1@.len() != 0 && al1.songs@.len() == 1 {
                    assert(crate::index::album_wf(al1, idx1.songs@.len() as int));
                    let si = al1.songs@[0] as int;
                    assert(song_meta_eq(idx1.songs@[si], idx2.songs@[si]));
                }
            },
        }
    }
    assert forall|x: int, l: int|
        0 <= x < idx1.artists@.len() && 0 <= l < idx1.artists@[x].albums@.len() implies album_dir(
        out,
        idx2.artists@[x],
        #[trigger] idx2.artists@[x].albums@[l],
    ) == album_dir(out, idx1.artists@[x], idx1.artists@[x].albums@[l]) by {
        assert(artist_shape_eq(idx1.artists@[x], idx2.artists@[x]));
    }
    assert forall|x: int, l: int, k: int| placement_in_range(idx2, x, l, k) implies placed_song(
        idx2,
        x,
        l,
        k,
    ).current_file@ == #[trigger] placed_target(idx2, out, x, l, k) by {
        assert(artist_shape_eq(idx1.artists@[x], idx2.artists@[x]));
        assert(placement_in_range(idx1, x, l, k));
        let si = idx1.artists@[x].albums@[l].songs@[k] as int;
        assert(idx2.artists@[x].albums@[l].songs@[k] as int == si);
        assert(crate::index::artist_wf(idx1.artists@[x], idx1.songs@.len() as int));
        assert(crate::index::album_wf(idx1.artists@[x].albums@[l], idx1.songs@.len() as int));
        let s1 = idx1.songs@[si];
        let s2 = idx2.songs@[si];
        assert(song_meta_eq(s1, s2));
        assert(s2.current_file@ == placed_target(idx1, out, x, l, k));
        lemma_song_target_extension(
            out,
            idx1.artists@[x],
            idx1.artists@[x].albums@[l],
            idx1.songs@,
            s1,
        );
        assert(extension_of(s2.current_file@) == extension_of(s1.current_file@));
        let single = is_single_album(idx1.artists@[x].albums@[l], idx1.songs@);
        assert(opt_chars(s2.artist) == opt_chars(s1.artist) && opt_chars(s2.title) == opt_chars(
            s1.title,
        ));
        assert(song_file_name(single, s2) == song_file_name(single, s1));
        assert(placed_target(idx2, out, x, l, k) == placed_target(idx1, out, x, l, k));
    }
    assert forall|u: int| 0 <= u < idx2.unknown@.len() implies (#[trigger] unknown_song(
        idx2,
        u,
    )).current_file@ == unknown_target(out, unknown_song(idx2, u)) by {
        let si = idx1.unknown@[u] as int;
        let s1 = unknown_song(idx1, u);
        let s2 = unknown_song(idx2, u);
        assert(s2.current_file@ == unknown_target(out, s1));
        lemma_unknown_target_file_name(out, s1);
        assert(file_name_of(s2.current_file@) == file_name_of(s1.current_file@));
        assert(unknown_target(out, s2) == unknown_target(out, s1));
    }
}

proof fn lemma_in_paths_extend(ex: Seq<Seq<char>>, ds: Seq<Seq<char>>, p: Seq<char>)
    requires
        in_paths(ex, p) || ds.contains(p),
    ensures
        in_paths(ex + ds, p),
{
    if in_paths(ex, p) {
        let i = choose|i: int| 0 <= i < ex.len() && ex[i] == p;
        assert((ex + ds)[i] == p);
    } else {
        let i = choose|i: int| 0 <= i < ds.len() && ds[i] == p;
        assert((ex + ds)[ex.len() + i] == p);
    }
}

/// Idempotence of the planner: let `idx2` be `idx1` after one computed
/// plan has been applied (every planned directory created on top of
/// what existed, every song moved to its planned target), the grouping
/// and the tag data unchanged. Planning again then yields an empty
/// plan: no directory creations and no file operations.
pub proof fn lemma_planner_idempotent(
    idx1: MusicIndex,
    idx2: MusicIndex,
    out: Seq<char>,
    ex1: Seq<Seq<char>>,
    ex2: Seq<Seq<char>>,
)
    requires
        index_wf(idx1),
        same_shape(idx1, idx2),
        plan_applied(idx1, idx2, out),
        ex2 == ex1 + plan_dirs(idx1, out, ex1),
    ensures
        plan_dirs(idx2, out, ex2).len() == 0,
        plan_ops(idx2, out).len() == 0,
{
    lemma_targets_preserved(idx1, idx2, out);
    lemma_plan_dirs_complete(idx1, out, ex1);
    let created = plan_dirs(idx1, out, ex1);
    lemma_in_paths_extend(ex1, created, out);
    assert forall|x: int|
        0 <= x < idx2.artists@.len() implies in_paths(
        ex2,
        artist_dir(out, #[trigger] idx2.artists@[x]),
    ) by {
        let d = artist_dir(out, idx1.artists@[x]);
        assert(artist_dir(out, idx2.artists@[x]) == d);
        if !in_paths(ex1, d) {
            assert(created.contains(d));
        }
        lemma_in_paths_extend(ex1, created, d);
    }
    assert forall|x: int, l: int|
        0 <= x < idx2.artists@.len() && 0 <= l < idx2.artists@[x].albums@.len()
            && !is_single_album(#[trigger] idx2.artists@[x].albums@[l], idx2.songs@) implies in_paths(
        ex2,
        album_dir(out, idx2.artists@[x], idx2.artists@[x].albums@[l]),
    ) by {
        assert(artist_shape_eq(idx1.artists@[x], idx2.artists@[x]));
        let d = album_dir(out, idx1.artists@[x], idx1.artists@[x].albums@[l]);
        assert(album_dir(out, idx2.artists@[x], idx2.artists@[x].albums@[l]) == d);
        assert(!is_single_album(idx1.artists@[x].albums@[l], idx1.songs@));
        if !in_paths(ex1, d) {
            assert(created.contains(d));
        }
        lemma_in_paths_extend(ex1, created, d);
    }
    if idx2.unknown@.len() > 0 {
        if !in_paths(ex1, unknown_dir(out)) {
            assert(created.contains(unknown_dir(out)));
        }
        lemma_in_paths_extend(ex1, created, unknown_dir(out));
    }
    assert(dirs_covered(idx2, out, ex2));
    lemma_plan_empty_when_applied(idx2, out, ex2);
}

/// A plan never contains a file operation whose target equals its
/// source: files already in place are skipped.
pub proof fn lemma_plan_ops_nontrivial(idx: MusicIndex, out: Seq<char>)
    ensures
        forall|i: int|
            0 <= i < plan_ops(idx, out).len() ==> (#[trigger] plan_ops(idx, out)[i]).0 != plan_ops(
                idx,
                out,
            )[i].1,
{
    lemma_artists_ops_nontrivial(out, idx.artists@, idx.songs@, idx.artists@.len() as int);
    lemma_unknown_ops_nontrivial(out, idx.songs@, idx.unknown@, idx.unknown@.len() as int);
}

} // verus!
