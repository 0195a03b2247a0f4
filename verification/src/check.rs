//! Consistency checks over a built index: read-only passes that report
//! likely tag errors (casing mismatches, diverging totals) for a caller
//! to resolve; nothing here mutates the index.

use vstd::prelude::*;

use crate::index::{album_wf, artist_wf, index_wf};
use crate::names::{eq_ignore, eq_ignore_case};
use crate::{Artist, MusicIndex, Song};

verus! {

/// A pair of distinct artists whose names differ only by ASCII case.
pub open spec fn artist_pair_conflict(artists: Seq<Artist>, p: (usize, usize)) -> bool {
    p.0 < p.1 && (p.1 as int) < artists.len() && eq_ignore_case(
        artists[p.0 as int].name@,
        artists[p.1 as int].name@,
    )
}

/// Albums `t.1 < t.2` of artist `t.0`, both named, whose names differ
/// only by ASCII case.
pub open spec fn album_pair_conflict(artists: Seq<Artist>, t: (usize, usize, usize)) -> bool {
    &&& (t.0 as int) < artists.len()
    &&& t.1 < t.2
    &&& (t.2 as int) < artists[t.0 as int].albums@.len()
    &&& artists[t.0 as int].albums@[t.1 as int].name is Some
    &&& artists[t.0 as int].albums@[t.2 as int].name is Some
    &&& eq_ignore_case(
        artists[t.0 as int].albums@[t.1 as int].name->0@,
        artists[t.0 as int].albums@[t.2 as int].name->0@,
    )
}

pub open spec fn pair_lt(a: (usize, usize), b: (usize, usize)) -> bool {
    a.0 < b.0 || (a.0 == b.0 && a.1 < b.1)
}

pub open spec fn triple_lt(a: (usize, usize, usize), b: (usize, usize, usize)) -> bool {
    a.0 < b.0 || (a.0 == b.0 && (a.1 < b.1 || (a.1 == b.1 && a.2 < b.2)))
}

proof fn lemma_push_contains<T>(s: Seq<T>, x: T, w: T)
    ensures
        s.push(x).contains(w) <==> (w == x || s.contains(w)),
{
    if s.contains(w) {
        let i = choose|i: int| 0 <= i < s.len() && s[i] == w;
        assert(s.push(x)[i] == w);
    }
    if s.push(x).contains(w) && w != x {
        let i = choose|i: int| 0 <= i < s.push(x).len() && s.push(x)[i] == w;
        assert(s[i] == w);
    }
    assert(s.push(x)[s.len() as int] == x);
}

/// Reports every unordered pair of distinct artists whose names are
/// equal up to ASCII case, as index pairs in ascending order. The
/// caller decides how (and whether) to resolve each conflict; the
/// index itself is never changed.
pub fn check_inconsitent_artists(index: &MusicIndex) -> (r: Vec<(usize, usize)>)
    ensures
        forall|p: (usize, usize)|
            #[trigger] r@.contains(p) <==> artist_pair_conflict(index.artists@, p),
        forall|k1: int, k2: int| 0 <= k1 < k2 < r@.len() ==> pair_lt(r@[k1], r@[k2]),
{
    let mut r: Vec<(usize, usize)> = Vec::new();
    let n = index.artists.len();
    let mut i: usize = 0;
    while i < n
        invariant
            n == index.artists@.len(),
            i <= n,
            forall|p: (usize, usize)|
                #[trigger] r@.contains(p) <==> (artist_pair_conflict(index.artists@, p) && p.0
                    < i),
            forall|k1: int, k2: int| 0 <= k1 < k2 < r@.len() ==> pair_lt(r@[k1], r@[k2]),
        decreases n - i,
    {
        let mut j: usize = i + 1;
        while j < n
            invariant
                n == index.artists@.len(),
                i < n,
                i < j <= n,
                forall|p: (usize, usize)|
                    #[trigger] r@.contains(p) <==> (artist_pair_conflict(index.artists@, p) && (p.0
                        < i || (p.0 == i && p.1 < j))),
                forall|k1: int, k2: int| 0 <= k1 < k2 < r@.len() ==> pair_lt(r@[k1], r@[k2]),
            decreases n - j,
        {
            if eq_ignore(index.artists[i].name.as_str(), index.artists[j].name.as_str()) {
                let ghost old_r = r@;
                proof {
                    assert forall|k: int| 0 <= k < old_r.len() implies pair_lt(
                        old_r[k],
                        (i, j),
                    ) by {
                        assert(old_r.contains(old_r[k]));
                    }
                }
                r.push((i, j));
                proof {
                    assert forall|p: (usize, usize)| #[trigger]
                        r@.contains(p) <==> (artist_pair_conflict(index.artists@, p) && (p.0 < i
                            || (p.0 == i && p.1 < j + 1))) by {
                        lemma_push_contains(old_r, (i, j), p);
                    }
                }
            }
            j = j + 1;
        }
        i = i + 1;
    }
    r
}

/// Reports, for every artist, every unordered pair of its named albums
/// whose names are equal up to ASCII case, as `(artist, album, album)`
/// index triples in ascending order.
pub fn check_inconsitent_albums(index: &MusicIndex) -> (r: Vec<(usize, usize, usize)>)
    ensures
        forall|t: (usize, usize, usize)|
            #[trigger] r@.contains(t) <==> album_pair_conflict(index.artists@, t),
        forall|k1: int, k2: int| 0 <= k1 < k2 < r@.len() ==> triple_lt(r@[k1], r@[k2]),
{
    let mut r: Vec<(usize, usize, usize)> = Vec::new();
    let n = index.artists.len();
    let mut a: usize = 0;
    while a < n
        invariant
            n == index.artists@.len(),
            a <= n,
            forall|t: (usize, usize, usize)|
                #[trigger] r@.contains(t) <==> (album_pair_conflict(index.artists@, t) && t.0 < a),
            forall|k1: int, k2: int| 0 <= k1 < k2 < r@.len() ==> triple_lt(r@[k1], r@[k2]),
        decreases n - a,
    {
        let m = index.artists[a].albums.len();
        let mut l1: usize = 0;
        while l1 < m
            invariant
                n == index.artists@.len(),
                a < n,
                m == index.artists@[a as int].albums@.len(),
                l1 <= m,
                forall|t: (usize, usize, usize)|
                    #[trigger] r@.contains(t) <==> (album_pair_conflict(index.artists@, t) && (t.0
                        < a || (t.0 == a && t.1 < l1))),
                forall|k1: int, k2: int| 0 <= k1 < k2 < r@.len() ==> triple_lt(r@[k1], r@[k2]),
            decreases m - l1,
        {
            let mut l2: usize = l1 + 1;
            while l2 < m
                invariant
                    n == index.artists@.len(),
                    a < n,
                    m == index.artists@[a as int].albums@.len(),
                    l1 < m,
                    l1 < l2 <= m,
                    forall|t: (usize, usize, usize)|
                        #[trigger] r@.contains(t) <==> (album_pair_conflict(index.artists@, t) && (
                        t.0 < a || (t.0 == a && (t.1 < l1 || (t.1 == l1 && t.2 < l2))))),
                    forall|k1: int, k2: int| 0 <= k1 < k2 < r@.len() ==> triple_lt(r@[k1], r@[k2]),
                decreases m - l2,
            {
                let name1 = &index.artists[a].albums[l1].name;
                let name2 = &index.artists[a].albums[l2].name;
                let conflict: bool = match (name1, name2) {
                    (Some(s1), Some(s2)) => eq_ignore(s1.as_str(), s2.as_str()),
                    _ => false,
                };
                if conflict {
                    let ghost old_r = r@;
                    proof {
                        assert forall|k: int| 0 <= k < old_r.len() implies triple_lt(
                            old_r[k],
                            (a, l1, l2),
                        ) by {
                            assert(old_r.contains(old_r[k]));
                        }
                    }
                    r.push((a, l1, l2));
                    proof {
                        assert forall|t: (usize, usize, usize)| #[trigger]
                            r@.contains(t) <==> (album_pair_conflict(index.artists@, t) && (t.0 < a
                                || (t.0 == a && (t.1 < l1 || (t.1 == l1 && t.2 < l2 + 1))))) by {
                            lemma_push_contains(old_r, (a, l1, l2), t);
                        }
                    }
                }
                l2 = l2 + 1;
            }
            l1 = l1 + 1;
        }
        a = a + 1;
    }
    r
}

/// One album whose songs disagree on `total_tracks`: the songs of the
/// album partitioned by value, groups in first-seen order, each group's
/// songs in album order.
#[derive(Clone, Debug, PartialEq)]
pub struct TotalTracksConflict {
    pub artist: usize,
    pub album: usize,
    pub groups: Vec<(Vec<usize>, Option<u16>)>,
}

/// One album whose songs disagree on `total_discs`: the sorted,
/// deduplicated values found across its songs (absent sorting first).
#[derive(Clone, Debug, PartialEq)]
pub struct TotalDiscsConflict {
    pub artist: usize,
    pub album: usize,
    pub values: Vec<Option<u16>>,
}

pub open spec fn groups_view(g: Seq<(Vec<usize>, Option<u16>)>) -> Seq<(Seq<usize>, Option<u16>)> {
    g.map_values(|e: (Vec<usize>, Option<u16>)| (e.0@, e.1))
}

/// The first group keyed by this value, or -1.
pub open spec fn find_group(groups: Seq<(Seq<usize>, Option<u16>)>, tt: Option<u16>) -> int
    decreases groups.len(),
{
    if groups.len() == 0 {
        -1
    } else if groups[0].1 == tt {
        0
    } else {
        let r = find_group(groups.drop_first(), tt);
        if r < 0 {
            -1
        } else {
            r + 1
        }
    }
}

/// The partition of an album's songs by `total_tracks` value, groups in
/// first-seen order (absence is a distinct key).
pub open spec fn tt_groups(songs: Seq<Song>, idxs: Seq<usize>) -> Seq<(Seq<usize>, Option<u16>)>
    decreases idxs.len(),
{
    if idxs.len() == 0 {
        Seq::empty()
    } else {
        let prev = tt_groups(songs, idxs.drop_last());
        let si = idxs.last();
        let tt = songs[si as int].total_tracks;
        let g = find_group(prev, tt);
        if g < 0 {
            prev.push((seq![si], tt))
        } else {
            prev.update(g, (prev[g].0.push(si), tt))
        }
    }
}

proof fn lemma_find_group_at(groups: Seq<(Seq<usize>, Option<u16>)>, tt: Option<u16>, k: int)
    requires
        0 <= k < groups.len(),
        groups[k].1 == tt,
        forall|j: int| 0 <= j < k ==> groups[j].1 != tt,
    ensures
        find_group(groups, tt) == k,
    decreases groups.len(),
{
    if k > 0 {
        lemma_find_group_at(groups.drop_first(), tt, k - 1);
    }
}

proof fn lemma_find_group_none(groups: Seq<(Seq<usize>, Option<u16>)>, tt: Option<u16>)
    requires
        forall|j: int| 0 <= j < groups.len() ==> groups[j].1 != tt,
    ensures
        find_group(groups, tt) == -1,
    decreases groups.len(),
{
    if groups.len() > 0 {
        lemma_find_group_none(groups.drop_first(), tt);
    }
}

/// An album whose songs do not all share one `total_tracks` value.
pub open spec fn tt_site_conflict(idx: MusicIndex, a: int, l: int) -> bool {
    &&& 0 <= a < idx.artists@.len()
    &&& 0 <= l < idx.artists@[a].albums@.len()
    &&& tt_groups(idx.songs@, idx.artists@[a].albums@[l].songs@).len() > 1
}

pub open spec fn tt_entry_ok(idx: MusicIndex, c: TotalTracksConflict) -> bool {
    &&& tt_site_conflict(idx, c.artist as int, c.album as int)
    &&& groups_view(c.groups@) == tt_groups(
        idx.songs@,
        idx.artists@[c.artist as int].albums@[c.album as int].songs@,
    )
}

pub open spec fn tt_has_site(r: Seq<TotalTracksConflict>, a: int, l: int) -> bool {
    exists|k: int| 0 <= k < r.len() && r[k].artist == a && r[k].album == l
}

proof fn lemma_tt_push_site(r: Seq<TotalTracksConflict>, c: TotalTracksConflict, a: int, l: int)
    ensures
        tt_has_site(r.push(c), a, l) <==> (tt_has_site(r, a, l) || (c.artist == a && c.album
            == l)),
{
    if tt_has_site(r, a, l) {
        let k = choose|k: int| 0 <= k < r.len() && r[k].artist == a && r[k].album == l;
        assert(r.push(c)[k].artist == a && r.push(c)[k].album == l);
    }
    if c.artist == a && c.album == l {
        assert(r.push(c)[r.len() as int].artist == a && r.push(c)[r.len() as int].album == l);
    }
    if tt_has_site(r.push(c), a, l) && !(c.artist == a && c.album == l) {
        let k = choose|k: int|
            0 <= k < r.push(c).len() && r.push(c)[k].artist == a && r.push(c)[k].album == l;
        assert(r[k].artist == a && r[k].album == l);
    }
}

fn opt_u16_eq(a: Option<u16>, b: Option<u16>) -> (r: bool)
    ensures
        r == (a == b),
{
    match (a, b) {
        (None, None) => true,
        (Some(x), Some(y)) => x == y,
        _ => false,
    }
}

fn find_group_exec(groups: &Vec<(Vec<usize>, Option<u16>)>, tt: Option<u16>) -> (r: usize)
    ensures
        r <= groups@.len(),
        r < groups@.len() ==> find_group(groups_view(groups@), tt) == r as int,
        r < groups@.len() ==> groups_view(groups@)[r as int].1 == tt,
        r == groups@.len() ==> find_group(groups_view(groups@), tt) == -1,
{
    let mut i: usize = 0;
    while i < groups.len()
        invariant
            i <= groups@.len(),
            forall|j: int| 0 <= j < i ==> groups_view(groups@)[j].1 != tt,
        decreases groups@.len() - i,
    {
        if opt_u16_eq(groups[i].1, tt) {
            proof {
                assert(groups_view(groups@)[i as int].1 == tt);
                lemma_find_group_at(groups_view(groups@), tt, i as int);
            }
            return i;
        }
        i = i + 1;
    }
    proof {
        lemma_find_group_none(groups_view(groups@), tt);
    }
    i
}

/// Groups one album's songs by `total_tracks` value, in first-seen
/// order.
fn group_total_tracks(index: &MusicIndex, a: usize, l: usize) -> (g: Vec<(Vec<usize>, Option<u16>)>)
    requires
        index_wf(*index),
        (a as int) < index.artists@.len(),
        (l as int) < index.artists@[a as int].albums@.len(),
    ensures
        groups_view(g@) == tt_groups(
            index.songs@,
            index.artists@[a as int].albums@[l as int].songs@,
        ),
{
    let ghost al_songs = index.artists@[a as int].albums@[l as int].songs@;
    let mut g: Vec<(Vec<usize>, Option<u16>)> = Vec::new();
    let count = index.artists[a].albums[l].songs.len();
    let mut k: usize = 0;
    while k < count
        invariant
            index_wf(*index),
            (a as int) < index.artists@.len(),
            (l as int) < index.artists@[a as int].albums@.len(),
            al_songs == index.artists@[a as int].albums@[l as int].songs@,
            count == al_songs.len(),
            k <= count,
            groups_view(g@) == tt_groups(index.songs@, al_songs.subrange(0, k as int)),
        decreases count - k,
    {
        let si = index.artists[a].albums[l].songs[k];
        proof {
            assert(artist_wf(index.artists@[a as int], index.songs@.len() as int));
            assert(album_wf(
                index.artists@[a as int].albums@[l as int],
                index.songs@.len() as int,
            ));
            assert((al_songs[k as int] as int) < index.songs@.len());
        }
        let tt = index.songs[si].total_tracks;
        let ghost old_g = g@;
        let q = find_group_exec(&g, tt);
        if q < g.len() {
            let mut e = g.remove(q);
            e.0.push(si);
            g.insert(q, e);
            proof {
                assert(g@ =~= old_g.update(q as int, g@[q as int]));
                assert(groups_view(g@) =~= groups_view(old_g).update(
                    q as int,
                    (groups_view(old_g)[q as int].0.push(si), tt),
                ));
            }
        } else {
            let mut members: Vec<usize> = Vec::new();
            members.push(si);
            g.push((members, tt));
            proof {
                assert(groups_view(g@) =~= groups_view(old_g).push((seq![si], tt)));
            }
        }
        k = k + 1;
        proof {
            assert(al_songs.subrange(0, k as int).drop_last() =~= al_songs.subrange(
                0,
                k - 1,
            ));
            assert(al_songs.subrange(0, k as int).last() == al_songs[k - 1]);
        }
    }
    proof {
        assert(al_songs.subrange(0, count as int) =~= al_songs);
    }
    g
}

/// Reports every album whose songs disagree on `total_tracks`: for each
/// such album, the partition of its songs by value (including absence
/// as its own group). Albums whose songs all share one value are not
/// reported.
pub fn check_inconsitent_total_tracks(index: &MusicIndex) -> (r: Vec<TotalTracksConflict>)
    requires
        index_wf(*index),
    ensures
        forall|k: int| 0 <= k < r@.len() ==> tt_entry_ok(*index, #[trigger] r@[k]),
        forall|a: int, l: int|
            #[trigger] tt_has_site(r@, a, l) <==> tt_site_conflict(*index, a, l),
        forall|k1: int, k2: int|
            0 <= k1 < k2 < r@.len() ==> pair_lt(
                (r@[k1].artist, r@[k1].album),
                (r@[k2].artist, r@[k2].album),
            ),
{
    let mut r: Vec<TotalTracksConflict> = Vec::new();
    let n = index.artists.len();
    let mut a: usize = 0;
    while a < n
        invariant
            index_wf(*index),
            n == index.artists@.len(),
            a <= n,
            forall|k: int| 0 <= k < r@.len() ==> tt_entry_ok(*index, #[trigger] r@[k]),
            forall|x: int, y: int|
                #[trigger] tt_has_site(r@, x, y) <==> (tt_site_conflict(*index, x, y) && x < a),
            forall|k1: int, k2: int|
                0 <= k1 < k2 < r@.len() ==> pair_lt(
                    (r@[k1].artist, r@[k1].album),
                    (r@[k2].artist, r@[k2].album),
                ),
        decreases n - a,
    {
        let m = index.artists[a].albums.len();
        let mut l: usize = 0;
        while l < m
            invariant
                index_wf(*index),
                n == index.artists@.len(),
                a < n,
                m == index.artists@[a as int].albums@.len(),
                l <= m,
                forall|k: int| 0 <= k < r@.len() ==> tt_entry_ok(*index, #[trigger] r@[k]),
                forall|x: int, y: int|
                    #[trigger] tt_has_site(r@, x, y) <==> (tt_site_conflict(*index, x, y) && (x < a
                        || (x == a && y < l))),
                forall|k1: int, k2: int|
                    0 <= k1 < k2 < r@.len() ==> pair_lt(
                        (r@[k1].artist, r@[k1].album),
                        (r@[k2].artist, r@[k2].album),
                    ),
            decreases m - l,
        {
            let g = group_total_tracks(index, a, l);
            let ghost old_r = r@;
            if g.len() > 1 {
                proof {
                    assert forall|k: int| 0 <= k < old_r.len() implies pair_lt(
                        (old_r[k].artist, old_r[k].album),
                        (a, l),
                    ) by {
                        assert(tt_has_site(old_r, old_r[k].artist as int, old_r[k].album as int));
                    }
                }
                r.push(TotalTracksConflict { artist: a, album: l, groups: g });
                proof {
                    assert(groups_view(r@[old_r.len() as int].groups@).len() == r@[old_r.len() as int].groups@.len());
                }
            }
            proof {
                assert forall|x: int, y: int| #[trigger]
                    tt_has_site(r@, x, y) <==> (tt_site_conflict(*index, x, y) && (x < a || (x == a
                        && y < l + 1))) by {
                    if g.len() > 1 {
                        lemma_tt_push_site(
                            old_r,
                            r@[old_r.len() as int],
                            x,
                            y,
                        );
                    } else {
                        if tt_site_conflict(*index, x, y) && x == a && y == l {
                            assert(groups_view(g@).len() == g@.len());
                        }
                    }
                }
            }
            l = l + 1;
        }
        a = a + 1;
    }
    r
}

/// The rank of an optional value: absence sorts before every value.
pub open spec fn opt_rank(o: Option<u16>) -> int {
    match o {
        None => -1,
        Some(v) => v as int,
    }
}

/// The `total_discs` value of the `k`-th song of album `l` of artist
/// `a`.
pub open spec fn td_value_at(idx: MusicIndex, a: int, l: int, k: int) -> Option<u16> {
    idx.songs@[idx.artists@[a].albums@[l].songs@[k] as int].total_discs
}

/// An album whose songs do not all share one `total_discs` value.
pub open spec fn td_site_conflict(idx: MusicIndex, a: int, l: int) -> bool {
    &&& 0 <= a < idx.artists@.len()
    &&& 0 <= l < idx.artists@[a].albums@.len()
    &&& exists|k1: int, k2: int|
        0 <= k1 < idx.artists@[a].albums@[l].songs@.len() && 0 <= k2
            < idx.artists@[a].albums@[l].songs@.len() && #[trigger] td_value_at(idx, a, l, k1)
            != #[trigger] td_value_at(idx, a, l, k2)
}

pub open spec fn td_entry_ok(idx: MusicIndex, c: TotalDiscsConflict) -> bool {
    &&& 0 <= (c.artist as int) < idx.artists@.len()
    &&& 0 <= (c.album as int) < idx.artists@[c.artist as int].albums@.len()
    &&& c.values@.len() > 1
    &&& forall|k1: int, k2: int|
        0 <= k1 < k2 < c.values@.len() ==> opt_rank(c.values@[k1]) < opt_rank(c.values@[k2])
    &&& forall|v: Option<u16>|
        #[trigger] c.values@.contains(v) <==> {
            let idxs = idx.artists@[c.artist as int].albums@[c.album as int].songs@;
            exists|k: int| 0 <= k < idxs.len() && idx.songs@[idxs[k] as int].total_discs == v
        }
}

pub open spec fn td_has_site(r: Seq<TotalDiscsConflict>, a: int, l: int) -> bool {
    exists|k: int| 0 <= k < r.len() && r[k].artist == a && r[k].album == l
}

proof fn lemma_td_push_site(r: Seq<TotalDiscsConflict>, c: TotalDiscsConflict, a: int, l: int)
    ensures
        td_has_site(r.push(c), a, l) <==> (td_has_site(r, a, l) || (c.artist == a && c.album
            == l)),
{
    if td_has_site(r, a, l) {
        let k = choose|k: int| 0 <= k < r.len() && r[k].artist == a && r[k].album == l;
        assert(r.push(c)[k].artist == a && r.push(c)[k].album == l);
    }
    if c.artist == a && c.album == l {
        assert(r.push(c)[r.len() as int].artist == a && r.push(c)[r.len() as int].album == l);
    }
    if td_has_site(r.push(c), a, l) && !(c.artist == a && c.album == l) {
        let k = choose|k: int|
            0 <= k < r.push(c).len() && r.push(c)[k].artist == a && r.push(c)[k].album == l;
        assert(r[k].artist == a && r[k].album == l);
    }
}

proof fn lemma_insert_contains<T>(s: Seq<T>, p: int, x: T, w: T)
    requires
        0 <= p <= s.len(),
    ensures
        s.insert(p, x).contains(w) <==> (w == x || s.contains(w)),
{
    s.insert_ensures(p, x);
    let t = s.insert(p, x);
    if s.contains(w) {
        let i = choose|i: int| 0 <= i < s.len() && s[i] == w;
        if i < p {
            assert(t[i] == w);
        } else {
            assert(t[i + 1] == w);
        }
    }
    if t.contains(w) && w != x {
        let i = choose|i: int| 0 <= i < t.len() && t[i] == w;
        if i < p {
            assert(s[i] == w);
        } else {
            assert(i != p);
            assert(s[i - 1] == w);
        }
    }
    assert(t[p] == x);
}

fn opt_rank_exec(o: Option<u16>) -> (r: i32)
    ensures
        r as int == opt_rank(o),
{
    match o {
        None => -1,
        Some(v) => v as i32,
    }
}

fn find_rank_pos(vals: &Vec<Option<u16>>, v: Option<u16>) -> (p: usize)
    ensures
        p <= vals@.len(),
        forall|w: int| 0 <= w < p ==> opt_rank(vals@[w]) < opt_rank(v),
        p < vals@.len() ==> opt_rank(vals@[p as int]) >= opt_rank(v),
{
    let rv = opt_rank_exec(v);
    let mut p: usize = 0;
    while p < vals.len()
        invariant
            rv as int == opt_rank(v),
            p <= vals@.len(),
            forall|w: int| 0 <= w < p ==> opt_rank(vals@[w]) < opt_rank(v),
        decreases vals@.len() - p,
    {
        if opt_rank_exec(vals[p]) >= rv {
            return p;
        }
        p = p + 1;
    }
    p
}

/// The sorted, deduplicated `total_discs` values across one album's
/// songs.
fn collect_total_discs(index: &MusicIndex, a: usize, l: usize) -> (vals: Vec<Option<u16>>)
    requires
        index_wf(*index),
        (a as int) < index.artists@.len(),
        (l as int) < index.artists@[a as int].albums@.len(),
    ensures
        forall|k1: int, k2: int|
            0 <= k1 < k2 < vals@.len() ==> opt_rank(vals@[k1]) < opt_rank(vals@[k2]),
        forall|v: Option<u16>|
            #[trigger] vals@.contains(v) <==> {
                let idxs = index.artists@[a as int].albums@[l as int].songs@;
                exists|k: int| 0 <= k < idxs.len() && index.songs@[idxs[k] as int].total_discs == v
            },
{
    let ghost idxs = index.artists@[a as int].albums@[l as int].songs@;
    let mut vals: Vec<Option<u16>> = Vec::new();
    let count = index.artists[a].albums[l].songs.len();
    let mut k: usize = 0;
    while k < count
        invariant
            index_wf(*index),
            (a as int) < index.artists@.len(),
            (l as int) < index.artists@[a as int].albums@.len(),
            idxs == index.artists@[a as int].albums@[l as int].songs@,
            count == idxs.len(),
            k <= count,
            forall|k1: int, k2: int|
                0 <= k1 < k2 < vals@.len() ==> opt_rank(vals@[k1]) < opt_rank(vals@[k2]),
            forall|v: Option<u16>|
                #[trigger] vals@.contains(v) <==> exists|j: int|
                    0 <= j < k && index.songs@[idxs[j] as int].total_discs == v,
        decreases count - k,
    {
        let si = index.artists[a].albums[l].songs[k];
        proof {
            assert(artist_wf(index.artists@[a as int], index.songs@.len() as int));
            assert(album_wf(
                index.artists@[a as int].albums@[l as int],
                index.songs@.len() as int,
            ));
            assert((idxs[k as int] as int) < index.songs@.len());
        }
        let v = index.songs[si].total_discs;
        let ghost old_vals = vals@;
        let p = find_rank_pos(&vals, v);
        let mut already: bool = false;
        if p < vals.len() {
            already = opt_u16_eq(vals[p], v);
        }
        if !already {
            vals.insert(p, v);
            proof {
                old_vals.insert_ensures(p as int, v);
                assert forall|k1: int, k2: int| 0 <= k1 < k2 < vals@.len() implies opt_rank(
                    vals@[k1],
                ) < opt_rank(vals@[k2]) by {
                    if p < old_vals.len() {
                        assert(opt_rank(old_vals[p as int]) >= opt_rank(v));
                        assert(old_vals[p as int] != v);
                        assert(opt_rank(old_vals[p as int]) != opt_rank(v));
                    }
                }
            }
        }
        k = k + 1;
        proof {
            assert(index.songs@[idxs[k - 1] as int].total_discs == v);
            assert forall|w: Option<u16>| #[trigger]
                vals@.contains(w) <==> exists|j: int|
                    0 <= j < k && index.songs@[idxs[j] as int].total_discs == w by {
                if !already {
                    lemma_insert_contains(old_vals, p as int, v, w);
                } else {
                    assert(old_vals[p as int] == v);
                    assert(old_vals.contains(v));
                }
                if vals@.contains(w) {
                    if w == v {
                        assert(index.songs@[idxs[k - 1] as int].total_discs == w);
                    }
                }
                if exists|j: int| 0 <= j < k && index.songs@[idxs[j] as int].total_discs == w {
                    let j = choose|j: int|
                        0 <= j < k && index.songs@[idxs[j] as int].total_discs == w;
                    if j < k - 1 {
                        assert(old_vals.contains(w));
                    }
                }
            }
        }
    }
    vals
}

/// Reports every album whose songs disagree on `total_discs`: for each
/// such album, the sorted, deduplicated set of values found. Albums
/// whose songs all share one value (including all-absent) are not
/// reported.
pub fn check_inconsitent_total_discs(index: &MusicIndex) -> (r: Vec<TotalDiscsConflict>)
    requires
        index_wf(*index),
    ensures
        forall|k: int| 0 <= k < r@.len() ==> td_entry_ok(*index, #[trigger] r@[k]),
        forall|a: int, l: int|
            #[trigger] td_has_site(r@, a, l) <==> td_site_conflict(*index, a, l),
        forall|k1: int, k2: int|
            0 <= k1 < k2 < r@.len() ==> pair_lt(
                (r@[k1].artist, r@[k1].album),
                (r@[k2].artist, r@[k2].album),
            ),
{
    let mut r: Vec<TotalDiscsConflict> = Vec::new();
    let n = index.artists.len();
    let mut a: usize = 0;
    while a < n
        invariant
            index_wf(*index),
            n == index.artists@.len(),
            a <= n,
            forall|k: int| 0 <= k < r@.len() ==> td_entry_ok(*index, #[trigger] r@[k]),
            forall|x: int, y: int|
                #[trigger] td_has_site(r@, x, y) <==> (td_site_conflict(*index, x, y) && x < a),
            forall|k1: int, k2: int|
                0 <= k1 < k2 < r@.len() ==> pair_lt(
                    (r@[k1].artist, r@[k1].album),
                    (r@[k2].artist, r@[k2].album),
                ),
        decreases n - a,
    {
        let m = index.artists[a].albums.len();
        let mut l: usize = 0;
        while l < m
            invariant
                index_wf(*index),
                n == index.artists@.len(),
                a < n,
                m == index.artists@[a as int].albums@.len(),
                l <= m,
                forall|k: int| 0 <= k < r@.len() ==> td_entry_ok(*index, #[trigger] r@[k]),
                forall|x: int, y: int|
                    #[trigger] td_has_site(r@, x, y) <==> (td_site_conflict(*index, x, y) && (x < a
                        || (x == a && y < l))),
                forall|k1: int, k2: int|
                    0 <= k1 < k2 < r@.len() ==> pair_lt(
                        (r@[k1].artist, r@[k1].album),
                        (r@[k2].artist, r@[k2].album),
                    ),
            decreases m - l,
        {
            let vals = collect_total_discs(index, a, l);
            let ghost old_r = r@;
            let ghost idxs = index.artists@[a as int].albums@[l as int].songs@;
            if vals.len() > 1 {
                proof {
                    assert forall|k: int| 0 <= k < old_r.len() implies pair_lt(
                        (old_r[k].artist, old_r[k].album),
                        (a, l),
                    ) by {
                        assert(td_has_site(old_r, old_r[k].artist as int, old_r[k].album as int));
                    }
                    // two distinct sorted values give two disagreeing songs
                    assert(vals@.contains(vals@[0]));
                    assert(vals@.contains(vals@[1]));
                    assert(opt_rank(vals@[0]) < opt_rank(vals@[1]));
                    let j1 = choose|j: int|
                        0 <= j < idxs.len() && index.songs@[idxs[j] as int].total_discs
                            == vals@[0];
                    let j2 = choose|j: int|
                        0 <= j < idxs.len() && index.songs@[idxs[j] as int].total_discs
                            == vals@[1];
                    assert(td_value_at(*index, a as int, l as int, j1) != td_value_at(
                        *index,
                        a as int,
                        l as int,
                        j2,
                    ));
                    assert(td_site_conflict(*index, a as int, l as int));
                }
                r.push(TotalDiscsConflict { artist: a, album: l, values: vals });
            } else {
                proof {
                    if td_site_conflict(*index, a as int, l as int) {
                        let (k1, k2) = choose|k1: int, k2: int|
                            0 <= k1 < idxs.len() && 0 <= k2 < idxs.len() && #[trigger] td_value_at(
                                *index,
                                a as int,
                                l as int,
                                k1,
                            ) != #[trigger] td_value_at(*index, a as int, l as int, k2);
                        assert(td_value_at(*index, a as int, l as int, k1)
                            == index.songs@[idxs[k1] as int].total_discs);
                        assert(td_value_at(*index, a as int, l as int, k2)
                            == index.songs@[idxs[k2] as int].total_discs);
                        assert(vals@.contains(index.songs@[idxs[k1] as int].total_discs));
                        assert(vals@.contains(index.songs@[idxs[k2] as int].total_discs));
                        let i1 = choose|i: int|
                            0 <= i < vals@.len() && vals@[i] == index.songs@[idxs[k1] as int].total_discs;
                        let i2 = choose|i: int|
                            0 <= i < vals@.len() && vals@[i] == index.songs@[idxs[k2] as int].total_discs;
                        assert(i1 == i2);
                        assert(false);
                    }
                }
            }
            proof {
                assert forall|x: int, y: int| #[trigger]
                    td_has_site(r@, x, y) <==> (td_site_conflict(*index, x, y) && (x < a || (x == a
                        && y < l + 1))) by {
                    if vals@.len() > 1 {
                        lemma_td_push_site(old_r, r@[old_r.len() as int], x, y);
                    }
                }
            }
            l = l + 1;
        }
        a = a + 1;
    }
    r
}

} // verus!
