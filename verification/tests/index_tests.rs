use music_organizer::tag::{
    num_field_action, pair_field_action, str_field_action, zero_none, NumFieldAction,
    PairFieldAction, StrFieldAction,
};
use music_organizer::{Metadata, MusicIndex};

fn meta(
    artist: Option<&str>,
    album_artist: Option<&str>,
    album: Option<&str>,
    title: Option<&str>,
    track: Option<u16>,
    total_tracks: Option<u16>,
) -> Metadata {
    Metadata {
        track,
        total_tracks,
        disc: None,
        total_discs: None,
        artist: artist.map(String::from),
        album_artist: album_artist.map(String::from),
        album: album.map(String::from),
        title: title.map(String::from),
    }
}

#[test]
fn album_artist_takes_precedence_over_artist() {
    let mut index = MusicIndex::from(String::from("/src"));
    index.add(
        &meta(Some("Y"), Some("X"), Some("Gold"), Some("T"), Some(1), None),
        String::from("/src/a.mp3"),
    );
    assert_eq!(index.artists.len(), 1);
    assert_eq!(index.artists[0].name, "X");
    assert!(index.unknown.is_empty());
}

#[test]
fn song_without_any_artist_goes_to_unknown() {
    let mut index = MusicIndex::from(String::from("/src"));
    index.add(
        &meta(None, None, Some("Gold"), Some("T"), None, None),
        String::from("/src/a.mp3"),
    );
    assert_eq!(index.songs.len(), 1);
    assert!(index.artists.is_empty());
    assert_eq!(index.unknown, vec![0]);
}

#[test]
fn songs_group_under_matching_artist_and_album() {
    let mut index = MusicIndex::from(String::from("/src"));
    index.add(
        &meta(Some("Abba"), None, Some("Gold"), Some("X"), Some(1), None),
        String::from("/src/a.mp3"),
    );
    index.add(
        &meta(Some("Abba"), None, Some("Gold"), Some("Y"), Some(2), None),
        String::from("/src/b.mp3"),
    );
    index.add(
        &meta(Some("Abba"), None, Some("Live"), Some("Z"), Some(1), None),
        String::from("/src/c.mp3"),
    );
    assert_eq!(index.artists.len(), 1);
    assert_eq!(index.artists[0].albums.len(), 2);
    assert_eq!(index.artists[0].albums[0].songs, vec![0, 1]);
    assert_eq!(index.artists[0].albums[1].songs, vec![2]);
}

#[test]
fn differently_cased_names_are_not_merged() {
    let mut index = MusicIndex::from(String::from("/src"));
    index.add(
        &meta(Some("Abba"), None, Some("Gold"), Some("X"), None, None),
        String::from("/src/a.mp3"),
    );
    index.add(
        &meta(Some("ABBA"), None, Some("GOLD"), Some("Y"), None, None),
        String::from("/src/b.mp3"),
    );
    assert_eq!(index.artists.len(), 2);
    assert_eq!(index.artists[0].name, "Abba");
    assert_eq!(index.artists[1].name, "ABBA");
}

#[test]
fn absent_album_matches_absent_album() {
    let mut index = MusicIndex::from(String::from("/src"));
    index.add(
        &meta(Some("Abba"), None, None, Some("X"), None, None),
        String::from("/src/a.mp3"),
    );
    index.add(
        &meta(Some("Abba"), None, None, Some("Y"), None, None),
        String::from("/src/b.mp3"),
    );
    assert_eq!(index.artists[0].albums.len(), 1);
    assert_eq!(index.artists[0].albums[0].name, None);
    assert_eq!(index.artists[0].albums[0].songs, vec![0, 1]);
}

#[test]
fn all_indices_stay_valid() {
    let mut index = MusicIndex::from(String::from("/src"));
    for i in 0..10usize {
        let artist = if i % 3 == 0 { None } else { Some("A") };
        index.add(
            &meta(artist, None, Some("Gold"), Some("T"), None, None),
            format!("/src/{}.mp3", i),
        );
    }
    let n = index.songs.len();
    for u in &index.unknown {
        assert!(*u < n);
    }
    for ar in &index.artists {
        for al in &ar.albums {
            assert!(!al.songs.is_empty());
            for si in &al.songs {
                assert!(*si < n);
            }
        }
    }
}

#[test]
fn zero_is_normalized_to_absent() {
    assert_eq!(zero_none(Some(0)), None);
    assert_eq!(zero_none(Some(7)), Some(7));
    assert_eq!(zero_none(None), None);
}

#[test]
fn string_field_actions() {
    assert_eq!(str_field_action(&None), StrFieldAction::Keep);
    assert_eq!(str_field_action(&Some(String::new())), StrFieldAction::Remove);
    assert_eq!(
        str_field_action(&Some(String::from("x"))),
        StrFieldAction::Replace(String::from("x"))
    );
}

#[test]
fn numeric_field_actions() {
    assert_eq!(num_field_action(None), NumFieldAction::Keep);
    assert_eq!(num_field_action(Some(0)), NumFieldAction::Remove);
    assert_eq!(num_field_action(Some(3)), NumFieldAction::Replace(3));
}

#[test]
fn paired_field_actions() {
    assert_eq!(pair_field_action(None, None), PairFieldAction::Keep);
    assert_eq!(pair_field_action(Some(0), Some(0)), PairFieldAction::Remove);
    assert_eq!(pair_field_action(Some(1), Some(9)), PairFieldAction::ReplaceBoth(1, 9));
    assert_eq!(pair_field_action(Some(1), None), PairFieldAction::ReplaceNumber(1));
    assert_eq!(pair_field_action(None, Some(9)), PairFieldAction::ReplaceTotal(9));
}
