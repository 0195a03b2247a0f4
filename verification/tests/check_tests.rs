use music_organizer::check::{
    check_inconsitent_albums, check_inconsitent_artists, check_inconsitent_total_discs,
    check_inconsitent_total_tracks,
};
use music_organizer::{Metadata, MusicIndex};

fn meta(
    artist: &str,
    album: Option<&str>,
    title: &str,
    total_tracks: Option<u16>,
    total_discs: Option<u16>,
) -> Metadata {
    Metadata {
        track: None,
        total_tracks,
        disc: None,
        total_discs,
        artist: Some(String::from(artist)),
        album_artist: None,
        album: album.map(String::from),
        title: Some(String::from(title)),
    }
}

#[test]
fn artists_differing_only_by_case_are_reported() {
    let mut index = MusicIndex::from(String::from("/src"));
    index.add(&meta("Abba", Some("Gold"), "X", None, None), String::from("/src/a.mp3"));
    index.add(&meta("ABBA", Some("Gold"), "Y", None, None), String::from("/src/b.mp3"));
    index.add(&meta("Cher", Some("Solo"), "Z", None, None), String::from("/src/c.mp3"));
    let pairs = check_inconsitent_artists(&index);
    assert_eq!(pairs, vec![(0, 1)]);
}

#[test]
fn distinct_artist_names_are_not_reported() {
    let mut index = MusicIndex::from(String::from("/src"));
    index.add(&meta("Abba", Some("Gold"), "X", None, None), String::from("/src/a.mp3"));
    index.add(&meta("Cher", Some("Solo"), "Y", None, None), String::from("/src/b.mp3"));
    assert!(check_inconsitent_artists(&index).is_empty());
}

#[test]
fn albums_differing_only_by_case_are_reported() {
    let mut index = MusicIndex::from(String::from("/src"));
    index.add(&meta("Abba", Some("Gold"), "X", None, None), String::from("/src/a.mp3"));
    index.add(&meta("Abba", Some("GOLD"), "Y", None, None), String::from("/src/b.mp3"));
    index.add(&meta("Abba", Some("Live"), "Z", None, None), String::from("/src/c.mp3"));
    let triples = check_inconsitent_albums(&index);
    assert_eq!(triples, vec![(0, 0, 1)]);
}

#[test]
fn nameless_albums_are_not_compared() {
    let mut index = MusicIndex::from(String::from("/src"));
    index.add(&meta("Abba", None, "X", None, None), String::from("/src/a.mp3"));
    index.add(&meta("Abba", Some("Gold"), "Y", None, None), String::from("/src/b.mp3"));
    assert!(check_inconsitent_albums(&index).is_empty());
}

#[test]
fn diverging_total_tracks_are_reported_in_groups() {
    let mut index = MusicIndex::from(String::from("/src"));
    index.add(&meta("Abba", Some("Gold"), "X", Some(10), None), String::from("/src/a.mp3"));
    index.add(&meta("Abba", Some("Gold"), "Y", Some(10), None), String::from("/src/b.mp3"));
    index.add(&meta("Abba", Some("Gold"), "Z", None, None), String::from("/src/c.mp3"));
    let conflicts = check_inconsitent_total_tracks(&index);
    assert_eq!(conflicts.len(), 1);
    assert_eq!(conflicts[0].artist, 0);
    assert_eq!(conflicts[0].album, 0);
    assert_eq!(conflicts[0].groups.len(), 2);
    assert_eq!(conflicts[0].groups[0], (vec![0, 1], Some(10)));
    assert_eq!(conflicts[0].groups[1], (vec![2], None));
}

#[test]
fn uniform_total_tracks_are_not_reported() {
    let mut index = MusicIndex::from(String::from("/src"));
    index.add(&meta("Abba", Some("Gold"), "X", Some(10), None), String::from("/src/a.mp3"));
    index.add(&meta("Abba", Some("Gold"), "Y", Some(10), None), String::from("/src/b.mp3"));
    index.add(&meta("Abba", Some("Live"), "Z", None, None), String::from("/src/c.mp3"));
    index.add(&meta("Abba", Some("Live"), "W", None, None), String::from("/src/d.mp3"));
    assert!(check_inconsitent_total_tracks(&index).is_empty());
}

#[test]
fn diverging_total_discs_are_reported_sorted_and_deduplicated() {
    let mut index = MusicIndex::from(String::from("/src"));
    index.add(&meta("Abba", Some("Gold"), "X", None, Some(2)), String::from("/src/a.mp3"));
    index.add(&meta("Abba", Some("Gold"), "Y", None, Some(1)), String::from("/src/b.mp3"));
    index.add(&meta("Abba", Some("Gold"), "Z", None, None), String::from("/src/c.mp3"));
    index.add(&meta("Abba", Some("Gold"), "W", None, Some(2)), String::from("/src/d.mp3"));
    let conflicts = check_inconsitent_total_discs(&index);
    assert_eq!(conflicts.len(), 1);
    assert_eq!(conflicts[0].artist, 0);
    assert_eq!(conflicts[0].album, 0);
    assert_eq!(conflicts[0].values, vec![None, Some(1), Some(2)]);
}

#[test]
fn uniform_total_discs_are_not_reported() {
    let mut index = MusicIndex::from(String::from("/src"));
    index.add(&meta("Abba", Some("Gold"), "X", None, None), String::from("/src/a.mp3"));
    index.add(&meta("Abba", Some("Gold"), "Y", None, None), String::from("/src/b.mp3"));
    assert!(check_inconsitent_total_discs(&index).is_empty());
}
