use music_organizer::plan::{DirCreationIter, FileOperationIter};
use music_organizer::{Changes, FileOpType, Metadata, MusicIndex};

fn meta(
    artist: Option<&str>,
    album: Option<&str>,
    title: Option<&str>,
    track: Option<u16>,
) -> Metadata {
    Metadata {
        track,
        total_tracks: None,
        disc: None,
        total_discs: None,
        artist: artist.map(String::from),
        album_artist: None,
        album: album.map(String::from),
        title: title.map(String::from),
    }
}

fn dirs(c: &Changes) -> Vec<String> {
    c.dir_creations.iter().map(|d| d.path.clone()).collect()
}

fn ops(c: &Changes) -> Vec<(String, String)> {
    c.file_operations.iter().map(|f| (f.old.clone(), f.new.clone())).collect()
}

#[test]
fn two_file_album_end_to_end() {
    let mut index = MusicIndex::from(String::from("/src"));
    index.add(
        &meta(Some("Abba"), Some("Gold"), Some("X"), Some(1)),
        String::from("/src/a.mp3"),
    );
    index.add(
        &meta(Some("Abba"), Some("Gold"), Some("Y"), Some(2)),
        String::from("/src/b.mp3"),
    );
    // the output root exists (and is empty): one artist directory, one
    // album directory, two renames
    let existing = vec![String::from("/out")];
    let changes = Changes::from(&index, &String::from("/out"), &existing);
    assert_eq!(
        dirs(&changes),
        vec![String::from("/out/Abba"), String::from("/out/Abba/Gold")]
    );
    assert_eq!(
        ops(&changes),
        vec![
            (String::from("/src/a.mp3"), String::from("/out/Abba/Gold/01 - Abba - X.mp3")),
            (String::from("/src/b.mp3"), String::from("/out/Abba/Gold/02 - Abba - Y.mp3")),
        ]
    );
}

#[test]
fn missing_output_root_is_scheduled_first() {
    let mut index = MusicIndex::from(String::from("/src"));
    index.add(&meta(Some("Abba"), Some("Gold"), Some("X"), Some(1)), String::from("/src/a.mp3"));
    let changes = Changes::from(&index, &String::from("/out"), &vec![]);
    assert_eq!(
        dirs(&changes),
        vec![
            String::from("/out"),
            String::from("/out/Abba"),
            String::from("/out/Abba/Gold"),
        ]
    );
}

#[test]
fn lone_single_is_flattened_under_artist() {
    let mut index = MusicIndex::from(String::from("/src"));
    index.add(
        &meta(Some("Abba"), Some("X - Single"), Some("X"), Some(1)),
        String::from("/src/a.mp3"),
    );
    let changes = Changes::from(&index, &String::from("/out"), &vec![]);
    // no album subdirectory: only the root and the artist directory
    assert_eq!(dirs(&changes), vec![String::from("/out"), String::from("/out/Abba")]);
    assert_eq!(
        ops(&changes),
        vec![(String::from("/src/a.mp3"), String::from("/out/Abba/Abba - X.mp3"))]
    );
}

#[test]
fn single_detection_needs_a_lone_song() {
    let mut index = MusicIndex::from(String::from("/src"));
    index.add(
        &meta(Some("Abba"), Some("X - single"), Some("X"), Some(1)),
        String::from("/src/a.mp3"),
    );
    index.add(
        &meta(Some("Abba"), Some("X - single"), Some("Y"), Some(2)),
        String::from("/src/b.mp3"),
    );
    let changes = Changes::from(&index, &String::from("/out"), &vec![]);
    // two album-mates: a regular album directory is created
    assert_eq!(
        dirs(&changes),
        vec![
            String::from("/out"),
            String::from("/out/Abba"),
            String::from("/out/Abba/X - single"),
        ]
    );
}

#[test]
fn nameless_album_is_flattened_with_single_naming() {
    let mut index = MusicIndex::from(String::from("/src"));
    index.add(&meta(Some("Abba"), None, Some("X"), Some(4)), String::from("/src/a.mp3"));
    let changes = Changes::from(&index, &String::from("/out"), &vec![]);
    assert_eq!(dirs(&changes), vec![String::from("/out"), String::from("/out/Abba")]);
    assert_eq!(
        ops(&changes),
        vec![(String::from("/src/a.mp3"), String::from("/out/Abba/Abba - X.mp3"))]
    );
}

#[test]
fn empty_album_name_is_flattened_with_single_naming() {
    let mut index = MusicIndex::from(String::from("/src"));
    index.add(&meta(Some("Abba"), Some(""), None, Some(7)), String::from("/src/a.mp3"));
    index.add(&meta(Some("Abba"), Some(""), Some("Y"), Some(8)), String::from("/src/b.mp3"));
    let changes = Changes::from(&index, &String::from("/out"), &vec![]);
    // the empty name is a single marker even with several songs and
    // even without a title, so no album directory is created
    assert_eq!(dirs(&changes), vec![String::from("/out"), String::from("/out/Abba")]);
    assert_eq!(
        ops(&changes),
        vec![
            (String::from("/src/a.mp3"), String::from("/out/Abba/Abba - .mp3")),
            (String::from("/src/b.mp3"), String::from("/out/Abba/Abba - Y.mp3")),
        ]
    );
}

#[test]
fn missing_track_renders_as_double_zero() {
    let mut index = MusicIndex::from(String::from("/src"));
    index.add(&meta(Some("Abba"), Some("Gold"), Some("X"), None), String::from("/src/a.mp3"));
    index.add(&meta(Some("Abba"), Some("Gold"), Some("Y"), Some(2)), String::from("/src/b.mp3"));
    let changes = Changes::from(&index, &String::from("/out"), &vec![]);
    assert_eq!(
        ops(&changes)[0].1,
        String::from("/out/Abba/Gold/00 - Abba - X.mp3")
    );
}

#[test]
fn missing_artist_and_title_render_as_empty_segments() {
    let with_album_artist = Metadata {
        track: Some(3),
        total_tracks: None,
        disc: None,
        total_discs: None,
        artist: None,
        album_artist: Some(String::from("V.A.")),
        album: Some(String::from("Gold")),
        title: None,
    };
    let mut index = MusicIndex::from(String::from("/src"));
    index.add(&with_album_artist, String::from("/src/a.mp3"));
    let changes = Changes::from(&index, &String::from("/out"), &vec![]);
    assert_eq!(
        ops(&changes),
        vec![(String::from("/src/a.mp3"), String::from("/out/V.A_/Gold/03 -  - .mp3"))]
    );
}

#[test]
fn forbidden_characters_are_sanitized_in_every_segment() {
    let mut index = MusicIndex::from(String::from("/src"));
    index.add(
        &meta(Some("AC/DC"), Some("High?"), Some("T:NT"), Some(1)),
        String::from("/src/a.mp3"),
    );
    let changes = Changes::from(&index, &String::from("/out"), &vec![]);
    assert_eq!(
        dirs(&changes),
        vec![
            String::from("/out"),
            String::from("/out/ACDC"),
            String::from("/out/ACDC/High"),
        ]
    );
    assert_eq!(
        ops(&changes),
        vec![(String::from("/src/a.mp3"), String::from("/out/ACDC/High/01 - ACDC - TNT.mp3"))]
    );
}

#[test]
fn existing_directories_are_not_scheduled() {
    let mut index = MusicIndex::from(String::from("/src"));
    index.add(&meta(Some("Abba"), Some("Gold"), Some("X"), Some(1)), String::from("/src/a.mp3"));
    let existing = vec![String::from("/out"), String::from("/out/Abba")];
    let changes = Changes::from(&index, &String::from("/out"), &existing);
    assert_eq!(dirs(&changes), vec![String::from("/out/Abba/Gold")]);
}

#[test]
fn song_already_in_place_is_skipped() {
    let mut index = MusicIndex::from(String::from("/src"));
    index.add(
        &meta(Some("Abba"), Some("Gold"), Some("X"), Some(1)),
        String::from("/out/Abba/Gold/01 - Abba - X.mp3"),
    );
    let existing = vec![
        String::from("/out"),
        String::from("/out/Abba"),
        String::from("/out/Abba/Gold"),
    ];
    let changes = Changes::from(&index, &String::from("/out"), &existing);
    assert!(changes.dir_creations.is_empty());
    assert!(changes.file_operations.is_empty());
}

#[test]
fn unknown_songs_keep_their_file_name() {
    let mut index = MusicIndex::from(String::from("/src"));
    index.add(&meta(None, None, None, None), String::from("/src/stray.mp3"));
    let changes = Changes::from(&index, &String::from("/out"), &vec![]);
    assert_eq!(dirs(&changes), vec![String::from("/out"), String::from("/out/unknown")]);
    assert_eq!(
        ops(&changes),
        vec![(String::from("/src/stray.mp3"), String::from("/out/unknown/stray.mp3"))]
    );
}

#[test]
fn unknown_song_already_in_place_is_skipped() {
    let mut index = MusicIndex::from(String::from("/src"));
    index.add(&meta(None, None, None, None), String::from("/out/unknown/stray.mp3"));
    let existing = vec![String::from("/out"), String::from("/out/unknown")];
    let changes = Changes::from(&index, &String::from("/out"), &existing);
    assert!(changes.dir_creations.is_empty());
    assert!(changes.file_operations.is_empty());
}

#[test]
fn planning_twice_after_applying_yields_nothing() {
    let mut index = MusicIndex::from(String::from("/src"));
    index.add(&meta(Some("Abba"), Some("Gold"), Some("X"), Some(1)), String::from("/src/a.mp3"));
    index.add(&meta(Some("Abba"), Some("Gold"), Some("Y"), None), String::from("/src/b.mp3"));
    index.add(&meta(Some("Cher"), Some("C - single"), Some("C"), None), String::from("/src/c.mp3"));
    index.add(&meta(None, None, None, None), String::from("/src/stray.mp3"));
    let out = String::from("/out");
    let existing: Vec<String> = vec![];
    let first = Changes::from(&index, &out, &existing);
    assert!(!first.file_operations.is_empty());

    // apply the plan: move every song to its target, create every dir
    let mut applied = index.clone();
    for op in &first.file_operations {
        for song in applied.songs.iter_mut() {
            if song.current_file == op.old {
                song.current_file = op.new.clone();
            }
        }
    }
    let mut existing2 = existing.clone();
    for d in &first.dir_creations {
        existing2.push(d.path.clone());
    }

    let second = Changes::from(&applied, &out, &existing2);
    assert!(second.dir_creations.is_empty());
    assert!(second.file_operations.is_empty());
}

#[test]
fn plan_never_moves_a_file_onto_itself() {
    let mut index = MusicIndex::from(String::from("/src"));
    index.add(&meta(Some("Abba"), Some("Gold"), Some("X"), Some(1)), String::from("/src/a.mp3"));
    index.add(
        &meta(Some("Abba"), Some("Gold"), Some("Y"), Some(2)),
        String::from("/out/Abba/Gold/02 - Abba - Y.mp3"),
    );
    index.add(&meta(None, None, None, None), String::from("/out/unknown/stray.mp3"));
    let changes = Changes::from(&index, &String::from("/out"), &vec![]);
    for op in &changes.file_operations {
        assert_ne!(op.old, op.new);
    }
}

#[test]
fn dir_creation_iter_hands_out_in_order() {
    let mut index = MusicIndex::from(String::from("/src"));
    index.add(&meta(Some("Abba"), Some("Gold"), Some("X"), Some(1)), String::from("/src/a.mp3"));
    let changes = Changes::from(&index, &String::from("/out"), &vec![]);
    let mut iter = changes.dir_creation_iter();
    let mut seen: Vec<String> = Vec::new();
    while let Some(d) = iter.next() {
        seen.push(d.path.clone());
    }
    assert_eq!(seen, dirs(&changes));
    assert!(iter.next().is_none());
}

#[test]
fn file_operation_iter_hands_out_in_order() {
    let mut index = MusicIndex::from(String::from("/src"));
    index.add(&meta(Some("Abba"), Some("Gold"), Some("X"), Some(1)), String::from("/src/a.mp3"));
    index.add(&meta(Some("Abba"), Some("Gold"), Some("Y"), Some(2)), String::from("/src/b.mp3"));
    let changes = Changes::from(&index, &String::from("/out"), &vec![]);
    let mut iter = changes.file_operation_iter(FileOpType::Move);
    let mut seen: Vec<(String, String)> = Vec::new();
    while let Some(f) = iter.next() {
        seen.push((f.old.clone(), f.new.clone()));
    }
    assert_eq!(seen, ops(&changes));

    let mut iter2 = FileOperationIter::from(&changes, FileOpType::Copy);
    assert!(iter2.next().is_some());

    let mut diter = DirCreationIter::from(&changes);
    assert!(diter.next().is_some());
}

#[test]
fn file_op_type_from_copy_flag() {
    assert_eq!(FileOpType::from(true), FileOpType::Copy);
    assert_eq!(FileOpType::from(false), FileOpType::Move);
}
