use ac4_player::library::store::{
    check_identity, check_integrity, check_platform, check_relocation, check_tables,
    check_transfer, checked_name, checkpoint, next_position, normalize_parts, plan_transfer,
    removed_text, repair_session, require_playlist, validate_order, Appending, Insertion, PathPart,
    Row, APPLICATION,
};
use ac4_player::library::{
    not_saved, route, Change, Command, Event, LibraryController, Mutation, Notice, Snapshot, Task,
    Watch,
};
use ac4_player::media::FileStamp;
use ac4_player::model::{SelectedSource, SourceSelectionError};
use ac4_player::playlist::{
    decode_units, encode_units, reordered, BrowseState, Entry, EntryId, MediaId, PlaybackCursor,
    PlaybackMode, PlaylistId, PlaylistSnapshot, PlaylistSummary, SavedBrowse, SessionState,
};
use ac4_player::playlist_ui::{
    choose_mode, destination, drop_gap, entry_error, header_title, is_playing, move_playlist,
    row_text, select_all, take_up, State,
};
use std::collections::{HashMap, HashSet};
use std::path::PathBuf;
use std::sync::Arc;

fn entry(id: i64) -> Entry {
    Entry {
        id: EntryId(id),
        media: MediaId(id),
        source: SelectedSource::from_path(PathBuf::from(format!("{id}.ac4"))).unwrap(),
        error: None,
    }
}

fn summary(id: i64, count: usize) -> PlaylistSummary {
    PlaylistSummary {
        id: PlaylistId(id),
        name: "A".to_owned(),
        count,
        mode: PlaybackMode::Sequential,
    }
}

fn list(ids: &[i64]) -> PlaylistSnapshot {
    PlaylistSnapshot::new(
        summary(1, ids.len()),
        ids.iter().map(|id| entry(*id)).collect(),
        SavedBrowse::default(),
    )
}

#[test]
fn accepts_supported_container_extensions_without_opening_the_file() {
    for path in ["music.m4a", "movie.MP4", "stream.Ac4"] {
        assert!(SelectedSource::from_path(PathBuf::from(path)).is_ok());
    }
}

#[test]
fn rejects_unrelated_or_missing_extensions() {
    for path in ["music.wav", "movie.mkv", "stream"] {
        assert!(matches!(
            SelectedSource::from_path(PathBuf::from(path)),
            Err(SourceSelectionError::UnsupportedExtension)
        ));
    }
}

#[test]
fn a_source_is_shown_by_its_file_name() {
    let source = SelectedSource::from_path(PathBuf::from("/music/中文 1.ac4")).unwrap();
    assert_eq!(source.display_name(), "中文 1.ac4");
    assert_eq!(source.path(), &PathBuf::from("/music/中文 1.ac4"));
    assert!(matches!(
        SelectedSource::from_parts(PathBuf::from("x"), Some("mp4".to_owned()), None),
        Err(SourceSelectionError::MissingFileName)
    ));
    assert!(matches!(
        SelectedSource::from_parts(
            PathBuf::from("x"),
            Some("mp4".to_owned()),
            Some(String::new())
        ),
        Err(SourceSelectionError::MissingFileName)
    ));
    assert_eq!(
        SourceSelectionError::MissingFileName.text(),
        "The selected path has no file name"
    );
    assert_eq!(
        SourceSelectionError::UnsupportedExtension.text(),
        "Select an .m4a, .mp4, or .ac4 file"
    );
}

#[test]
fn live_cursor_neighbors_obey_list_boundaries_and_repeat_all_wraps() {
    let list = list(&[1, 2, 3]);
    let at = |index: usize| PlaybackCursor::new(list.summary.id, list.entries[index].dup());
    let middle = at(1);
    assert_eq!(middle.neighbor(&list, false, false), Some(EntryId(1)));
    assert_eq!(middle.neighbor(&list, true, false), Some(EntryId(3)));
    let first = at(0);
    let end_cursor = at(2);
    assert_eq!(first.neighbor(&list, false, false), None);
    assert_eq!(end_cursor.neighbor(&list, true, false), None);
    assert_eq!(first.neighbor(&list, false, true), Some(EntryId(3)));
    assert_eq!(end_cursor.neighbor(&list, true, true), Some(EntryId(1)));
}

#[test]
fn windows_paths_preserve_unpaired_utf16_and_reject_incomplete_code_units() {
    let units = vec![0xd800, 46, 97, 99, 52];
    assert_eq!(decode_units(&encode_units(&units)).unwrap(), units);
    assert_eq!(encode_units(&vec![0x1234]), [0x34, 0x12]);
    assert_eq!(
        decode_units(&vec![0]).unwrap_err(),
        "Invalid Windows path encoding"
    );
}

#[test]
fn deleting_current_and_successors_preserves_media_and_advances_anchor() {
    let a = list(&[1, 2, 3, 4]);
    let mut cursor = PlaybackCursor::new(PlaylistId(1), a.entries[1].dup());
    let b = list(&[1, 3, 4]);
    cursor.reconcile(Some(&a), Some(&b));
    assert!(!cursor.attached);
    assert_eq!(cursor.entry.id, EntryId(2));
    assert_eq!(cursor.neighbor(&b, true, false), Some(EntryId(3)));
    assert_eq!(cursor.neighbor(&b, false, false), Some(EntryId(1)));
    let c = list(&[4, 1]);
    cursor.reconcile(Some(&b), Some(&c));
    assert_eq!(cursor.neighbor(&c, true, false), Some(EntryId(4)));
    cursor.reconcile(Some(&c), None);
    assert_eq!(cursor.playlist, None);
}

#[test]
fn multi_row_drop_keeps_relative_order_and_original_gap() {
    let ids: Vec<_> = (1..=6).map(EntryId).collect();
    let selected = HashSet::from([2, 4]);
    assert_eq!(
        reordered(&ids, &selected, 5),
        [1, 3, 5, 2, 4, 6].map(EntryId)
    );
    assert_eq!(
        reordered(&ids, &selected, 99),
        [1, 3, 5, 6, 2, 4].map(EntryId)
    );
}

#[test]
fn selection_is_separate_from_playback_and_shift_uses_stable_anchor() {
    let a = list(&[1, 2, 3, 4]);
    let mut browse = BrowseState::default();
    browse.install(&a);
    browse.select(&a, EntryId(2), false, false);
    browse.select(&a, EntryId(4), false, true);
    assert_eq!(browse.ordered_selection(&a), [2, 3, 4].map(EntryId));
    browse.select(&a, EntryId(3), true, false);
    assert_eq!(browse.ordered_selection(&a), [2, 4].map(EntryId));
    browse.install(&list(&[1, 3]));
    assert_eq!(browse.ordered_selection(&list(&[1, 3])), [3].map(EntryId));
}

#[test]
fn modes_are_described() {
    assert_eq!(
        PlaybackMode::ALL.map(PlaybackMode::label),
        ["Sequential", "Repeat one", "Repeat all", "Shuffle"]
    );
    assert_eq!(PlaybackMode::Shuffle.description(), "Choose a different item at random");
}

fn session(cursor: PlaybackCursor) -> SessionState {
    SessionState {
        browse: Some(PlaylistId(1)),
        cursor: Some(cursor),
        frame: 480_000,
        sample_rate: 48_000,
        stamp: None,
    }
}

#[test]
fn deletion_repairs_resume_in_the_transaction_and_rejects_stale_checkpoint() {
    let before = list(&[1, 2, 3]);
    let after = list(&[2, 3]);
    let cursor = || PlaybackCursor::new(PlaylistId(1), before.entries[0].dup());
    let stored = repair_session(session(cursor()), Some(&before), Some(&after), true, None);
    let repaired = checkpoint(session(cursor()), None, stored.cursor, Some(&after));
    assert_eq!(repaired.frame, 480_000);
    let cursor = repaired.cursor.unwrap();
    assert!(!cursor.attached);
    assert_eq!(cursor.next_anchor, Some(EntryId(2)));
}

#[test]
fn a_session_follows_a_relocated_media_and_a_deleted_list() {
    let before = list(&[1]);
    let mut moved = entry(1);
    moved.source = SelectedSource::from_path(PathBuf::from("other.ac4")).unwrap();
    let after = PlaylistSnapshot::new(summary(1, 1), vec![moved], SavedBrowse::default());
    let state = session(PlaybackCursor::new(PlaylistId(1), before.entries[0].dup()));
    let state = repair_session(state, Some(&before), Some(&after), false, Some(PlaylistId(7)));
    assert_eq!(state.browse, Some(PlaylistId(7)));
    let cursor = state.cursor.unwrap();
    assert!(cursor.attached);
    assert_eq!(cursor.entry.source.display_name(), "other.ac4");
    let current = session(cursor);
    let kept = checkpoint(current, Some(PlaylistId(1)), None, Some(&after));
    assert!(kept.cursor.unwrap().attached);
}

#[test]
fn transactions_deduplicate_move_and_preserve_identity() {
    // Two paths are added twice: the second time they are duplicates.
    let mut adding = Appending::new(HashSet::new(), next_position(None));
    assert_eq!(adding.offer(10), Some(Insertion { media: 10, position: 0 }));
    assert_eq!(adding.offer(11), Some(Insertion { media: 11, position: 1 }));
    let mut again = Appending::new(adding.present, next_position(Some(1)));
    assert_eq!(again.offer(10), None);
    again.reject();
    assert_eq!(again.offer(11), None);
    assert_eq!(again.added_text(), "Added 0 · duplicates 2 · rejected 1");

    let rows = vec![
        Row { entry: EntryId(1), media: 10 },
        Row { entry: EntryId(2), media: 11 },
    ];
    let selected = HashSet::from([1, 2]);
    let copied = plan_transfer(&rows, &selected, HashSet::new(), 0, false);
    assert_eq!(copied.insertions.len(), 2);
    assert!(copied.removals.is_empty());
    assert_eq!(copied.message, "Copied 2 · merged 0");
    let moved = plan_transfer(&rows, &selected, HashSet::from([10, 11]), 2, true);
    assert!(moved.insertions.is_empty());
    assert_eq!(moved.removals, [1, 2].map(EntryId));
    assert_eq!(moved.message, "Moved 0 · merged 2");
    assert!(validate_order(&vec![1, 2], &vec![1, 1]).is_err());
    assert!(validate_order(&vec![1, 2], &vec![2, 1]).is_ok());
    assert_eq!(
        validate_order(&vec![1, 2], &vec![1]).unwrap_err(),
        "The list changed while reordering; try the operation again"
    );
}

#[test]
fn a_database_is_opened_only_where_it_is_the_players_own() {
    assert_eq!(check_identity(0, 0), Ok(true));
    assert_eq!(check_identity(1, APPLICATION), Ok(false));
    assert!(check_identity(2, APPLICATION).unwrap_err().starts_with("Unsupported library"));
    assert!(check_identity(1, 7).is_err());
    assert!(check_tables(0).is_ok());
    assert!(check_tables(3).unwrap_err().starts_with("Unrecognized library schema"));
    let (a, b) = ("linux".to_owned(), "macos".to_owned());
    assert!(check_platform(&a, &a).is_ok());
    assert!(check_platform(&a, &b).is_err());
    assert!(check_integrity(&"ok".to_owned()).is_ok());
    assert_eq!(
        check_integrity(&"row missing".to_owned()).unwrap_err(),
        "Library integrity check failed: row missing"
    );
}

#[test]
fn changes_are_refused_with_their_reason() {
    assert_eq!(checked_name(" \t Road trip\u{2003}"), Ok("Road trip".to_owned()));
    assert_eq!(checked_name(" \u{a0} "), Err("Enter a non-empty playlist name"));
    assert!(checked_name("a\0b").is_err());
    let (a, b) = (PlaylistId(1), PlaylistId(2));
    assert_eq!(
        check_transfer(a, a, true, true).unwrap_err(),
        "Choose a different destination playlist"
    );
    assert_eq!(
        check_transfer(a, b, true, false).unwrap_err(),
        "The playlist no longer exists"
    );
    assert!(check_transfer(a, b, true, true).is_ok());
    assert!(require_playlist(false).is_err());
    assert!(check_relocation(true).is_err());
    assert_eq!(check_relocation(false), Ok("Media location updated in every playlist"));
    assert_eq!(removed_text(3), "Removed 3 entries; media files were kept");
}

#[test]
fn paths_are_normalised_part_by_part() {
    let (anchor, current, name, parent) =
        (PathPart::Anchor, PathPart::Current, PathPart::Name, PathPart::Parent);
    assert_eq!(normalize_parts(&vec![anchor, name, current, name, parent, name]), [0, 1, 5]);
    assert_eq!(normalize_parts(&vec![anchor, parent, name]), [0, 2]);
    assert_eq!(normalize_parts(&vec![name, parent, parent]), [0; 0]);
}

#[test]
fn older_and_unwatched_snapshots_do_not_replace_what_is_shown() {
    let mut library = LibraryController::new(Ok(()));
    assert!(library.busy());
    let command = library.watch(Some(PlaylistId(1)), None).unwrap();
    library.sent(true);
    assert!(matches!(command, Command::Watch { serial: 1, .. }));
    assert!(library.watch(Some(PlaylistId(1)), None).is_none());
    let snapshot = |serial, revision| {
        Event::Snapshot(Snapshot {
            serial,
            revision,
            summaries: vec![summary(1, 2)],
            browse: Some(Arc::new(list(&[1, 2]))),
            playing: None,
        })
    };
    assert!(library.receive(snapshot(0, 3)).is_none());
    assert!(library.browse.is_none());
    assert_eq!(library.summaries.len(), 1);
    let notices = library.poll(vec![snapshot(1, 4), Event::Done, Event::Message(String::new())]);
    assert!(matches!(notices[..], [Notice::PlayingChanged { .. }]));
    assert!(library.ready && !library.busy());
    assert_eq!(library.message, "Library ready");
    assert!(library.receive(snapshot(1, 3)).is_none());
    assert_eq!(library.revision, 4);
    library.receive(Event::MediaError {
        revision: 5,
        media: MediaId(1),
        error: Some("gone".to_owned()),
    });
    assert_eq!(library.media_errors.get(&1), Some(&Some("gone".to_owned())));
    // Turning to the list that plays shows it at once.
    library.playing = Some(Arc::new(list(&[9])));
    library.desired_playing = Some(PlaylistId(1));
    library.browse = None;
    library.desired_browse = None;
    library.watch(Some(PlaylistId(1)), Some(PlaylistId(1)));
    assert_eq!(library.browse.as_ref().unwrap().entries[0].id, EntryId(9));
    library.sent(false);
    assert_eq!(
        library.error.as_deref(),
        Some("Library worker is unavailable; changes were not saved")
    );
    library.receive(Event::Recovered);
    assert!(library.error.is_none());
    let boot = library.receive(Event::Boot(SessionState::default()));
    assert!(matches!(boot, Some(Notice::Boot(_))));
    let failed = LibraryController::new(Err("no thread".to_owned()));
    assert_eq!(failed.error.as_deref(), Some("Cannot start library worker: no thread"));
}

#[test]
fn the_worker_settles_on_lists_that_exist() {
    let mut watch = Watch::new(&session(PlaybackCursor::new(PlaylistId(3), entry(1))));
    assert_eq!((watch.browse, watch.playing), (Some(PlaylistId(1)), Some(PlaylistId(3))));
    assert!(!watch.settle(&vec![summary(5, 0), summary(3, 0)]));
    assert_eq!((watch.browse, watch.playing), (Some(PlaylistId(5)), Some(PlaylistId(3))));
    watch.watch(4, Some(PlaylistId(3)), Some(PlaylistId(3)));
    assert!(watch.settle(&vec![summary(3, 0)]));
    let (event, snapshot) = watch.changed(Change {
        view: Some(PlaylistId(8)),
        message: "Playlist created".to_owned(),
        media_error: None,
    });
    assert!(snapshot && matches!(event, Event::Message(_)));
    assert_eq!((watch.revision, watch.browse), (1, Some(PlaylistId(8))));
    let (event, snapshot) = watch.changed(Change {
        view: None,
        message: String::new(),
        media_error: Some((MediaId(2), None)),
    });
    assert!(!snapshot && matches!(event, Event::MediaError { revision: 2, .. }));
    assert!(matches!(not_saved("disk full"), Event::Error(text) if text == "Not saved: disk full"));
}

#[test]
fn playlist_widgets_ask_for_what_they_show() {
    let summaries = vec![summary(1, 2), summary(2, 0)];
    assert_eq!(header_title(&summaries, Some(PlaylistId(2))), "A · 0");
    assert_eq!(header_title(&summaries, None), "Loading…");
    assert_eq!(row_text(true, true, 3, "x.ac4"), "▶ 03  x.ac4");
    assert_eq!(row_text(false, true, 12, "x.ac4"), "! 12  x.ac4");
    assert_eq!(row_text(false, false, 100, "x.ac4"), "100  x.ac4");
    assert_eq!((drop_gap(4, false), drop_gap(4, true)), (4, 5));
    assert_eq!(destination(0, 2, true), None);
    assert_eq!(destination(0, 2, false), Some(1));
    assert_eq!(destination(1, 2, false), None);
    assert!(matches!(
        move_playlist(&summaries, 0, 1),
        Mutation::OrderPlaylists(ids) if ids == [2, 1].map(PlaylistId)
    ));
    assert!(choose_mode(&summaries[0], PlaybackMode::Sequential).is_none());
    assert!(matches!(
        choose_mode(&summaries[0], PlaybackMode::Shuffle),
        Some(Mutation::Mode(PlaylistId(1), PlaybackMode::Shuffle))
    ));
    let shown = list(&[1, 2, 3]);
    let cursor = PlaybackCursor::new(PlaylistId(1), shown.entries[1].dup());
    assert!(is_playing(Some(&cursor), &shown, &shown.entries[1]));
    assert!(!is_playing(Some(&cursor), &shown, &shown.entries[0]));
    let mut browse = BrowseState::default();
    browse.install(&shown);
    take_up(&mut browse, &shown, EntryId(3));
    assert_eq!(browse.ordered_selection(&shown), [EntryId(3)]);
    select_all(&mut browse, &shown);
    take_up(&mut browse, &shown, EntryId(2));
    assert_eq!(browse.ordered_selection(&shown).len(), 3);
}

#[test]
fn the_management_window_creates_renames_and_deletes() {
    let mut state = State::default();
    assert!(!state.can_submit());
    state.start_new();
    assert!(state.can_submit() && state.submit_label() == "Create");
    assert!(matches!(state.submit(), Mutation::Create(name) if name == "New playlist"));
    state.edit(&summary(4, 0));
    assert_eq!(state.submit_label(), "Rename");
    assert!(matches!(state.submit(), Mutation::Rename(PlaylistId(4), name) if name == "A"));
    state.clear_editing();
    assert_eq!(state.name, "New playlist");
    state.ask_delete(PlaylistId(4));
    assert!(state.answer_delete(false).is_none());
    state.ask_delete(PlaylistId(4));
    assert!(matches!(
        state.answer_delete(true),
        Some(Mutation::Delete(PlaylistId(4)))
    ));
    let stamp = FileStamp { length: 1, modified_seconds: 2, modified_nanoseconds: 3 };
    assert_eq!(stamp, stamp);
}

#[test]
fn only_preferences_and_a_retry_do_without_a_database() {
    let unavailable = "Library is unavailable; changes were not saved";
    let refused = |command: Command| {
        matches!(route(command, false), Task::Refuse(reason) if reason == unavailable)
    };
    let watch = || Command::Watch { serial: 7, browse: Some(PlaylistId(1)), playing: None };
    assert!(refused(watch()));
    assert!(refused(Command::Mutate(Mutation::Create("B".to_owned()))));
    assert!(refused(Command::Browse(PlaylistId(1), SavedBrowse::default())));
    assert!(refused(Command::Session(SessionState::default())));
    assert!(matches!(route(Command::Preferences, false), Task::Preferences));
    assert!(matches!(route(Command::Retry, false), Task::Reopen));
    assert!(matches!(route(Command::Shutdown, false), Task::Stop));

    let task = route(watch(), true);
    assert!(task.shows_lists());
    assert!(matches!(
        task,
        Task::Watch { serial: 7, browse: Some(PlaylistId(1)), playing: None }
    ));
    assert!(matches!(route(Command::Mutate(Mutation::Create("B".to_owned())), true), Task::Mutate(_)));
    let browse = route(Command::Browse(PlaylistId(4), SavedBrowse::default()), true);
    assert!(!browse.shows_lists());
    assert!(matches!(browse, Task::Browse(PlaylistId(4), _)));
    assert!(matches!(
        route(Command::Session(SessionState::default()), true),
        Task::Session(_)
    ));
    assert!(matches!(route(Command::Preferences, true), Task::Preferences));
    assert!(matches!(route(Command::Retry, true), Task::Save));
    assert!(route(Command::Retry, true).shows_lists());
    assert!(matches!(route(Command::Shutdown, true), Task::Stop));
}

#[test]
fn what_was_found_out_last_counts_for_a_row() {
    let mut broken = entry(5);
    broken.error = Some("stored".to_owned());
    let mut found = HashMap::new();
    assert_eq!(entry_error(&broken, &found).as_deref(), Some("stored"));
    found.insert(5, Some("live".to_owned()));
    assert_eq!(entry_error(&broken, &found).as_deref(), Some("live"));
    found.insert(5, None);
    assert_eq!(entry_error(&broken, &found).as_deref(), None);
    found.insert(6, Some("live".to_owned()));
    assert_eq!(entry_error(&entry(5), &HashMap::new()).as_deref(), None);
    assert_eq!(entry_error(&entry(6), &found).as_deref(), Some("live"));
}

#[test]
fn a_shuffle_goes_to_a_different_item() {
    let list = PlaylistSnapshot::new(
        summary(1, 3),
        vec![entry(1), entry(2), entry(3)],
        SavedBrowse::default(),
    );
    let cursor = PlaybackCursor::new(PlaylistId(1), entry(2));
    assert_eq!(cursor.another(&list, 0), Some(EntryId(1)));
    assert_eq!(cursor.another(&list, 1), Some(EntryId(3)));
    assert_eq!(cursor.another(&list, 2), Some(EntryId(1)));
    let gone = PlaybackCursor::new(PlaylistId(1), entry(9));
    assert_eq!(gone.another(&list, 5), Some(EntryId(3)));
    let alone = PlaylistSnapshot::new(summary(1, 1), vec![entry(2)], SavedBrowse::default());
    assert_eq!(cursor.another(&alone, 4), None);
    let elsewhere = PlaybackCursor::new(PlaylistId(2), entry(2));
    assert_eq!(elsewhere.another(&list, 0), None);
}
