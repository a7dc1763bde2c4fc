use sori::paths::{
    ensure_dirs, hook_path, latest_link, new_recording_folder, private_files, recordings_dir,
    secure_existing_data, settings_file, socket_path, sori_dir, state_file, unused_name,
    update_latest_link, Entry, EntryKind, FolderEntry, PRIVATE_DIR_MODE, PRIVATE_FILE_MODE,
};
use sori::recordings::{
    format_elapsed, format_minutes, list_recordings, mark_failed, mark_stale_recordings,
    still_recording, FoundFolder, Meta, RecordingEntry, RecordingStatus,
};
use sori::stamp::{elapsed_seconds, Stamp};

// 2026-09-02 14:23:05 at two hours ahead of UTC
const START: Stamp = Stamp { secs: 1_788_351_785, nanos: 0, offset: 7_200 };

fn later(secs: i64) -> Stamp {
    Stamp { secs: START.secs + secs, ..START }
}

fn names(list: &[&str]) -> Vec<String> {
    list.iter().map(|n| n.to_string()).collect()
}

#[test]
fn everything_lives_below_the_home_directory() {
    assert_eq!(sori_dir("/Users/a"), "/Users/a/Sori");
    assert_eq!(sori_dir("/"), "/Sori");
    assert_eq!(recordings_dir("/Users/a"), "/Users/a/Sori/recordings");
    assert_eq!(latest_link("/Users/a"), "/Users/a/Sori/recordings/latest");
    assert_eq!(state_file("/Users/a"), "/Users/a/Sori/state.json");
    assert_eq!(socket_path("/Users/a"), "/Users/a/Sori/sori.sock");
    assert_eq!(hook_path("/Users/a"), "/Users/a/Sori/on-finish");
    assert_eq!(settings_file("/Users/a"), "/Users/a/Sori/settings.json");
    assert_eq!(ensure_dirs("/h"), ["/h/Sori", "/h/Sori/recordings"]);
    assert_eq!(
        private_files("/h"),
        ["/h/Sori/state.json", "/h/Sori/settings.json", "/h/Sori/sori.log", "/h/Sori/core.lock"]
    );
    assert_eq!(Meta::path_in("/x"), "/x/meta.json");
}

#[test]
fn old_data_is_made_private() {
    let entry = |path: &str, kind| Entry { path: path.to_string(), kind };
    let named = vec![entry("state", EntryKind::File), entry("log", EntryKind::Other)];
    let recordings = vec![
        FolderEntry {
            entry: entry("r1", EntryKind::Dir),
            inside: vec![entry("r1/mic.wav", EntryKind::File), entry("r1/x", EntryKind::Dir)],
        },
        FolderEntry { entry: entry("latest", EntryKind::Other), inside: vec![] },
    ];
    let changes: Vec<(String, u32)> = secure_existing_data(&named, &recordings)
        .into_iter()
        .map(|c| (c.path, c.mode))
        .collect();
    assert_eq!((PRIVATE_DIR_MODE, PRIVATE_FILE_MODE), (0o700, 0o600));
    assert_eq!(
        changes,
        [
            ("state".to_string(), 0o600),
            ("r1".to_string(), 0o700),
            ("r1/mic.wav".to_string(), 0o600)
        ]
    );
}

#[test]
fn taken_names_get_a_number() {
    assert_eq!(unused_name("a", &names(&[])), "a");
    assert_eq!(unused_name("a", &names(&["b", "a"])), "a-2");
    assert_eq!(unused_name("a", &names(&["a", "a-2", "a-4"])), "a-3");
}

#[test]
fn folders_are_named_after_the_local_start() {
    assert_eq!(
        new_recording_folder("/h", &START, &names(&[])),
        "/h/Sori/recordings/2026-09-02-1423"
    );
    assert_eq!(
        new_recording_folder("/h", &START, &names(&["2026-09-02-1423"])),
        "/h/Sori/recordings/2026-09-02-1423-2"
    );
    let utc = Stamp { offset: 0, ..START };
    assert_eq!(
        new_recording_folder("/h", &utc, &names(&[])),
        "/h/Sori/recordings/2026-09-02-1223"
    );
}

#[test]
fn the_latest_link_points_at_the_last_component() {
    assert_eq!(update_latest_link("/h/Sori/recordings/2026-09-02-1423"), "2026-09-02-1423");
    assert_eq!(update_latest_link("/h/x/.."), "/h/x/..");
    assert_eq!(update_latest_link("/h/abc/"), "abc");
}

#[test]
fn labels_show_start_and_length() {
    let entry = RecordingEntry {
        folder: "f".to_string(),
        started_at: later(445),
        duration_sec: 2_530,
        status: RecordingStatus::Done,
    };
    assert_eq!(entry.label(), "Sep 2, 14:30 · 42 min");
}

#[test]
fn lengths_are_written_out() {
    assert_eq!(format_minutes(59), "59 sec");
    assert_eq!(format_minutes(60), "1 min");
    assert_eq!(format_minutes(2_530), "42 min");
    assert_eq!(format_elapsed(754), "12:34");
    assert_eq!(format_elapsed(3_723), "1:02:03");
    assert_eq!(format_elapsed(5), "0:05");
}

#[test]
fn time_passes_in_whole_seconds() {
    assert_eq!(elapsed_seconds(&START, &later(61)), 61);
    assert_eq!(elapsed_seconds(&later(61), &START), 0);
    let almost = Stamp { nanos: 999_999_999, ..START };
    assert_eq!(elapsed_seconds(&almost, &later(2)), 1);
    let leap = Stamp { nanos: 1_500_000_000, ..later(54) };
    assert!(leap.is_valid());
    assert_eq!(elapsed_seconds(&START, &leap), 55);
    assert_eq!(elapsed_seconds(&leap, &later(64)), 9);
    assert_eq!(elapsed_seconds(&leap, &later(54 + 86_400)), 86_398);
    assert!(START.is_valid());
    assert!(!Stamp { offset: 86_400, ..START }.is_valid());
    assert!(!Stamp { nanos: 1_500_000_000, ..START }.is_valid());
    assert!(START.is_before(&later(1)));
    assert!(!START.is_before(&START));
}

fn found(name: &str, secs: i64) -> FoundFolder {
    FoundFolder {
        path: format!("/r/{name}"),
        name: Some(name.to_string()),
        is_dir: true,
        meta: Some(Meta::recording(later(secs), 48_000, "Mic", "Out")),
    }
}

fn shown(list: &[RecordingEntry]) -> Vec<&str> {
    list.iter().map(|e| e.folder.as_str()).collect()
}

#[test]
fn recordings_are_listed_newest_first() {
    let mut no_meta = found("x", 100);
    no_meta.meta = None;
    let mut file = found("y", 100);
    file.is_dir = false;
    let all = vec![
        found("a", 1),
        found("latest", 50),
        found("c", 3),
        no_meta,
        file,
        found("b", 2),
        found("b2", 2),
    ];
    assert_eq!(shown(&list_recordings(&all, 10)), ["/r/c", "/r/b", "/r/b2", "/r/a"]);
    assert_eq!(shown(&list_recordings(&all, 2)), ["/r/c", "/r/b"]);
    assert!(list_recordings(&all, 0).is_empty());
}

#[test]
fn dead_sessions_are_marked_as_interrupted() {
    let mut meta = Meta::recording(START, 48_000, "Mic", "Out");
    assert!(meta.mark_stale(Some(44 + 96_000 * 3 + 10)));
    assert_eq!(meta.status, RecordingStatus::Interrupted);
    assert_eq!(meta.duration_sec, 3);
    assert_eq!(meta.warnings, ["interrupted: core exited during recording"]);
    assert!(!meta.mark_stale(None));
    assert_eq!(meta.warnings.len(), 1);

    let mut known = Meta::recording(START, 48_000, "Mic", "Out");
    known.duration_sec = 7;
    assert!(known.mark_stale(Some(1_000_000)));
    assert_eq!(known.duration_sec, 7);

    let mut empty = Meta::recording(START, 48_000, "Mic", "Out");
    assert!(empty.mark_stale(Some(44)));
    assert_eq!(empty.duration_sec, 0);
}

#[test]
fn all_dead_sessions_are_marked_and_counted() {
    let mut done = found("done", 1);
    done.meta.as_mut().unwrap().status = RecordingStatus::Done;
    let mut file = found("file", 2);
    file.is_dir = false;
    let mut bare = found("bare", 3);
    bare.meta = None;
    let mut all = vec![found("a", 0), done, file, bare, found("b", 4)];
    let lens = vec![Some(44 + 96_000), None, None, None, None];
    assert!(still_recording(&all[0]));
    assert!(!still_recording(&all[1]) && !still_recording(&all[2]));
    assert_eq!(mark_stale_recordings(&mut all, &lens), 2);
    let status = |f: &FoundFolder| f.meta.as_ref().map(|m| m.status);
    assert_eq!(status(&all[0]), Some(RecordingStatus::Interrupted));
    assert_eq!(all[0].meta.as_ref().unwrap().duration_sec, 1);
    assert_eq!(status(&all[1]), Some(RecordingStatus::Done));
    assert_eq!(status(&all[2]), Some(RecordingStatus::Recording));
    assert_eq!(status(&all[3]), None);
    assert_eq!(status(&all[4]), Some(RecordingStatus::Interrupted));
    assert_eq!(all[4].meta.as_ref().unwrap().duration_sec, 0);
    assert_eq!(mark_stale_recordings(&mut all, &lens), 0);
}

#[test]
fn failed_recordings_keep_their_audio() {
    assert!(mark_failed(Some(44), None, None, START, "no disk").is_none());
    let meta = mark_failed(Some(44), Some(46), None, START, "no disk").unwrap();
    assert_eq!(meta.status, RecordingStatus::Failed);
    assert_eq!(meta.warnings, ["failed: no disk"]);
    assert_eq!((meta.tracks.mic.as_str(), meta.tracks.system.as_str()), ("mic.wav", "system.wav"));
    assert_eq!((meta.sample_rate, meta.devices.mic.as_str()), (0, ""));
    let loaded = Meta::recording(START, 44_100, "Mic", "Out");
    let meta = mark_failed(Some(100), None, Some(loaded), later(9), "x").unwrap();
    assert_eq!((meta.sample_rate, meta.started_at), (44_100, START));
}
