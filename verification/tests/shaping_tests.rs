use edex_core::constant::{reader_event_key, resize_event_key, writer_event_key};
use edex_core::file::{
    convert_path_to_string, scan_directory, CwdPollAction, DirectoryWatcherEvent, FileEntry,
    FileInfo, FileType, PtyCwdWatcher, WatcherPayload,
};
use edex_core::path::{convert_path_to_strong, cwd_from_listing};
use edex_core::sys::{extract_cpu_name, extract_disk_usage, DiskSample, DiskUsage, IPInformation};

#[test]
fn event_keys_embed_the_id() {
    assert_eq!(writer_event_key(&0), "writer-0");
    assert_eq!(writer_event_key(&7), "writer-7");
    assert_eq!(resize_event_key(&42), "resize-42");
    assert_eq!(reader_event_key(&255), "data-255");
}

#[test]
fn geo_location_joins_non_empty_parts() {
    let info = IPInformation::new(
        "203.0.113.9".to_string(),
        "success".to_string(),
        "DE".to_string(),
        "BE".to_string(),
        "Berlin".to_string(),
    );
    assert!(!info.is_fail());
    assert_eq!(info.get_geo_location(), "DE/BE/Berlin");

    let partial = IPInformation::new(
        "203.0.113.9".to_string(),
        "success".to_string(),
        "DE".to_string(),
        "".to_string(),
        "Berlin".to_string(),
    );
    assert_eq!(partial.get_geo_location(), "DE/Berlin");

    let empty = IPInformation::new(
        "203.0.113.9".to_string(),
        "success".to_string(),
        "".to_string(),
        "".to_string(),
        "".to_string(),
    );
    assert_eq!(empty.get_geo_location(), "");
}

#[test]
fn failed_lookup_is_unknown() {
    let info = IPInformation::new(
        "203.0.113.9".to_string(),
        "fail".to_string(),
        "DE".to_string(),
        "BE".to_string(),
        "Berlin".to_string(),
    );
    assert!(info.is_fail());
    assert_eq!(info.get_geo_location(), "UNKNOWN");
    assert_eq!(info.query(), "203.0.113.9");
}

#[test]
fn cpu_names_are_shortened() {
    assert_eq!(
        extract_cpu_name("Intel(R) Core(TM) i7-8550U CPU @ 1.80GHz"),
        Some("Intel(R) Core(TM) i7-8550U ".to_string())
    );
    assert_eq!(
        extract_cpu_name("  AMD Ryzen 7 5800X 8-Core Processor "),
        Some("AMD Ryzen 7 5800X".to_string())
    );
    assert_eq!(extract_cpu_name("AMD A4"), Some("AMD A4".to_string()));
    assert_eq!(extract_cpu_name(" Apple M2 "), Some("Apple M2".to_string()));
}

#[test]
fn disk_listing_is_sorted_and_deduplicated() {
    let samples = vec![
        DiskSample {
            name: "usb".to_string(),
            removable: true,
            total_space: 100,
            available_space: 25,
        },
        DiskSample {
            name: "root".to_string(),
            removable: false,
            total_space: 200,
            available_space: 50,
        },
        DiskSample {
            name: "root".to_string(),
            removable: false,
            total_space: 200,
            available_space: 50,
        },
        DiskSample {
            name: "data".to_string(),
            removable: false,
            total_space: 3,
            available_space: 1,
        },
    ];
    let rows = extract_disk_usage(&samples);
    let expected = vec![
        DiskUsage {
            name: "data".to_string(),
            internal: true,
            total: 3,
            available: 1,
            usage: 66,
        },
        DiskUsage {
            name: "root".to_string(),
            internal: true,
            total: 200,
            available: 50,
            usage: 75,
        },
        DiskUsage {
            name: "usb".to_string(),
            internal: false,
            total: 100,
            available: 25,
            usage: 75,
        },
    ];
    assert_eq!(rows, expected);
}

#[test]
fn empty_disk_reports_zero_usage() {
    let samples = vec![DiskSample {
        name: "ghostly".to_string(),
        removable: false,
        total_space: 0,
        available_space: 0,
    }];
    let rows = extract_disk_usage(&samples);
    assert_eq!(rows.len(), 1);
    assert_eq!(rows[0].usage, 0);
}

#[test]
fn directory_listing_order() {
    let entries = vec![
        FileEntry {
            name: "notes.txt".to_string(),
            kind: FileType::File,
            path: "/home/u/notes.txt".to_string(),
        },
        FileEntry {
            name: ".config".to_string(),
            kind: FileType::Directory,
            path: "/home/u/.config".to_string(),
        },
        FileEntry {
            name: "music".to_string(),
            kind: FileType::Directory,
            path: "/home/u/music".to_string(),
        },
        FileEntry {
            name: "link".to_string(),
            kind: FileType::SystemLink,
            path: "/home/u/link".to_string(),
        },
        FileEntry {
            name: ".bashrc".to_string(),
            kind: FileType::File,
            path: "/home/u/.bashrc".to_string(),
        },
    ];
    let info = scan_directory("/home/u".to_string(), entries);
    assert_eq!(info.path().as_str(), "/home/u");
    let names: Vec<&str> = info.files().iter().map(|f| f.name.as_str()).collect();
    // links first, then directories (hidden first), then files (hidden first)
    assert_eq!(names, vec!["link", ".config", "music", ".bashrc", "notes.txt"]);
    let config: &FileInfo = &info.files()[1];
    assert!(config.hidden);
    assert_eq!(config.path, "/home/u/.config/");
    assert_eq!(info.files()[0].t, FileType::SystemLink);
}

#[test]
fn path_conversion_adds_one_slash() {
    assert_eq!(convert_path_to_string("/a/b", true), "/a/b/");
    assert_eq!(convert_path_to_string("/a/b/", true), "/a/b/");
    assert_eq!(convert_path_to_string("/a/b", false), "/a/b");
    assert_eq!(convert_path_to_strong("/c", true), "/c/");
    assert_eq!(convert_path_to_strong("", true), "/");
}

#[test]
fn cwd_parsed_from_lsof_listing() {
    assert_eq!(
        cwd_from_listing("p4242\nn/home/user/project\n"),
        Some("/home/user/project".to_string())
    );
    assert_eq!(cwd_from_listing("n/tmp"), Some("/tmp".to_string()));
    assert_eq!(cwd_from_listing("p4242\nn/x\r\n"), Some("/x".to_string()));
    assert_eq!(cwd_from_listing(""), None);
    assert_eq!(cwd_from_listing("\n"), None);
    assert_eq!(cwd_from_listing("n"), Some("".to_string()));
}

#[test]
fn cwd_watcher_retargets_only_on_change() {
    let mut watcher = PtyCwdWatcher::new();
    assert_eq!(watcher.poll_target(), None);
    edex_core::file::handle_watch_request(
        &mut watcher,
        DirectoryWatcherEvent::Watch { initial: Some(WatcherPayload::new(4242)) },
    );
    assert_eq!(watcher.poll_target(), Some(4242));

    let first = watcher.cwd_resolved(&"/home/user".to_string());
    match first {
        CwdPollAction::Rewatch { unwatch, watch } => {
            assert_eq!(unwatch, None);
            assert_eq!(watch, "/home/user");
        }
        CwdPollAction::Idle => panic!("expected a rewatch on the first resolution"),
    }
    watcher.confirm_watch("/home/user".to_string());

    assert!(matches!(
        watcher.cwd_resolved(&"/home/user".to_string()),
        CwdPollAction::Idle
    ));

    match watcher.cwd_resolved(&"/home/user/src".to_string()) {
        CwdPollAction::Rewatch { unwatch, watch } => {
            assert_eq!(unwatch, Some("/home/user".to_string()));
            assert_eq!(watch, "/home/user/src");
        }
        CwdPollAction::Idle => panic!("expected a rewatch on a change"),
    }

    edex_core::file::handle_watch_request(
        &mut watcher,
        DirectoryWatcherEvent::Watch { initial: None },
    );
    assert_eq!(watcher.poll_target(), None);
}
