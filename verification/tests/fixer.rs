use sc2_replay_fixer::fixer::{
    batch_fix_dir, batch_fix_dirs, find_bytes_offset, fix_single_file, generate_output_path,
    has_replay_extension, contains_fixed_marker, patch_data, search_signature, target_signature,
    DirListing, FileRecord, FixError, FixOutcome,
};

#[test]
fn test_find_bytes_offset() {
    let data = vec![0x00, 0x01, 0x09, 0x00, 0x04, 0x09, 0x00, 0x06, 0x09, 0x00, 0x02];
    let search = search_signature();
    let offset = find_bytes_offset(&data, &search);

    assert_eq!(offset, Some(2));
}

#[test]
fn test_generate_output_path() {
    let input_path = "test.SC2Replay";
    let output_path = generate_output_path(input_path);

    assert_eq!(output_path, String::from("test-FIXED.SC2Replay"));
}

#[test]
fn test_generate_output_path_with_directory() {
    assert_eq!(
        generate_output_path("replays/night/game7.SC2Replay"),
        String::from("replays/night/game7-FIXED.SC2Replay")
    );
}

#[test]
fn test_signatures_differ_only_in_known_bytes() {
    let s = search_signature();
    let t = target_signature();
    assert_eq!(s.len(), 8);
    assert_eq!(t.len(), 8);
    assert_eq!(s, vec![0x09, 0x00, 0x04, 0x09, 0x00, 0x06, 0x09, 0x00]);
    assert_eq!(t, vec![0x09, 0x0A, 0x04, 0x09, 0x00, 0x06, 0x09, 0x1E]);
}

#[test]
fn test_fix_replaces_exactly_eight_bytes() {
    let data = vec![0x00, 0x01, 0x09, 0x00, 0x04, 0x09, 0x00, 0x06, 0x09, 0x00, 0x02];
    match fix_single_file("game.SC2Replay", &data) {
        Ok(FixOutcome::Fixed {
            output_path,
            output_data,
        }) => {
            assert_eq!(output_path, String::from("game-FIXED.SC2Replay"));
            assert_eq!(
                output_data,
                vec![0x00, 0x01, 0x09, 0x0A, 0x04, 0x09, 0x00, 0x06, 0x09, 0x1E, 0x02]
            );
            assert_eq!(output_data.len(), data.len());
        }
        other => panic!("expected a fixed copy, got {:?}", other),
    }
}

#[test]
fn test_pattern_not_found_yields_no_output() {
    let data = vec![0x11u8; 200];
    let r = fix_single_file("game.SC2Replay", &data);
    assert_eq!(r, Err(FixError::PatternNotFound));
}

#[test]
fn test_signature_outside_scan_window_is_not_patched() {
    // The signature starts at offset 125, so it reaches past the first
    // 128 bytes and must be ignored.
    let mut data = vec![0u8; 200];
    data[0] = 1;
    let sig = search_signature();
    data[125..133].copy_from_slice(&sig);
    assert_eq!(
        fix_single_file("game.SC2Replay", &data),
        Err(FixError::PatternNotFound)
    );

    // At offset 120 it fits the window exactly and is patched.
    let mut data2 = vec![0u8; 200];
    data2[0] = 1;
    data2[120..128].copy_from_slice(&sig);
    let off = find_bytes_offset(&data2, &sig);
    assert_eq!(off, Some(120));
}

#[test]
fn test_buffer_shorter_than_signature() {
    let data = vec![0x09, 0x00, 0x04];
    let sig = search_signature();
    assert_eq!(find_bytes_offset(&data, &sig), None);
}

#[test]
fn test_already_fixed_name_is_skipped() {
    let data = vec![0x09, 0x00, 0x04, 0x09, 0x00, 0x06, 0x09, 0x00];
    let r = fix_single_file("a/test-FIXED.SC2Replay", &data);
    assert_eq!(r, Ok(FixOutcome::AlreadyFixed));
}

#[test]
fn test_wrong_extension_is_invalid_format() {
    let data = vec![0x09, 0x00, 0x04, 0x09, 0x00, 0x06, 0x09, 0x00];
    assert_eq!(
        fix_single_file("notes.txt", &data),
        Err(FixError::InvalidFormat)
    );
    assert_eq!(
        fix_single_file("noextension", &data),
        Err(FixError::InvalidFormat)
    );
    assert_eq!(
        fix_single_file(".SC2Replay", &data),
        Err(FixError::InvalidFormat)
    );
}

#[test]
fn test_extension_and_marker_predicates() {
    assert!(has_replay_extension("x.SC2Replay"));
    assert!(has_replay_extension("dir/a.b.SC2Replay"));
    assert!(!has_replay_extension("x.sc2replay"));
    assert!(!has_replay_extension("x"));
    assert!(!has_replay_extension(".SC2Replay"));
    assert!(contains_fixed_marker("x-FIXED.SC2Replay"));
    assert!(!contains_fixed_marker("x.SC2Replay"));
    assert!(!contains_fixed_marker("dir-FIXED/x.SC2Replay"));
}

#[test]
fn test_patch_data_in_place() {
    let sig = search_signature();
    let mut data = vec![0xFFu8; 12];
    data[3..11].copy_from_slice(&sig);
    patch_data(&mut data, 3);
    let mut expected = vec![0xFFu8; 12];
    expected[3..11].copy_from_slice(&target_signature());
    assert_eq!(data, expected);
}

fn broken_record(name: &str) -> FileRecord {
    FileRecord {
        path: String::from(name),
        data: Some(vec![0x55u8; 64]),
    }
}

fn healthy_record(name: &str) -> FileRecord {
    let mut bytes = vec![0x00u8, 0x01];
    bytes.extend_from_slice(&search_signature());
    bytes.push(0x02);
    FileRecord {
        path: String::from(name),
        data: Some(bytes),
    }
}

#[test]
fn test_batch_fix_dir_aggregates_failures() {
    let mut log = Vec::new();
    let dir = DirListing {
        path: String::from("replays"),
        exists: true,
        files: vec![
            healthy_record("replays/a.SC2Replay"),
            broken_record("replays/b.SC2Replay"),
            FileRecord {
                path: String::from("replays/readme.txt"),
                data: Some(vec![1, 2, 3]),
            },
        ],
    };
    let (res, outputs) = batch_fix_dir(&dir, &mut log);
    assert_eq!(res, Err(FixError::BatchFailed));
    assert_eq!(outputs.len(), 1);
    assert_eq!(outputs[0].path, String::from("replays/a-FIXED.SC2Replay"));
}

#[test]
fn test_batch_fix_dir_missing_directory() {
    let mut log = Vec::new();
    let dir = DirListing {
        path: String::from("nowhere"),
        exists: false,
        files: Vec::new(),
    };
    let (res, outputs) = batch_fix_dir(&dir, &mut log);
    assert_eq!(res, Err(FixError::IoFailure));
    assert!(outputs.is_empty());
}

#[test]
fn test_batch_fix_dirs_mixed_health() {
    // One healthy directory, one broken, one missing: every directory is
    // processed and the aggregate is a failure.
    let mut log = Vec::new();
    let dirs = vec![
        DirListing {
            path: String::from("good"),
            exists: true,
            files: vec![healthy_record("good/a.SC2Replay")],
        },
        DirListing {
            path: String::from("bad"),
            exists: true,
            files: vec![broken_record("bad/b.SC2Replay")],
        },
        DirListing {
            path: String::from("gone"),
            exists: false,
            files: Vec::new(),
        },
    ];
    let (res, outputs) = batch_fix_dirs(&dirs, &mut log);
    assert_eq!(res, Err(FixError::BatchFailed));
    assert_eq!(outputs.len(), 1);
    assert_eq!(outputs[0].path, String::from("good/a-FIXED.SC2Replay"));
}

#[test]
fn test_batch_fix_dirs_all_healthy() {
    let mut log = Vec::new();
    let dirs = vec![
        DirListing {
            path: String::from("one"),
            exists: true,
            files: vec![healthy_record("one/a.SC2Replay")],
        },
        DirListing {
            path: String::from("two"),
            exists: true,
            files: vec![
                healthy_record("two/b.SC2Replay"),
                FileRecord {
                    path: String::from("two/b-FIXED.SC2Replay"),
                    data: Some(vec![0u8; 4]),
                },
            ],
        },
    ];
    let (res, outputs) = batch_fix_dirs(&dirs, &mut log);
    assert_eq!(res, Ok(()));
    assert_eq!(outputs.len(), 2);
    assert_eq!(outputs[0].path, String::from("one/a-FIXED.SC2Replay"));
    assert_eq!(outputs[1].path, String::from("two/b-FIXED.SC2Replay"));
}

#[test]
fn test_unreadable_file_fails_batch() {
    let mut log = Vec::new();
    let dirs = vec![DirListing {
        path: String::from("d"),
        exists: true,
        files: vec![FileRecord {
            path: String::from("d/locked.SC2Replay"),
            data: None,
        }],
    }];
    let (res, _) = batch_fix_dirs(&dirs, &mut log);
    assert_eq!(res, Err(FixError::BatchFailed));
}
