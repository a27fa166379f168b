use exif_sort::datefmt::Timestamp;
use exif_sort::exif::ExifFile;
use exif_sort::file::FileOperation;
use exif_sort::operation::conflict_policy_from_flags;
use exif_sort::operation::find_duplicates;
use exif_sort::operation::move_operation_to_file_operation;
use exif_sort::operation::operation_file_from_exif;
use exif_sort::operation::perform_operation;
use exif_sort::operation::plan_file_operations;
use exif_sort::operation::DateTimeFile;
use exif_sort::operation::HandleFileConflict;
use exif_sort::operation::HandleNoDate;
use exif_sort::operation::MoveOperation;
use exif_sort::operation::Operation;
use exif_sort::operation::OperationConfig;
use exif_sort::operation::OperationError;
use exif_sort::operation::OperationFile;
use exif_sort::operation::OperationType;

fn ts(year: u16, month: u8, day: u8) -> Timestamp {
    Timestamp { year, month, day, hour: 0, minute: 0, second: 0 }
}

fn dated(path: &str, stamp: Timestamp) -> OperationFile {
    OperationFile::ExifFile(DateTimeFile { date_time: stamp, path: path.to_string() })
}

fn config(conflicts: HandleFileConflict, no_date: HandleNoDate) -> OperationConfig {
    OperationConfig {
        output_folder: "/out".to_string(),
        operation_type: OperationType::Copy,
        handle_conflicts: conflicts,
        handle_no_date: no_date,
        date_folder_format: "%Y/%m/%d".to_string(),
    }
}

fn copy_action(source: &str, destination: &str) -> FileOperation {
    FileOperation::Copy { source: source.to_string(), destination: destination.to_string() }
}

fn destination(op: &FileOperation) -> &str {
    match op {
        FileOperation::Copy { destination, .. } => destination,
        FileOperation::Move { destination, .. } => destination,
    }
}

fn source(op: &FileOperation) -> &str {
    match op {
        FileOperation::Copy { source, .. } => source,
        FileOperation::Move { source, .. } => source,
    }
}

#[test]
fn unique_destinations_are_all_clean_in_order() {
    let ops = vec![
        copy_action("/in/a.jpg", "/out/1/a.jpg"),
        copy_action("/in/b.jpg", "/out/1/b.jpg"),
        copy_action("/in/c.jpg", "/out/2/c.jpg"),
    ];
    let (clean, colliding) = find_duplicates(&ops, &vec![]);
    assert_eq!(clean.len(), 3);
    assert_eq!(colliding.len(), 0);
    assert_eq!(destination(&clean[0]), "/out/1/a.jpg");
    assert_eq!(destination(&clean[1]), "/out/1/b.jpg");
    assert_eq!(destination(&clean[2]), "/out/2/c.jpg");
}

#[test]
fn shared_destination_keeps_only_first_claim() {
    let ops = vec![
        copy_action("/in/a.jpg", "/out/same.jpg"),
        copy_action("/in/b.jpg", "/out/same.jpg"),
        copy_action("/in/c.jpg", "/out/same.jpg"),
    ];
    let (clean, colliding) = find_duplicates(&ops, &vec![]);
    assert_eq!(clean.len(), 1);
    assert_eq!(colliding.len(), 2);
    assert_eq!(source(&clean[0]), "/in/a.jpg");
    assert_eq!(source(&colliding[0]), "/in/b.jpg");
    assert_eq!(source(&colliding[1]), "/in/c.jpg");
}

#[test]
fn destination_already_on_disk_always_collides() {
    let ops = vec![copy_action("/in/a.jpg", "/out/a.jpg")];
    let existing = vec!["/out/a.jpg".to_string()];
    let (clean, colliding) = find_duplicates(&ops, &existing);
    assert_eq!(clean.len(), 0);
    assert_eq!(colliding.len(), 1);
    assert_eq!(destination(&colliding[0]), "/out/a.jpg");
}

#[test]
fn on_disk_collision_trumps_first_claim() {
    let ops = vec![
        copy_action("/in/a.jpg", "/out/same.jpg"),
        copy_action("/in/b.jpg", "/out/same.jpg"),
    ];
    let existing = vec!["/out/same.jpg".to_string()];
    let (clean, colliding) = find_duplicates(&ops, &existing);
    assert_eq!(clean.len(), 0);
    assert_eq!(colliding.len(), 2);
}

#[test]
fn planner_builds_date_folder_destinations_in_input_order() {
    let operation = Operation {
        files: vec![
            dated("/in/a.jpg", ts(2023, 1, 1)),
            dated("/in/b.jpg", ts(2023, 1, 1)),
            dated("/in/c.jpg", ts(2023, 2, 2)),
        ],
        config: config(HandleFileConflict::DoNothing, HandleNoDate::DoNothing),
    };
    let (planned, no_date) = plan_file_operations(&operation);
    assert_eq!(no_date, 0);
    assert_eq!(planned.len(), 3);
    assert_eq!(destination(&planned[0]), "/out/2023/01/01/a.jpg");
    assert_eq!(destination(&planned[1]), "/out/2023/01/01/b.jpg");
    assert_eq!(destination(&planned[2]), "/out/2023/02/02/c.jpg");
    assert!(matches!(planned[0], FileOperation::Copy { .. }));
}

#[test]
fn scenario_three_dated_files_with_distinct_names() {
    let operation = Operation {
        files: vec![
            dated("/in/a.jpg", ts(2023, 1, 1)),
            dated("/in/b.jpg", ts(2023, 1, 1)),
            dated("/in/c.jpg", ts(2023, 2, 2)),
        ],
        config: config(HandleFileConflict::DoNothing, HandleNoDate::DoNothing),
    };
    let (results, to_apply) = perform_operation(&operation, false, &vec![]).unwrap();
    assert_eq!(results.no_duplicates, 3);
    assert_eq!(results.duplicates, 0);
    assert_eq!(results.no_date, 0);
    assert_eq!(to_apply.len(), 3);
    assert_eq!(destination(&to_apply[0]), "/out/2023/01/01/a.jpg");
    assert_eq!(destination(&to_apply[1]), "/out/2023/01/01/b.jpg");
    assert_eq!(destination(&to_apply[2]), "/out/2023/02/02/c.jpg");
}

#[test]
fn scenario_name_clash_under_overwrite_applies_both() {
    let operation = Operation {
        files: vec![dated("/one/x.jpg", ts(2023, 3, 3)), dated("/two/x.jpg", ts(2023, 3, 3))],
        config: config(HandleFileConflict::Overwrite, HandleNoDate::DoNothing),
    };
    let (results, to_apply) = perform_operation(&operation, false, &vec![]).unwrap();
    assert_eq!(results.no_duplicates, 1);
    assert_eq!(results.duplicates, 1);
    assert_eq!(to_apply.len(), 2);
    assert_eq!(source(&to_apply[0]), "/one/x.jpg");
    assert_eq!(source(&to_apply[1]), "/two/x.jpg");
    assert_eq!(destination(&to_apply[0]), "/out/2023/03/03/x.jpg");
    assert_eq!(destination(&to_apply[1]), "/out/2023/03/03/x.jpg");
}

#[test]
fn scenario_undated_file_redirected_to_no_date_folder() {
    let operation = Operation {
        files: vec![OperationFile::NoDateFile("/in/x.jpg".to_string())],
        config: config(
            HandleFileConflict::DoNothing,
            HandleNoDate::MoveToNoDateFolder("/out/nodate".to_string()),
        ),
    };
    let (results, to_apply) = perform_operation(&operation, false, &vec![]).unwrap();
    assert_eq!(results.no_date, 1);
    assert_eq!(results.no_duplicates, 1);
    assert_eq!(results.duplicates, 0);
    assert_eq!(to_apply.len(), 1);
    assert_eq!(destination(&to_apply[0]), "/out/nodate/x.jpg");
}

#[test]
fn scenario_dry_run_reports_counts_but_plans_nothing_to_apply() {
    let files = || {
        vec![
            dated("/in/a.jpg", ts(2023, 1, 1)),
            dated("/in/b.jpg", ts(2023, 1, 1)),
            dated("/in/c.jpg", ts(2023, 2, 2)),
        ]
    };
    let dry = Operation {
        files: files(),
        config: config(HandleFileConflict::DoNothing, HandleNoDate::DoNothing),
    };
    let live = Operation {
        files: files(),
        config: config(HandleFileConflict::DoNothing, HandleNoDate::DoNothing),
    };
    let (dry_results, dry_ops) = perform_operation(&dry, true, &vec![]).unwrap();
    let (live_results, live_ops) = perform_operation(&live, false, &vec![]).unwrap();
    assert_eq!(dry_results, live_results);
    assert_eq!(dry_results.no_duplicates, 3);
    assert_eq!(dry_ops.len(), 0);
    assert_eq!(live_ops.len(), 3);
}

#[test]
fn skip_policy_never_hands_colliding_actions_out() {
    let operation = Operation {
        files: vec![dated("/one/x.jpg", ts(2023, 3, 3)), dated("/two/x.jpg", ts(2023, 3, 3))],
        config: config(HandleFileConflict::DoNothing, HandleNoDate::DoNothing),
    };
    let (results, to_apply) = perform_operation(&operation, false, &vec![]).unwrap();
    assert_eq!(results.no_duplicates, 1);
    assert_eq!(results.duplicates, 1);
    assert_eq!(to_apply.len(), 1);
    assert_eq!(source(&to_apply[0]), "/one/x.jpg");
}

#[test]
fn duplicate_folder_policy_redirects_to_source_basename() {
    let operation = Operation {
        files: vec![dated("/one/x.jpg", ts(2023, 3, 3)), dated("/two/x.jpg", ts(2023, 3, 3))],
        config: config(
            HandleFileConflict::MoveToDuplicateFolder("/dup".to_string()),
            HandleNoDate::DoNothing,
        ),
    };
    let (results, to_apply) = perform_operation(&operation, false, &vec![]).unwrap();
    assert_eq!(results.duplicates, 1);
    assert_eq!(to_apply.len(), 2);
    assert_eq!(destination(&to_apply[0]), "/out/2023/03/03/x.jpg");
    assert_eq!(destination(&to_apply[1]), "/dup/x.jpg");
    assert_eq!(source(&to_apply[1]), "/two/x.jpg");
}

#[test]
fn undated_files_are_counted_even_when_dropped() {
    let operation = Operation {
        files: vec![
            OperationFile::NoDateFile("/in/x.jpg".to_string()),
            dated("/in/a.jpg", ts(2023, 1, 1)),
        ],
        config: config(HandleFileConflict::DoNothing, HandleNoDate::DoNothing),
    };
    let (results, to_apply) = perform_operation(&operation, false, &vec![]).unwrap();
    assert_eq!(results.no_date, 1);
    assert_eq!(results.no_duplicates, 1);
    assert_eq!(to_apply.len(), 1);
    assert_eq!(destination(&to_apply[0]), "/out/2023/01/01/a.jpg");
}

#[test]
fn empty_batch_reports_zero_counts() {
    let operation = Operation {
        files: vec![],
        config: config(HandleFileConflict::DoNothing, HandleNoDate::DoNothing),
    };
    let (results, to_apply) = perform_operation(&operation, false, &vec![]).unwrap();
    assert_eq!(results.no_duplicates, 0);
    assert_eq!(results.duplicates, 0);
    assert_eq!(results.no_date, 0);
    assert_eq!(to_apply.len(), 0);
}

#[test]
fn rename_policy_is_a_configuration_error() {
    let operation = Operation {
        files: vec![dated("/in/a.jpg", ts(2023, 1, 1))],
        config: config(HandleFileConflict::Rename, HandleNoDate::DoNothing),
    };
    let err = perform_operation(&operation, false, &vec![]).unwrap_err();
    assert_eq!(err, OperationError::UnsupportedConflictPolicy);
}

#[test]
fn invalid_date_folder_format_is_a_configuration_error() {
    let mut cfg = config(HandleFileConflict::DoNothing, HandleNoDate::DoNothing);
    cfg.date_folder_format = "%Y/%H".to_string();
    let operation = Operation { files: vec![], config: cfg };
    let err = perform_operation(&operation, false, &vec![]).unwrap_err();
    assert_eq!(err, OperationError::InvalidDateFolderFormat);
}

#[test]
fn conflicting_policy_flags_are_rejected() {
    let err = conflict_policy_from_flags(true, Some("/dup".to_string())).unwrap_err();
    assert_eq!(err, OperationError::ConflictingPolicyFlags);
    assert!(matches!(
        conflict_policy_from_flags(true, None),
        Ok(HandleFileConflict::Overwrite)
    ));
    assert!(matches!(
        conflict_policy_from_flags(false, None),
        Ok(HandleFileConflict::DoNothing)
    ));
    match conflict_policy_from_flags(false, Some("/dup".to_string())) {
        Ok(HandleFileConflict::MoveToDuplicateFolder(folder)) => assert_eq!(folder, "/dup"),
        _ => panic!("expected the duplicate-folder policy"),
    }
}

#[test]
fn operation_type_words_parse_exactly() {
    assert_eq!(OperationType::parse("copy"), Ok(OperationType::Copy));
    assert_eq!(OperationType::parse("move"), Ok(OperationType::Move));
    assert_eq!(
        OperationType::parse("rename"),
        Err(OperationError::InvalidOperationType)
    );
    assert_eq!(OperationType::Copy.as_str(), "copy");
    assert_eq!(OperationType::Move.as_str(), "move");
}

#[test]
fn move_operation_takes_the_configured_kind() {
    let mv = MoveOperation { source: "/in/a.jpg".to_string(), destination: "/out/a.jpg".to_string() };
    let as_copy = move_operation_to_file_operation(&mv, &OperationType::Copy);
    assert!(matches!(as_copy, FileOperation::Copy { .. }));
    assert_eq!(destination(&as_copy), "/out/a.jpg");
    let as_move = move_operation_to_file_operation(&mv, &OperationType::Move);
    assert!(matches!(as_move, FileOperation::Move { .. }));
    assert_eq!(source(&as_move), "/in/a.jpg");
}

#[test]
fn discovered_files_become_planner_input() {
    let with_date = ExifFile { path: "/in/a.jpg".to_string(), date_time: Some(ts(2023, 1, 1)) };
    match operation_file_from_exif(with_date) {
        OperationFile::ExifFile(f) => {
            assert_eq!(f.path, "/in/a.jpg");
            assert_eq!(f.date_time, ts(2023, 1, 1));
        }
        OperationFile::NoDateFile(_) => panic!("expected a dated file"),
    }
    let without = ExifFile { path: "/in/b.jpg".to_string(), date_time: None };
    match operation_file_from_exif(without) {
        OperationFile::NoDateFile(path) => assert_eq!(path, "/in/b.jpg"),
        OperationFile::ExifFile(_) => panic!("expected an undated file"),
    }
}

#[test]
fn move_kind_plans_move_actions() {
    let mut cfg = config(HandleFileConflict::DoNothing, HandleNoDate::DoNothing);
    cfg.operation_type = OperationType::Move;
    let operation = Operation { files: vec![dated("/in/a.jpg", ts(2023, 1, 1))], config: cfg };
    let (_, to_apply) = perform_operation(&operation, false, &vec![]).unwrap();
    assert!(matches!(to_apply[0], FileOperation::Move { .. }));
}
