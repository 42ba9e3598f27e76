use backmeup::backup::{
    backup_kind, directory_size, entry_action, sum_sizes, BackupError, BackupKind, DirEntry, EntryAction, EntryKind,
};

#[test]
fn backup_kinds() {
    assert_eq!(backup_kind("full-disk"), Ok(BackupKind::Whole));
    assert_eq!(backup_kind("directory"), Ok(BackupKind::Whole));
    assert_eq!(backup_kind("selective"), Ok(BackupKind::Selective));
    assert_eq!(backup_kind("Selective"), Err(BackupError::InvalidBackupType));
    assert_eq!(backup_kind(""), Err(BackupError::InvalidBackupType));
}

#[test]
fn directories_are_descended() {
    let filter = Some(vec!["jpg".to_string()]);
    assert_eq!(entry_action(EntryKind::Directory, &None, &filter), EntryAction::Descend);
    assert_eq!(entry_action(EntryKind::Directory, &None, &None), EntryAction::Descend);
}

#[test]
fn files_are_filtered_by_extension() {
    let filter = Some(vec!["jpg".to_string(), "txt".to_string()]);
    assert_eq!(entry_action(EntryKind::File, &Some("txt".to_string()), &filter), EntryAction::Copy);
    assert_eq!(entry_action(EntryKind::File, &Some("png".to_string()), &filter), EntryAction::Skip);
    assert_eq!(entry_action(EntryKind::File, &Some("JPG".to_string()), &filter), EntryAction::Skip);
    assert_eq!(entry_action(EntryKind::File, &None, &filter), EntryAction::Skip);
    assert_eq!(entry_action(EntryKind::File, &None, &None), EntryAction::Copy);
    assert_eq!(entry_action(EntryKind::File, &Some("png".to_string()), &None), EntryAction::Copy);
}

#[test]
fn other_entries_are_skipped() {
    assert_eq!(entry_action(EntryKind::Other, &None, &None), EntryAction::Skip);
}

#[test]
fn sizes_are_summed() {
    assert_eq!(sum_sizes(&vec![]), Some(0));
    assert_eq!(sum_sizes(&vec![10, 20, 12]), Some(42));
    assert_eq!(sum_sizes(&vec![u64::MAX, 0]), Some(u64::MAX));
    assert_eq!(sum_sizes(&vec![u64::MAX, 1]), None);
    assert_eq!(sum_sizes(&vec![u64::MAX, 1, 0]), None);
}

#[test]
fn error_messages() {
    assert_eq!(BackupError::SourceNotFound.message(), "Backup failed: Source path does not exist");
    assert_eq!(BackupError::InvalidBackupType.message(), "Backup failed: Invalid backup type specified");
    assert_eq!(
        BackupError::IoError("disk full".to_string()).message(),
        "Backup failed due to IO error: disk full"
    );
}

#[test]
fn directory_sizes_add_up_recursively() {
    let tree = vec![
        DirEntry::File { size: 100 },
        DirEntry::Directory {
            entries: vec![
                DirEntry::File { size: 20 },
                DirEntry::Other,
                DirEntry::Directory { entries: vec![DirEntry::File { size: 3 }] },
            ],
        },
        DirEntry::Directory { entries: vec![] },
    ];
    assert_eq!(directory_size(&tree), Some(123));
    assert_eq!(directory_size(&vec![]), Some(0));
    let huge = vec![
        DirEntry::Directory { entries: vec![DirEntry::File { size: u64::MAX }] },
        DirEntry::File { size: 1 },
    ];
    assert_eq!(directory_size(&huge), None);
}

#[test]
fn extensions_written_with_a_dot_select_too() {
    let filter = Some(vec![".jpg".to_string(), "txt".to_string()]);
    assert_eq!(entry_action(EntryKind::File, &Some("jpg".to_string()), &filter), EntryAction::Copy);
    assert_eq!(entry_action(EntryKind::File, &Some("txt".to_string()), &filter), EntryAction::Copy);
    assert_eq!(entry_action(EntryKind::File, &Some("png".to_string()), &filter), EntryAction::Skip);
    assert_eq!(entry_action(EntryKind::File, &Some("pg".to_string()), &filter), EntryAction::Skip);
    let filter = Some(vec![".".to_string()]);
    assert_eq!(entry_action(EntryKind::File, &Some("".to_string()), &filter), EntryAction::Copy);
}
