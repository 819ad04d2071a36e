use qpatcher::error::{Error, IoFailure};
use qpatcher::patcher::{
    check_patched, is_modified, patch_asar, patch_begin, patch_next, unpatch_asar, unpatch_begin, unpatch_next,
    ArchiveOp, PatchStage, Step, UnpatchStage,
};
use qpatcher::stub::StubFile;
use qpatcher::target::{Entry, EntryKind, InstallationTarget, NamedFile, Slot};

fn file(name: &str, content: &[u8]) -> NamedFile {
    NamedFile { name: name.to_string(), content: content.to_vec() }
}

fn stub(loader_literal: &[u8]) -> Entry {
    let mut main = b"require(\"".to_vec();
    main.extend_from_slice(loader_literal);
    main.extend_from_slice(b"\")");
    Entry::Directory(vec![
        file("package.json", b"{\"name\": \"tetrio-desktop\", \"main\": \"main.js\"}"),
        file("main.js", &main),
    ])
}

#[test]
fn check_reads_stock_as_unpatched() {
    let target = InstallationTarget::stock(b"ARCHIVEDATA".to_vec());
    assert!(!check_patched(&target));
}

#[test]
fn check_reads_any_directory_as_patched() {
    let empty = InstallationTarget {
        writable: true,
        archive: Entry::Directory(vec![]),
        backup: Entry::File(b"x".to_vec()),
        retired: Entry::Absent,
    };
    assert!(check_patched(&empty));
    let odd = InstallationTarget {
        writable: false,
        archive: Entry::Directory(vec![file("leftover.txt", b"junk")]),
        backup: Entry::Absent,
        retired: Entry::Absent,
    };
    assert!(check_patched(&odd));
    let nothing = InstallationTarget {
        writable: true,
        archive: Entry::Absent,
        backup: Entry::Absent,
        retired: Entry::Absent,
    };
    assert!(!check_patched(&nothing));
}

#[test]
fn patch_then_unpatch_restores_the_archive() {
    let mut target = InstallationTarget::stock(b"ARCHIVEDATA".to_vec());
    assert_eq!(patch_asar(&mut target, "/opt/Q/loader.js"), Ok(()));
    assert_eq!(target.backup, Entry::File(b"ARCHIVEDATA".to_vec()));
    assert_eq!(target.archive, stub(b"/opt/Q/loader.js"));
    assert_eq!(target.retired, Entry::Absent);
    assert!(check_patched(&target));

    assert_eq!(unpatch_asar(&mut target), Ok(()));
    assert_eq!(target, InstallationTarget::stock(b"ARCHIVEDATA".to_vec()));
    assert!(!check_patched(&target));
}

#[test]
fn patch_writes_exactly_the_manifest_and_the_entry_point() {
    let mut target = InstallationTarget::stock(vec![1, 2, 3]);
    assert_eq!(patch_asar(&mut target, "/X/loader.js"), Ok(()));
    match &target.archive {
        Entry::Directory(files) => {
            assert_eq!(files.len(), 2);
            assert_eq!(files[0].name, "package.json");
            assert_eq!(
                files[0].content,
                b"{\"name\": \"tetrio-desktop\", \"main\": \"main.js\"}".to_vec()
            );
            assert_eq!(files[1].name, "main.js");
            assert_eq!(files[1].content, b"require(\"/X/loader.js\")".to_vec());
        }
        other => panic!("no stub directory: {:?}", other),
    }
}

#[test]
fn patch_escapes_the_loader_path() {
    let mut target = InstallationTarget::stock(vec![]);
    assert_eq!(patch_asar(&mut target, "C:\\Q\\\"odd\".js"), Ok(()));
    assert_eq!(target.archive, stub(b"C:\\\\Q\\\\\\\"odd\\\".js"));
}

#[test]
fn patch_without_an_archive_changes_nothing() {
    let mut target = InstallationTarget {
        writable: true,
        archive: Entry::Absent,
        backup: Entry::Absent,
        retired: Entry::Absent,
    };
    let before = target.clone();
    assert_eq!(patch_asar(&mut target, "/l.js"), Err(Error::IoFailure(IoFailure::NotFound)));
    assert_eq!(target, before);
}

#[test]
fn patch_without_rights_is_denied() {
    let mut target = InstallationTarget::stock(b"A".to_vec());
    target.writable = false;
    let before = target.clone();
    assert_eq!(patch_asar(&mut target, "/l.js"), Err(Error::PermissionDenied));
    assert_eq!(target, before);
}

#[test]
fn patch_of_a_patched_installation_is_refused() {
    let mut target = InstallationTarget::stock(b"A".to_vec());
    assert_eq!(patch_asar(&mut target, "/l.js"), Ok(()));
    // the stub directory cannot take the place of the backup file
    assert_eq!(
        patch_asar(&mut target, "/l.js"),
        Err(Error::IoFailure(IoFailure::NotADirectory))
    );
    assert_eq!(target.backup, Entry::File(b"A".to_vec()));
    assert!(check_patched(&target));
}

#[test]
fn patch_over_a_stale_backup_leaves_the_incomplete_shape_on_failure() {
    // a directory at the backup name refuses the archive file
    let mut target = InstallationTarget {
        writable: true,
        archive: Entry::File(b"A".to_vec()),
        backup: Entry::Directory(vec![]),
        retired: Entry::Absent,
    };
    let before = target.clone();
    assert_eq!(patch_asar(&mut target, "/l.js"), Err(Error::IoFailure(IoFailure::IsADirectory)));
    assert_eq!(target, before);
}

#[test]
fn unpatch_without_backup_rolls_back() {
    let mut target = InstallationTarget {
        writable: true,
        archive: Entry::Directory(vec![file("main.js", b"x")]),
        backup: Entry::Absent,
        retired: Entry::Absent,
    };
    let before = target.clone();
    assert_eq!(unpatch_asar(&mut target), Err(Error::IoFailure(IoFailure::NotFound)));
    assert_eq!(target, before);
    assert!(check_patched(&target));
}

#[test]
fn unpatch_of_stock_fails_and_keeps_the_archive() {
    let mut target = InstallationTarget::stock(b"ARCHIVEDATA".to_vec());
    assert_eq!(unpatch_asar(&mut target), Err(Error::IoFailure(IoFailure::NotFound)));
    assert_eq!(target, InstallationTarget::stock(b"ARCHIVEDATA".to_vec()));
}

#[test]
fn unpatch_without_rights_is_denied() {
    let mut target = InstallationTarget {
        writable: false,
        archive: Entry::Directory(vec![]),
        backup: Entry::File(b"A".to_vec()),
        retired: Entry::Absent,
    };
    let before = target.clone();
    assert_eq!(unpatch_asar(&mut target), Err(Error::PermissionDenied));
    assert_eq!(target, before);
}

#[test]
fn unpatch_surfaces_a_failed_cleanup_with_the_archive_restored() {
    // a file stood in the archive's place beside a backup: it cannot be
    // removed as a directory, but the backup is back where it belongs
    let mut target = InstallationTarget {
        writable: true,
        archive: Entry::File(b"stale".to_vec()),
        backup: Entry::File(b"ORIGINAL".to_vec()),
        retired: Entry::Absent,
    };
    assert_eq!(unpatch_asar(&mut target), Err(Error::IoFailure(IoFailure::NotADirectory)));
    assert_eq!(target.archive, Entry::File(b"ORIGINAL".to_vec()));
    assert_eq!(target.backup, Entry::Absent);
    assert_eq!(target.retired, Entry::File(b"stale".to_vec()));
}

#[test]
fn patch_stages_follow_in_order() {
    let first = patch_begin();
    assert_eq!(first, PatchStage::Backup);
    assert_eq!(patch_next(PatchStage::Backup, Ok(())), Step::Perform(PatchStage::MakeDir));
    assert_eq!(patch_next(PatchStage::MakeDir, Ok(())), Step::Perform(PatchStage::Manifest));
    assert_eq!(patch_next(PatchStage::Manifest, Ok(())), Step::Perform(PatchStage::EntryPoint));
    assert_eq!(patch_next(PatchStage::EntryPoint, Ok(())), Step::Done(Ok(())));
}

#[test]
fn patch_stops_at_the_first_failure() {
    let denied = Err(Error::PermissionDenied);
    assert_eq!(patch_next(PatchStage::Backup, denied), Step::Done(Err(Error::PermissionDenied)));
    assert_eq!(patch_next(PatchStage::MakeDir, denied), Step::Done(Err(Error::PermissionDenied)));
    let full = Err(Error::IoFailure(IoFailure::Other));
    assert_eq!(patch_next(PatchStage::Manifest, full), Step::Done(full));
    assert_eq!(patch_next(PatchStage::EntryPoint, full), Step::Done(full));
}

#[test]
fn patch_operations_are_the_four_steps() {
    assert_eq!(
        PatchStage::Backup.operation("/l.js"),
        ArchiveOp::Rename { from: Slot::Archive, to: Slot::Backup }
    );
    assert_eq!(PatchStage::MakeDir.operation("/l.js"), ArchiveOp::CreateDir { slot: Slot::Archive });
    assert_eq!(
        PatchStage::Manifest.operation("/l.js"),
        ArchiveOp::WriteFile {
            file: StubFile::PackageJson,
            content: b"{\"name\": \"tetrio-desktop\", \"main\": \"main.js\"}".to_vec(),
        }
    );
    assert_eq!(
        PatchStage::EntryPoint.operation("/l.js"),
        ArchiveOp::WriteFile { file: StubFile::MainJs, content: b"require(\"/l.js\")".to_vec() }
    );
}

#[test]
fn unpatch_stages_on_success() {
    assert_eq!(unpatch_begin(), UnpatchStage::MoveAside);
    assert_eq!(unpatch_next(UnpatchStage::MoveAside, Ok(())), Step::Perform(UnpatchStage::Restore));
    assert_eq!(unpatch_next(UnpatchStage::Restore, Ok(())), Step::Perform(UnpatchStage::Cleanup));
    assert_eq!(unpatch_next(UnpatchStage::Cleanup, Ok(())), Step::Done(Ok(())));
}

#[test]
fn unpatch_stages_on_failure() {
    let missing = Error::IoFailure(IoFailure::NotFound);
    let denied = Error::PermissionDenied;
    assert_eq!(unpatch_next(UnpatchStage::MoveAside, Err(denied)), Step::Done(Err(denied)));
    assert_eq!(
        unpatch_next(UnpatchStage::Restore, Err(missing)),
        Step::Perform(UnpatchStage::Rollback(missing))
    );
    // the roll back succeeded: the failure to restore is the result
    assert_eq!(unpatch_next(UnpatchStage::Rollback(missing), Ok(())), Step::Done(Err(missing)));
    // the roll back failed too: its own failure is the result
    assert_eq!(
        unpatch_next(UnpatchStage::Rollback(missing), Err(denied)),
        Step::Done(Err(denied))
    );
    assert_eq!(unpatch_next(UnpatchStage::Cleanup, Err(denied)), Step::Done(Err(denied)));
}

#[test]
fn unpatch_operations_name_the_three_entries() {
    assert_eq!(
        UnpatchStage::MoveAside.operation(),
        ArchiveOp::Rename { from: Slot::Archive, to: Slot::Retired }
    );
    assert_eq!(
        UnpatchStage::Restore.operation(),
        ArchiveOp::Rename { from: Slot::Backup, to: Slot::Archive }
    );
    assert_eq!(UnpatchStage::Cleanup.operation(), ArchiveOp::RemoveTree { slot: Slot::Retired });
    assert_eq!(
        UnpatchStage::Rollback(Error::PermissionDenied).operation(),
        ArchiveOp::Rename { from: Slot::Retired, to: Slot::Archive }
    );
    assert_eq!(Slot::Archive.file_name(), "app.asar");
    assert_eq!(Slot::Backup.file_name(), "_app.asar");
    assert_eq!(Slot::Retired.file_name(), "app.asar~");
}

#[test]
fn only_a_directory_reads_as_modified() {
    assert!(is_modified(EntryKind::Directory));
    assert!(!is_modified(EntryKind::File));
    assert!(!is_modified(EntryKind::Absent));
    assert_eq!(Entry::Directory(vec![]).kind(), EntryKind::Directory);
    assert_eq!(Entry::File(vec![1]).kind(), EntryKind::File);
    assert_eq!(Entry::Absent.kind(), EntryKind::Absent);
}
