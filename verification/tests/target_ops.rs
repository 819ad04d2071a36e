use qpatcher::error::{Error, IoFailure};
use qpatcher::patcher::ArchiveOp;
use qpatcher::stub::{escape_path, main_js, package_json, stub_content, StubFile};
use qpatcher::target::{Entry, InstallationTarget, NamedFile, Slot};

fn with(archive: Entry, backup: Entry, retired: Entry) -> InstallationTarget {
    InstallationTarget { writable: true, archive, backup, retired }
}

fn dir(names: &[&str]) -> Entry {
    Entry::Directory(
        names.iter().map(|n| NamedFile { name: n.to_string(), content: vec![7] }).collect(),
    )
}

#[test]
fn rename_moves_an_entry() {
    let mut t = with(Entry::File(vec![1]), Entry::Absent, Entry::Absent);
    assert_eq!(t.rename(Slot::Archive, Slot::Backup), Ok(()));
    assert_eq!(t, with(Entry::Absent, Entry::File(vec![1]), Entry::Absent));
}

#[test]
fn rename_of_nothing_is_not_found() {
    let mut t = with(Entry::Absent, Entry::File(vec![1]), Entry::Absent);
    let before = t.clone();
    assert_eq!(t.rename(Slot::Archive, Slot::Backup), Err(Error::IoFailure(IoFailure::NotFound)));
    assert_eq!(t, before);
}

#[test]
fn rename_replaces_a_file_by_a_file() {
    let mut t = with(Entry::File(vec![1]), Entry::File(vec![2]), Entry::Absent);
    assert_eq!(t.rename(Slot::Archive, Slot::Backup), Ok(()));
    assert_eq!(t, with(Entry::Absent, Entry::File(vec![1]), Entry::Absent));
}

#[test]
fn rename_respects_the_kinds_of_entries() {
    let mut t = with(Entry::File(vec![1]), dir(&[]), Entry::Absent);
    assert_eq!(
        t.rename(Slot::Archive, Slot::Backup),
        Err(Error::IoFailure(IoFailure::IsADirectory))
    );
    let mut t = with(dir(&[]), Entry::File(vec![1]), Entry::Absent);
    assert_eq!(
        t.rename(Slot::Archive, Slot::Backup),
        Err(Error::IoFailure(IoFailure::NotADirectory))
    );
    let mut t = with(dir(&["a"]), dir(&["b"]), Entry::Absent);
    assert_eq!(
        t.rename(Slot::Archive, Slot::Backup),
        Err(Error::IoFailure(IoFailure::DirectoryNotEmpty))
    );
    let mut t = with(dir(&["a"]), dir(&[]), Entry::Absent);
    assert_eq!(t.rename(Slot::Archive, Slot::Backup), Ok(()));
    assert_eq!(t, with(Entry::Absent, dir(&["a"]), Entry::Absent));
}

#[test]
fn rename_onto_itself_changes_nothing() {
    let mut t = with(Entry::File(vec![1]), Entry::Absent, Entry::Absent);
    t.writable = false;
    let before = t.clone();
    assert_eq!(t.rename(Slot::Archive, Slot::Archive), Ok(()));
    assert_eq!(t, before);
}

#[test]
fn create_dir_needs_a_free_name() {
    let mut t = with(Entry::Absent, Entry::Absent, Entry::Absent);
    assert_eq!(t.create_dir(Slot::Archive), Ok(()));
    assert_eq!(t.archive, Entry::Directory(vec![]));
    assert_eq!(t.create_dir(Slot::Archive), Err(Error::IoFailure(IoFailure::AlreadyExists)));
    let mut locked = with(Entry::Absent, Entry::Absent, Entry::Absent);
    locked.writable = false;
    assert_eq!(locked.create_dir(Slot::Retired), Err(Error::PermissionDenied));
    assert_eq!(locked.retired, Entry::Absent);
}

#[test]
fn write_file_replaces_and_does_not_append() {
    let mut t = with(dir(&["a", "b"]), Entry::Absent, Entry::Absent);
    assert_eq!(t.write_file(Slot::Archive, "b", vec![1, 2]), Ok(()));
    assert_eq!(t.write_file(Slot::Archive, "c", vec![3]), Ok(()));
    assert_eq!(t.write_file(Slot::Archive, "b", vec![9]), Ok(()));
    assert_eq!(
        t.archive,
        Entry::Directory(vec![
            NamedFile { name: "a".to_string(), content: vec![7] },
            NamedFile { name: "b".to_string(), content: vec![9] },
            NamedFile { name: "c".to_string(), content: vec![3] },
        ])
    );
}

#[test]
fn write_file_needs_a_directory() {
    let mut t = with(Entry::Absent, Entry::File(vec![1]), Entry::Absent);
    assert_eq!(t.write_file(Slot::Archive, "x", vec![]), Err(Error::IoFailure(IoFailure::NotFound)));
    assert_eq!(
        t.write_file(Slot::Backup, "x", vec![]),
        Err(Error::IoFailure(IoFailure::NotADirectory))
    );
    let mut locked = with(dir(&[]), Entry::Absent, Entry::Absent);
    locked.writable = false;
    assert_eq!(locked.write_file(Slot::Archive, "x", vec![]), Err(Error::PermissionDenied));
    assert_eq!(locked.archive, dir(&[]));
}

#[test]
fn remove_tree_removes_a_directory_with_its_files() {
    let mut t = with(Entry::Absent, Entry::File(vec![1]), dir(&["a", "b"]));
    assert_eq!(t.remove_tree(Slot::Retired), Ok(()));
    assert_eq!(t.retired, Entry::Absent);
    assert_eq!(t.remove_tree(Slot::Retired), Err(Error::IoFailure(IoFailure::NotFound)));
    assert_eq!(t.remove_tree(Slot::Backup), Err(Error::IoFailure(IoFailure::NotADirectory)));
    assert_eq!(t.backup, Entry::File(vec![1]));
}

#[test]
fn perform_carries_out_one_operation() {
    let mut t = InstallationTarget::stock(vec![5]);
    assert_eq!(t.perform(ArchiveOp::Rename { from: Slot::Archive, to: Slot::Retired }), Ok(()));
    assert_eq!(t.perform(ArchiveOp::CreateDir { slot: Slot::Archive }), Ok(()));
    assert_eq!(
        t.perform(ArchiveOp::WriteFile { file: StubFile::MainJs, content: vec![1] }),
        Ok(())
    );
    assert_eq!(
        t.archive,
        Entry::Directory(vec![NamedFile { name: "main.js".to_string(), content: vec![1] }])
    );
    assert_eq!(t.perform(ArchiveOp::RemoveTree { slot: Slot::Archive }), Ok(()));
    assert_eq!(t.entry(Slot::Archive), &Entry::Absent);
    assert_eq!(t.entry(Slot::Retired), &Entry::File(vec![5]));
    assert_eq!(t.entry(Slot::Backup), &Entry::Absent);
}

#[test]
fn manifest_is_the_fixed_text() {
    assert_eq!(package_json(), b"{\"name\": \"tetrio-desktop\", \"main\": \"main.js\"}".to_vec());
    assert_eq!(stub_content(StubFile::PackageJson, "/any"), package_json());
    assert_eq!(StubFile::PackageJson.file_name(), "package.json");
    assert_eq!(StubFile::MainJs.file_name(), "main.js");
}

#[test]
fn entry_point_requires_the_loader() {
    assert_eq!(main_js("/X/loader.js"), b"require(\"/X/loader.js\")".to_vec());
    assert_eq!(main_js(""), b"require(\"\")".to_vec());
    assert_eq!(stub_content(StubFile::MainJs, "/opt/Q/loader.js"), main_js("/opt/Q/loader.js"));
}

#[test]
fn escaping_doubles_backslashes_and_guards_quotes() {
    assert_eq!(escape_path("plain/path.js"), b"plain/path.js".to_vec());
    assert_eq!(escape_path("a\\b"), b"a\\\\b".to_vec());
    assert_eq!(escape_path("a\"b"), b"a\\\"b".to_vec());
    assert_eq!(escape_path("\\\""), b"\\\\\\\"".to_vec());
    assert_eq!(main_js("C:\\Q\\l.js"), b"require(\"C:\\\\Q\\\\l.js\")".to_vec());
}

#[test]
fn escaping_leaves_other_characters_alone() {
    let path = "/home/zo\u{eb}/qu\u{e4}rtet/\u{1F3AE}.js";
    assert_eq!(escape_path(path), path.as_bytes().to_vec());
}

fn read_literal(content: &[u8]) -> Vec<u8> {
    let inner = &content[b"require(\"".len()..content.len() - 2];
    let mut out = Vec::new();
    let mut i = 0;
    while i < inner.len() {
        if inner[i] == b'\\' {
            i += 1;
        }
        out.push(inner[i]);
        i += 1;
    }
    out
}

#[test]
fn entry_point_reads_back_as_the_path() {
    for path in ["/opt/Q/loader.js", "C:\\Users\\q\\loader.js", "we\"ird\\\"\\\\", "\"", "\\"] {
        assert_eq!(read_literal(&main_js(path)), path.as_bytes().to_vec());
    }
}
