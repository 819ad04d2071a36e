use qpatcher::error::{Error, IoFailure};
use qpatcher::patcher::Step;
use qpatcher::paths::Owner;
use qpatcher::payload::{
    download_quartet, fetch_begin, fetch_next, fetch_payload, payload_names, payload_url,
    FetchStage, PayloadDirectory, PayloadFile,
};

const ROOT: Owner = Owner { uid: 0, gid: 0 };
const OPERATOR: Owner = Owner { uid: 1000, gid: 100 };
const OTHER: Owner = Owner { uid: 1234, gid: 1234 };

fn entry(name: &str, content: &[u8], owner: Owner) -> PayloadFile {
    PayloadFile { name: name.to_string(), content: content.to_vec(), owner }
}

fn bodies(texts: &[&str]) -> Vec<Result<Vec<u8>, Error>> {
    texts.iter().map(|t| Ok(t.as_bytes().to_vec())).collect()
}

#[test]
fn payload_addresses_are_base_and_name() {
    assert_eq!(
        payload_url("loader.js"),
        "https://github.com/dzshn/Quartet/releases/devbuildloader.js"
    );
    assert_eq!(payload_url(""), "https://github.com/dzshn/Quartet/releases/devbuild");
}

#[test]
fn payload_names_are_the_three_files() {
    assert_eq!(payload_names(), vec!["loader.js", "preload.js", "quartet.js"]);
}

#[test]
fn download_writes_each_file_and_gives_it_away() {
    let mut dir = PayloadDirectory { actor: ROOT, files: vec![] };
    assert_eq!(download_quartet(&mut dir, &bodies(&["L", "P", "Q"]), Some(OPERATOR)), Ok(()));
    assert_eq!(
        dir.files,
        vec![
            entry("loader.js", b"L", OPERATOR),
            entry("preload.js", b"P", OPERATOR),
            entry("quartet.js", b"Q", OPERATOR),
        ]
    );
}

#[test]
fn second_download_overwrites_the_first() {
    let mut dir = PayloadDirectory { actor: ROOT, files: vec![] };
    assert_eq!(
        download_quartet(&mut dir, &bodies(&["first loader", "first", "1"]), Some(OPERATOR)),
        Ok(())
    );
    assert_eq!(download_quartet(&mut dir, &bodies(&["second", "2nd", ""]), Some(OPERATOR)), Ok(()));
    assert_eq!(
        dir.files,
        vec![
            entry("loader.js", b"second", OPERATOR),
            entry("preload.js", b"2nd", OPERATOR),
            entry("quartet.js", b"", OPERATOR),
        ]
    );
}

#[test]
fn download_leaves_other_files_alone() {
    let mut dir = PayloadDirectory {
        actor: ROOT,
        files: vec![entry("notes.txt", b"mine", OTHER), entry("preload.js", b"old", OTHER)],
    };
    assert_eq!(download_quartet(&mut dir, &bodies(&["L", "P", "Q"]), Some(OPERATOR)), Ok(()));
    assert_eq!(
        dir.files,
        vec![
            entry("notes.txt", b"mine", OTHER),
            entry("preload.js", b"P", OPERATOR),
            entry("loader.js", b"L", OPERATOR),
            entry("quartet.js", b"Q", OPERATOR),
        ]
    );
}

#[test]
fn failed_retrieval_stops_the_download_and_keeps_what_was_written() {
    let mut dir = PayloadDirectory { actor: ROOT, files: vec![] };
    let responses = vec![Ok(b"L".to_vec()), Err(Error::NetworkFailure), Ok(b"Q".to_vec())];
    assert_eq!(download_quartet(&mut dir, &responses, Some(OPERATOR)), Err(Error::NetworkFailure));
    assert_eq!(dir.files, vec![entry("loader.js", b"L", OPERATOR)]);
}

#[test]
fn missing_answer_counts_as_a_failed_retrieval() {
    let mut dir = PayloadDirectory { actor: ROOT, files: vec![] };
    assert_eq!(
        download_quartet(&mut dir, &bodies(&["L", "P"]), None),
        Err(Error::NetworkFailure)
    );
    assert_eq!(dir.files, vec![entry("loader.js", b"L", ROOT), entry("preload.js", b"P", ROOT)]);
}

#[test]
fn download_without_rights_stops_at_the_first_repair() {
    let mut dir = PayloadDirectory { actor: OTHER, files: vec![] };
    assert_eq!(
        download_quartet(&mut dir, &bodies(&["L", "P", "Q"]), Some(OPERATOR)),
        Err(Error::PermissionDenied)
    );
    assert_eq!(dir.files, vec![entry("loader.js", b"L", OTHER)]);
}

#[test]
fn download_without_ownership_leaves_files_with_the_process() {
    let mut dir = PayloadDirectory { actor: OTHER, files: vec![] };
    assert_eq!(download_quartet(&mut dir, &bodies(&["L", "P", "Q"]), None), Ok(()));
    assert_eq!(
        dir.files,
        vec![
            entry("loader.js", b"L", OTHER),
            entry("preload.js", b"P", OTHER),
            entry("quartet.js", b"Q", OTHER),
        ]
    );
}

#[test]
fn fetch_follows_the_order_of_the_names() {
    let mut dir = PayloadDirectory { actor: ROOT, files: vec![] };
    let names = vec!["b.js".to_string(), "a.js".to_string(), "b.js".to_string()];
    assert_eq!(fetch_payload(&mut dir, &names, &bodies(&["1", "2", "3"]), None), Ok(()));
    assert_eq!(dir.files, vec![entry("b.js", b"3", ROOT), entry("a.js", b"2", ROOT)]);
    let mut untouched = PayloadDirectory { actor: ROOT, files: vec![entry("x", b"y", OTHER)] };
    assert_eq!(fetch_payload(&mut untouched, &vec![], &vec![], Some(OPERATOR)), Ok(()));
    assert_eq!(untouched.files, vec![entry("x", b"y", OTHER)]);
}

#[test]
fn directory_operations_find_files_by_name() {
    let mut dir = PayloadDirectory { actor: ROOT, files: vec![entry("a", b"1", OTHER)] };
    assert_eq!(dir.find(&"a".to_string()), Some(0));
    assert_eq!(dir.find(&"b".to_string()), None);
    dir.write(&"b".to_string(), b"2".to_vec());
    dir.write(&"a".to_string(), b"one".to_vec());
    assert_eq!(dir.files, vec![entry("a", b"one", OTHER), entry("b", b"2", ROOT)]);
    assert_eq!(
        dir.fix_ownership(&"c".to_string(), OPERATOR),
        Err(Error::IoFailure(IoFailure::NotFound))
    );
    assert_eq!(dir.fix_ownership(&"a".to_string(), OPERATOR), Ok(()));
    assert_eq!(dir.files[0].owner, OPERATOR);
}

#[test]
fn fetch_steps_on_success() {
    assert_eq!(fetch_begin(0), Step::Done(Ok(())));
    assert_eq!(fetch_begin(3), Step::Perform(FetchStage::Fetch(0)));
    assert_eq!(
        fetch_next(3, true, FetchStage::Fetch(0), Ok(())),
        Step::Perform(FetchStage::Write(0))
    );
    assert_eq!(
        fetch_next(3, true, FetchStage::Write(0), Ok(())),
        Step::Perform(FetchStage::Repair(0))
    );
    assert_eq!(
        fetch_next(3, true, FetchStage::Repair(0), Ok(())),
        Step::Perform(FetchStage::Fetch(1))
    );
    assert_eq!(
        fetch_next(3, false, FetchStage::Write(1), Ok(())),
        Step::Perform(FetchStage::Fetch(2))
    );
    assert_eq!(fetch_next(3, false, FetchStage::Write(2), Ok(())), Step::Done(Ok(())));
    assert_eq!(fetch_next(3, true, FetchStage::Repair(2), Ok(())), Step::Done(Ok(())));
}

#[test]
fn fetch_steps_on_failure() {
    let net = Err(Error::NetworkFailure);
    let full = Err(Error::IoFailure(IoFailure::Other));
    let denied = Err(Error::PermissionDenied);
    assert_eq!(fetch_next(3, true, FetchStage::Fetch(1), net), Step::Done(net));
    assert_eq!(fetch_next(3, true, FetchStage::Write(1), full), Step::Done(full));
    assert_eq!(fetch_next(3, true, FetchStage::Repair(1), denied), Step::Done(denied));
}
