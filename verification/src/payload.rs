//! Fetching the payload: each named file is retrieved, written into the
//! payload directory in place of what it held, and given to the operator,
//! in the order of the names.
//!
//! Retrieval and filesystem work alternate with decisions. The decisions
//! are [`fetch_begin`] and [`fetch_next`]; [`fetch_payload`] runs them
//! against a [`PayloadDirectory`], which holds the directory in memory, and
//! against the answers that the remote source gave.

use vstd::prelude::*;
use vstd::slice::slice_to_vec;
use vstd::string::*;
use crate::error::{Error, IoFailure, outcome_of};
use crate::patcher::Step;
use crate::paths::{Owner, chown_error, fix_perms};

verus! {

/// Where the payload files are retrieved from: a file's address is this
/// text followed by the file's name.
pub const DEVBUILD_URL: &'static str = "https://github.com/dzshn/Quartet/releases/devbuild";

/// The address from which the payload file `name` is retrieved.
pub fn payload_url(name: &str) -> (url: String)
    ensures
        url@ == DEVBUILD_URL@ + name@,
{
    String::from_str(DEVBUILD_URL).concat(name)
}

/// The names of the payload files, in the order in which they are fetched.
pub open spec fn payload_file_names() -> Seq<Seq<char>> {
    seq!["loader.js"@, "preload.js"@, "quartet.js"@]
}

/// The names as mathematical values.
pub open spec fn texts(names: Seq<String>) -> Seq<Seq<char>> {
    names.map_values(|name: String| name@)
}

/// The names of the payload files, in the order in which they are fetched.
pub fn payload_names() -> (names: Vec<String>)
    ensures
        texts(names@) == payload_file_names(),
{
    let mut names: Vec<String> = Vec::new();
    names.push("loader.js".to_owned());
    names.push("preload.js".to_owned());
    names.push("quartet.js".to_owned());
    assert(texts(names@) =~= payload_file_names());
    names
}

/// A file of the payload directory.
#[derive(Clone, Debug, PartialEq, Eq)]
pub struct PayloadFile {
    pub name: String,
    pub content: Vec<u8>,
    pub owner: Owner,
}

/// A [`PayloadFile`] as a mathematical value.
pub struct FileView {
    pub name: Seq<char>,
    pub content: Seq<u8>,
    pub owner: Owner,
}

impl View for PayloadFile {
    type V = FileView;

    open spec fn view(&self) -> FileView {
        FileView { name: self.name@, content: self.content@, owner: self.owner }
    }
}

/// The payload directory, as a process acting as `actor` finds it.
#[derive(Clone, Debug, PartialEq, Eq)]
pub struct PayloadDirectory {
    /// Whom the process acts as: the owner of the files it creates.
    pub actor: Owner,
    /// The files, in the order in which they were created.
    pub files: Vec<PayloadFile>,
}

/// A [`PayloadDirectory`] as a mathematical value.
pub struct DirectoryView {
    pub actor: Owner,
    pub files: Seq<FileView>,
}

/// The files as mathematical values.
pub open spec fn file_views(files: Seq<PayloadFile>) -> Seq<FileView> {
    files.map_values(|file: PayloadFile| file@)
}

impl View for PayloadDirectory {
    type V = DirectoryView;

    open spec fn view(&self) -> DirectoryView {
        DirectoryView { actor: self.actor, files: file_views(self.files@) }
    }
}

impl DirectoryView {
    /// Whether `i` is the place of the file called `name`.
    pub open spec fn is_place_of(self, name: Seq<char>, i: int) -> bool {
        &&& 0 <= i < self.files.len()
        &&& self.files[i].name == name
        &&& forall|j: int| 0 <= j < i ==> (#[trigger] self.files[j]).name != name
    }

    /// Whether the directory holds a file called `name`.
    pub open spec fn holds(self, name: Seq<char>) -> bool {
        exists|i: int| self.is_place_of(name, i)
    }

    /// The place of the file called `name`, where there is one.
    pub open spec fn place(self, name: Seq<char>) -> int {
        choose|i: int| self.is_place_of(name, i)
    }

    /// The content of the file called `name`, if there is one.
    pub open spec fn content_of(self, name: Seq<char>) -> Option<Seq<u8>> {
        if self.holds(name) {
            Some(self.files[self.place(name)].content)
        } else {
            None
        }
    }

    /// The owner of the file called `name`, if there is one.
    pub open spec fn owner_of(self, name: Seq<char>) -> Option<Owner> {
        if self.holds(name) {
            Some(self.files[self.place(name)].owner)
        } else {
            None
        }
    }

    /// The directory after `content` was written to the file called `name`:
    /// a file of that name keeps its owner and holds `content` in place of
    /// what it held; where there was none, a new file holds `content` and is
    /// owned by the process.
    pub open spec fn stored(self, name: Seq<char>, content: Seq<u8>) -> DirectoryView {
        if self.holds(name) {
            DirectoryView {
                files: self.files.update(
                    self.place(name),
                    FileView { content, ..self.files[self.place(name)] },
                ),
                ..self
            }
        } else {
            DirectoryView {
                files: self.files.push(FileView { name, content, owner: self.actor }),
                ..self
            }
        }
    }

    /// Why giving the file called `name` away fails, if it does.
    pub open spec fn repair_error(self, name: Seq<char>) -> Option<Error> {
        if !self.holds(name) {
            Some(Error::IoFailure(IoFailure::NotFound))
        } else {
            chown_error(self.actor)
        }
    }

    /// The directory after an attempt to give the file called `name` to
    /// `owner`.
    pub open spec fn repaired(self, name: Seq<char>, owner: Owner) -> DirectoryView {
        if self.repair_error(name) is Some {
            self
        } else {
            DirectoryView {
                files: self.files.update(
                    self.place(name),
                    FileView { owner, ..self.files[self.place(name)] },
                ),
                ..self
            }
        }
    }
}

/// Where a file called `name` has a place, that place is the only one.
pub proof fn lemma_place(d: DirectoryView, name: Seq<char>, i: int)
    requires
        d.is_place_of(name, i),
    ensures
        d.holds(name),
        d.place(name) == i,
{
    let k = d.place(name);
    assert(d.is_place_of(name, k));
    if k < i {
        assert(d.files[k].name != name);
    }
    if i < k {
        assert(d.files[i].name != name);
    }
}

impl PayloadDirectory {
    /// The place of the file called `name`, if the directory holds one.
    pub fn find(&self, name: &String) -> (place: Option<usize>)
        ensures
            match place {
                Some(i) => self@.is_place_of(name@, i as int),
                None => !self@.holds(name@),
            },
    {
        let mut i: usize = 0;
        while i < self.files.len()
            invariant
                i <= self.files@.len(),
                forall|j: int| 0 <= j < i ==> (#[trigger] self@.files[j]).name != name@,
            decreases self.files@.len() - i,
        {
            if self.files[i].name == *name {
                assert(self@.files[i as int].name == name@);
                return Some(i);
            }
            assert(self@.files[i as int].name != name@);
            i += 1;
        }
        proof {
            if self@.holds(name@) {
                let k = self@.place(name@);
                assert(self@.files[k].name != name@);
            }
        }
        None
    }

    /// Writes `content` to the file called `name`, in place of what the
    /// file held.
    pub fn write(&mut self, name: &String, content: Vec<u8>)
        ensures
            final(self)@ == old(self)@.stored(name@, content@),
    {
        match self.find(name) {
            Some(i) => {
                proof {
                    lemma_place(self@, name@, i as int);
                }
                self.files[i].content = content;
                assert(self@.files =~= old(self)@.stored(name@, content@).files);
            },
            None => {
                self.files.push(PayloadFile { name: name.clone(), content, owner: self.actor });
                assert(self@.files =~= old(self)@.stored(name@, content@).files);
            },
        }
    }

    /// Gives the file called `name` to `owner`.
    pub fn fix_ownership(&mut self, name: &String, owner: Owner) -> (done: Result<(), Error>)
        ensures
            done == outcome_of(old(self)@.repair_error(name@)),
            final(self)@ == old(self)@.repaired(name@, owner),
    {
        match self.find(name) {
            None => Err(Error::IoFailure(IoFailure::NotFound)),
            Some(i) => {
                proof {
                    lemma_place(self@, name@, i as int);
                }
                let mut held = self.files[i].owner;
                let done = fix_perms(&mut held, self.actor, owner);
                self.files[i].owner = held;
                assert(self@.files =~= old(self)@.repaired(name@, owner).files);
                done
            },
        }
    }
}

/// The step of a fetch that is in flight, for the file of that index.
#[derive(Clone, Copy, Debug, PartialEq, Eq, Structural)]
pub enum FetchStage {
    /// Retrieving the file from the remote source.
    Fetch(usize),
    /// Writing what was retrieved into the payload directory.
    Write(usize),
    /// Giving the written file to the operator.
    Repair(usize),
}

/// The step after the file `index` of `total` is dealt with: the retrieval
/// of the next one, or the end of the fetch.
pub open spec fn following(total: usize, index: usize) -> Step<FetchStage> {
    if index + 1 < total {
        Step::Perform(FetchStage::Fetch((index + 1) as usize))
    } else {
        Step::Done(Ok(()))
    }
}

/// The first step of a fetch of `total` files.
pub open spec fn fetch_start(total: usize) -> Step<FetchStage> {
    if total == 0 {
        Step::Done(Ok(()))
    } else {
        Step::Perform(FetchStage::Fetch(0))
    }
}

/// The step after `stage` ended as `outcome`: a failure ends the fetch
/// with that failure, and the files written before it stay; what was
/// retrieved is written; what was written is given to the operator, where
/// `repair` says that ownership is repaired; then the next file is
/// retrieved.
pub open spec fn fetch_after(
    total: usize,
    repair: bool,
    stage: FetchStage,
    outcome: Result<(), Error>,
) -> Step<FetchStage> {
    match outcome {
        Err(e) => Step::Done(Err(e)),
        Ok(_) => match stage {
            FetchStage::Fetch(index) => Step::Perform(FetchStage::Write(index)),
            FetchStage::Write(index) => if repair {
                Step::Perform(FetchStage::Repair(index))
            } else {
                following(total, index)
            },
            FetchStage::Repair(index) => following(total, index),
        },
    }
}

/// Goes on with the file after `index`.
fn next_file(total: usize, index: usize) -> (step: Step<FetchStage>)
    ensures
        step == following(total, index),
{
    if index < total && index + 1 < total {
        Step::Perform(FetchStage::Fetch(index + 1))
    } else {
        Step::Done(Ok(()))
    }
}

/// Begins a fetch of `total` files.
pub fn fetch_begin(total: usize) -> (step: Step<FetchStage>)
    ensures
        step == fetch_start(total),
{
    if total == 0 {
        Step::Done(Ok(()))
    } else {
        Step::Perform(FetchStage::Fetch(0))
    }
}

/// Decides how a fetch goes on after `stage` ended as `outcome`.
pub fn fetch_next(total: usize, repair: bool, stage: FetchStage, outcome: Result<(), Error>) -> (step:
    Step<FetchStage>)
    ensures
        step == fetch_after(total, repair, stage, outcome),
{
    match outcome {
        Err(e) => Step::Done(Err(e)),
        Ok(_) => match stage {
            FetchStage::Fetch(index) => Step::Perform(FetchStage::Write(index)),
            FetchStage::Write(index) => if repair {
                Step::Perform(FetchStage::Repair(index))
            } else {
                next_file(total, index)
            },
            FetchStage::Repair(index) => next_file(total, index),
        },
    }
}

/// What the remote source answered to each retrieval: the body, or the
/// failure.
pub open spec fn answers(responses: Seq<Result<Vec<u8>, Error>>) -> Seq<Result<Seq<u8>, Error>> {
    responses.map_values(
        |response: Result<Vec<u8>, Error>|
            match response {
                Ok(body) => Ok(body@),
                Err(e) => Err(e),
            },
    )
}

/// The answer to the retrieval of the file `i`. A retrieval without an
/// answer has failed.
pub open spec fn answer_at(answers: Seq<Result<Seq<u8>, Error>>, i: int) -> Result<Seq<u8>, Error> {
    if 0 <= i < answers.len() {
        answers[i]
    } else {
        Err(Error::NetworkFailure)
    }
}

/// What is left of a fetch that has written the file `i` into `d`: the
/// file is given to the operator, if there is one, and the fetch goes on
/// with the next file unless that failed.
pub open spec fn fetched_after_write(
    d: DirectoryView,
    names: Seq<Seq<char>>,
    answers: Seq<Result<Seq<u8>, Error>>,
    user: Option<Owner>,
    i: int,
) -> (DirectoryView, Result<(), Error>)
    decreases names.len() - i, 0int,
{
    if 0 <= i < names.len() {
        match user {
            None => fetched_from(d, names, answers, user, i + 1),
            Some(owner) => match d.repair_error(names[i]) {
                Some(e) => (d, Err(e)),
                None => fetched_from(d.repaired(names[i], owner), names, answers, user, i + 1),
            },
        }
    } else {
        (d, Ok(()))
    }
}

/// What is left of a fetch that is about to retrieve the file `i`: a
/// retrieval that fails ends the fetch; a body that was retrieved is written
/// to the file of that name, whole and in place of what the file held.
pub open spec fn fetched_from(
    d: DirectoryView,
    names: Seq<Seq<char>>,
    answers: Seq<Result<Seq<u8>, Error>>,
    user: Option<Owner>,
    i: int,
) -> (DirectoryView, Result<(), Error>)
    decreases names.len() - i, 1int,
{
    if 0 <= i < names.len() {
        match answer_at(answers, i) {
            Err(e) => (d, Err(e)),
            Ok(body) => fetched_after_write(d.stored(names[i], body), names, answers, user, i),
        }
    } else {
        (d, Ok(()))
    }
}

/// What a fetch of the files `names` makes of the directory `d`, and its
/// result, where `answers` holds what the remote source answered for each
/// name and `user` is the operator to whom the files are given (`None` on a
/// platform without ownership).
pub open spec fn fetched(
    d: DirectoryView,
    names: Seq<Seq<char>>,
    answers: Seq<Result<Seq<u8>, Error>>,
    user: Option<Owner>,
) -> (DirectoryView, Result<(), Error>) {
    fetched_from(d, names, answers, user, 0)
}

/// What is left of a fetch that is about to take `step` on `d`.
spec fn resumed(
    d: DirectoryView,
    names: Seq<Seq<char>>,
    answers: Seq<Result<Seq<u8>, Error>>,
    user: Option<Owner>,
    step: Step<FetchStage>,
    body: Seq<u8>,
) -> (DirectoryView, Result<(), Error>) {
    match step {
        Step::Perform(FetchStage::Fetch(i)) => fetched_from(d, names, answers, user, i as int),
        Step::Perform(FetchStage::Write(i)) => fetched_after_write(
            d.stored(names[i as int], body),
            names,
            answers,
            user,
            i as int,
        ),
        Step::Perform(FetchStage::Repair(i)) => fetched_after_write(
            d,
            names,
            answers,
            user,
            i as int,
        ),
        Step::Done(result) => (d, result),
    }
}

/// Whether `step` is a step of a fetch of `total` files.
spec fn in_range(total: usize, user: Option<Owner>, step: Step<FetchStage>) -> bool {
    match step {
        Step::Perform(FetchStage::Fetch(i)) => i < total,
        Step::Perform(FetchStage::Write(i)) => i < total,
        Step::Perform(FetchStage::Repair(i)) => i < total && user is Some,
        Step::Done(_) => true,
    }
}

/// How far a fetch is from its end.
spec fn distance(total: usize, step: Step<FetchStage>) -> int {
    match step {
        Step::Perform(FetchStage::Fetch(i)) => 3 * (total - i),
        Step::Perform(FetchStage::Write(i)) => 3 * (total - i) - 1,
        Step::Perform(FetchStage::Repair(i)) => 3 * (total - i) - 2,
        Step::Done(_) => 0,
    }
}

/// The answer of the remote source for the file `index`, with a copy of
/// the body.
fn answer(responses: &Vec<Result<Vec<u8>, Error>>, index: usize) -> (answer: Result<Vec<u8>, Error>)
    ensures
        match answer {
            Ok(body) => answer_at(answers(responses@), index as int) == Ok::<Seq<u8>, Error>(
                body@,
            ),
            Err(e) => answer_at(answers(responses@), index as int) == Err::<Seq<u8>, Error>(e),
        },
{
    if index < responses.len() {
        match &responses[index] {
            Ok(body) => Ok(slice_to_vec(body.as_slice())),
            Err(e) => Err(*e),
        }
    } else {
        Err(Error::NetworkFailure)
    }
}

/// Fetches the files `names` into the payload directory, in order: each
/// is retrieved, written whole to the file of its name in place of what
/// that file held, and, where `user` names the operator, given to the
/// operator. `responses` holds what the remote source answered for each
/// name. The first failure ends the fetch and is returned; the files
/// written before it stay as they were written.
pub fn fetch_payload(
    directory: &mut PayloadDirectory,
    names: &Vec<String>,
    responses: &Vec<Result<Vec<u8>, Error>>,
    user: Option<Owner>,
) -> (done: Result<(), Error>)
    ensures
        (final(directory)@, done) == fetched(
            old(directory)@,
            texts(names@),
            answers(responses@),
            user,
        ),
{
    let total = names.len();
    let mut step = fetch_begin(total);
    let mut body: Vec<u8> = Vec::new();
    loop
        invariant
            total == names@.len(),
            in_range(total, user, step),
            resumed(directory@, texts(names@), answers(responses@), user, step, body@) == fetched(
                old(directory)@,
                texts(names@),
                answers(responses@),
                user,
            ),
        decreases distance(total, step),
    {
        match step {
            Step::Perform(FetchStage::Fetch(index)) => {
                let outcome = match answer(responses, index) {
                    Ok(retrieved) => {
                        body = retrieved;
                        Ok(())
                    },
                    Err(e) => Err(e),
                };
                step = fetch_next(total, user.is_some(), FetchStage::Fetch(index), outcome);
            },
            Step::Perform(FetchStage::Write(index)) => {
                let mut content: Vec<u8> = Vec::new();
                core::mem::swap(&mut body, &mut content);
                directory.write(&names[index], content);
                step = fetch_next(total, user.is_some(), FetchStage::Write(index), Ok(()));
            },
            Step::Perform(FetchStage::Repair(index)) => {
                let outcome = match user {
                    Some(owner) => directory.fix_ownership(&names[index], owner),
                    None => Ok(()),
                };
                step = fetch_next(total, true, FetchStage::Repair(index), outcome);
            },
            Step::Done(result) => {
                return result;
            },
        }
    }
}

/// Fetches the three payload files (see [`payload_names`]) into the
/// payload directory, as [`fetch_payload`] does.
pub fn download_quartet(
    directory: &mut PayloadDirectory,
    responses: &Vec<Result<Vec<u8>, Error>>,
    user: Option<Owner>,
) -> (done: Result<(), Error>)
    ensures
        (final(directory)@, done) == fetched(
            old(directory)@,
            payload_file_names(),
            answers(responses@),
            user,
        ),
{
    let names = payload_names();
    fetch_payload(directory, &names, responses, user)
}

/// Two listings that name the same files in the same places, but for
/// files behind the shorter that are not called `name`, give the file called
/// `name` the same place.
proof fn lemma_place_stable(a: DirectoryView, b: DirectoryView, name: Seq<char>)
    requires
        a.files.len() <= b.files.len(),
        forall|j: int| 0 <= j < a.files.len() ==> (#[trigger] a.files[j]).name == b.files[j].name,
        forall|j: int| a.files.len() <= j < b.files.len() ==> (#[trigger] b.files[j]).name != name,
    ensures
        a.holds(name) == b.holds(name),
        a.holds(name) ==> a.place(name) == b.place(name),
{
    if a.holds(name) {
        let i = a.place(name);
        assert(a.is_place_of(name, i));
        assert forall|j: int| 0 <= j < i implies (#[trigger] b.files[j]).name != name by {
            assert(a.files[j].name != name);
        }
        assert(b.is_place_of(name, i));
        lemma_place(b, name, i);
    }
    if b.holds(name) {
        let i = b.place(name);
        assert(b.is_place_of(name, i));
        assert(i < a.files.len());
        assert forall|j: int| 0 <= j < i implies (#[trigger] a.files[j]).name != name by {
            assert(b.files[j].name != name);
        }
        assert(a.is_place_of(name, i));
        lemma_place(a, name, i);
    }
}

/// A file that was written holds what was written to it and nothing else,
/// whatever it held before; every other file holds what it held.
pub proof fn lemma_stored(d: DirectoryView, name: Seq<char>, content: Seq<u8>, other: Seq<char>)
    ensures
        d.stored(name, content).content_of(name) == Some(content),
        other != name ==> d.stored(name, content).content_of(other) == d.content_of(other),
        d.stored(name, content).actor == d.actor,
{
    let after = d.stored(name, content);
    if d.holds(name) {
        let i = d.place(name);
        assert(d.is_place_of(name, i));
        lemma_place_stable(d, after, name);
        lemma_place_stable(d, after, other);
        if other != name && d.holds(other) {
            assert(d.is_place_of(other, d.place(other)));
        }
    } else {
        assert forall|j: int| 0 <= j < d.files.len() implies (#[trigger] after.files[j]).name
            != name by {
            if d.files[j].name == name {
                lemma_first_place(d, name, j);
            }
        }
        assert(after.is_place_of(name, d.files.len() as int));
        lemma_place(after, name, d.files.len() as int);
        if other != name {
            lemma_place_stable(d, after, other);
            if d.holds(other) {
                assert(d.is_place_of(other, d.place(other)));
            }
        }
    }
}

/// A listing with a file called `name` has a first such file.
proof fn lemma_first_place(d: DirectoryView, name: Seq<char>, j: int)
    requires
        0 <= j < d.files.len(),
        d.files[j].name == name,
    ensures
        d.holds(name),
    decreases j,
{
    if forall|k: int| 0 <= k < j ==> (#[trigger] d.files[k]).name != name {
        assert(d.is_place_of(name, j));
    } else {
        let k = choose|k: int| 0 <= k < j && (#[trigger] d.files[k]).name == name;
        lemma_first_place(d, name, k);
    }
}

/// Giving a file away changes the content of no file.
pub proof fn lemma_repaired(d: DirectoryView, name: Seq<char>, owner: Owner, other: Seq<char>)
    ensures
        d.repaired(name, owner).content_of(other) == d.content_of(other),
        d.repaired(name, owner).actor == d.actor,
        d.repair_error(name) is None ==> d.repaired(name, owner).owner_of(name) == Some(owner),
{
    let after = d.repaired(name, owner);
    if d.repair_error(name) is None {
        assert(d.is_place_of(name, d.place(name)));
        lemma_place_stable(d, after, other);
        lemma_place_stable(d, after, name);
        if d.holds(other) {
            assert(d.is_place_of(other, d.place(other)));
        }
    }
}

/// A fetch changes the content of no file that it was not asked for.
pub proof fn lemma_fetch_keeps(
    d: DirectoryView,
    names: Seq<Seq<char>>,
    answers: Seq<Result<Seq<u8>, Error>>,
    user: Option<Owner>,
    i: int,
    other: Seq<char>,
)
    requires
        0 <= i,
        forall|j: int| i <= j < names.len() ==> names[j] != other,
    ensures
        fetched_from(d, names, answers, user, i).0.content_of(other) == d.content_of(other),
    decreases names.len() - i,
{
    if i < names.len() {
        if let Ok(body) = answer_at(answers, i) {
            let written = d.stored(names[i], body);
            lemma_stored(d, names[i], body, other);
            match user {
                None => {
                    lemma_fetch_keeps(written, names, answers, user, i + 1, other);
                },
                Some(owner) => {
                    lemma_repaired(written, names[i], owner, other);
                    if written.repair_error(names[i]) is None {
                        lemma_fetch_keeps(
                            written.repaired(names[i], owner),
                            names,
                            answers,
                            user,
                            i + 1,
                            other,
                        );
                    }
                },
            }
        }
    }
}

/// After a fetch that succeeded, a file that was asked for holds the body
/// that was retrieved for it, whole and alone: not what it held before, and
/// not that followed by the body. (Of a name asked for more than once, the
/// last retrieval counts.) So a second fetch leaves the bodies of the second
/// fetch, whatever the first had written.
pub proof fn lemma_fetch_overwrites(
    d: DirectoryView,
    names: Seq<Seq<char>>,
    answers: Seq<Result<Seq<u8>, Error>>,
    user: Option<Owner>,
    i: int,
    k: int,
)
    requires
        0 <= i <= k < names.len(),
        fetched_from(d, names, answers, user, i).1 is Ok,
        forall|j: int| k < j < names.len() ==> names[j] != names[k],
    ensures
        answer_at(answers, k) is Ok,
        fetched_from(d, names, answers, user, i).0.content_of(names[k]) == Some(
            answer_at(answers, k)->Ok_0,
        ),
    decreases names.len() - i,
{
    let body = answer_at(answers, i)->Ok_0;
    let written = d.stored(names[i], body);
    lemma_stored(d, names[i], body, names[k]);
    let settled = match user {
        None => written,
        Some(owner) => written.repaired(names[i], owner),
    };
    if user is Some {
        lemma_repaired(written, names[i], user->0, names[k]);
    }
    if i == k {
        lemma_fetch_keeps(settled, names, answers, user, i + 1, names[k]);
    } else {
        lemma_fetch_overwrites(settled, names, answers, user, i + 1, k);
    }
}

} // verus!
