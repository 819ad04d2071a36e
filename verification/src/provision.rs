//! Provisioning the payload directory: the ancestors of the target are
//! walked from the root down, each missing one is created, and each one
//! created is at once given to the operator. An ancestor that exists already
//! is never touched.
//!
//! The walk alternates filesystem work with decisions. The decisions are
//! [`provision_begin`], [`provision_probed`] and [`provision_performed`];
//! [`provision`] runs them against an [`AncestorChain`], which holds the
//! ancestors in memory and records every ownership repair.

use vstd::prelude::*;
use crate::error::{Error, IoFailure, outcome_of};
use crate::paths::{Owner, chown_error, fix_perms};

verus! {

/// The ancestors of a directory from the root down to the directory
/// itself, each with its owner or missing, as a process acting as `actor`
/// finds them.
#[derive(Clone, Debug, PartialEq, Eq)]
pub struct AncestorChain {
    /// Whom the process acts as: the owner of what it creates.
    pub actor: Owner,
    /// The owner of each ancestor, root first; `None` for one that does
    /// not exist.
    pub segments: Vec<Option<Owner>>,
    /// The ancestors on which an ownership repair was attempted, in the
    /// order of the attempts.
    pub repairs: Vec<usize>,
}

/// An [`AncestorChain`] as a mathematical value.
pub struct ChainView {
    pub actor: Owner,
    pub segments: Seq<Option<Owner>>,
    pub repairs: Seq<usize>,
}

impl View for AncestorChain {
    type V = ChainView;

    open spec fn view(&self) -> ChainView {
        ChainView { actor: self.actor, segments: self.segments@, repairs: self.repairs@ }
    }
}

impl ChainView {
    /// Whether the ancestor `i` exists.
    pub open spec fn present(self, i: int) -> bool {
        0 <= i < self.segments.len() && self.segments[i] is Some
    }

    /// Why creating the ancestor `i` fails, if it does: it must be missing
    /// and the one above it, if the chain holds one, must exist.
    pub open spec fn create_error(self, i: int) -> Option<Error> {
        if !(0 <= i < self.segments.len()) {
            Some(Error::IoFailure(IoFailure::NotFound))
        } else if self.segments[i] is Some {
            Some(Error::IoFailure(IoFailure::AlreadyExists))
        } else if i > 0 && self.segments[i - 1] is None {
            Some(Error::IoFailure(IoFailure::NotFound))
        } else {
            None
        }
    }

    /// The chain after an attempt to create the ancestor `i`: where it
    /// succeeds the ancestor exists and is owned by the process.
    pub open spec fn created(self, i: int) -> ChainView {
        if self.create_error(i) is Some {
            self
        } else {
            ChainView { segments: self.segments.update(i, Some(self.actor)), ..self }
        }
    }

    /// Why the ownership repair of the ancestor `i` fails, if it does.
    pub open spec fn repair_error(self, i: int) -> Option<Error> {
        if !self.present(i) {
            Some(Error::IoFailure(IoFailure::NotFound))
        } else {
            chown_error(self.actor)
        }
    }

    /// The chain after an attempt to give the ancestor `i` to `owner`: the
    /// attempt is recorded, and where it succeeds the ancestor is owned by
    /// `owner`.
    pub open spec fn repaired(self, i: usize, owner: Owner) -> ChainView {
        ChainView {
            segments: if self.repair_error(i as int) is Some {
                self.segments
            } else {
                self.segments.update(i as int, Some(owner))
            },
            repairs: self.repairs.push(i),
            ..self
        }
    }
}

/// The ancestors below `n` that are missing from `segments`, in ascending
/// order.
pub open spec fn missing_before(segments: Seq<Option<Owner>>, n: int) -> Seq<usize>
    decreases n,
{
    if n <= 0 {
        Seq::empty()
    } else if n - 1 < segments.len() && segments[n - 1] is None {
        missing_before(segments, n - 1).push((n - 1) as usize)
    } else {
        missing_before(segments, n - 1)
    }
}

/// The missing ancestors of `segments`, in ascending order.
pub open spec fn missing(segments: Seq<Option<Owner>>) -> Seq<usize> {
    missing_before(segments, segments.len() as int)
}

/// `segments` with each of its first `n` ancestors that is missing created
/// and owned by `owner`, and the others as they are.
pub open spec fn filled_before(segments: Seq<Option<Owner>>, n: int, owner: Owner) -> Seq<
    Option<Owner>,
> {
    Seq::new(
        segments.len(),
        |j: int|
            if j < n && segments[j] is None {
                Some(owner)
            } else {
                segments[j]
            },
    )
}

/// `segments` with each missing ancestor created and owned by `owner`, and
/// the others as they are.
pub open spec fn filled(segments: Seq<Option<Owner>>, owner: Owner) -> Seq<Option<Owner>> {
    filled_before(segments, segments.len() as int, owner)
}

/// Whether every ancestor that exists in `before` is in `after` as it was,
/// owner included.
pub open spec fn keeps_existing(before: ChainView, after: ChainView) -> bool {
    &&& after.segments.len() == before.segments.len()
    &&& forall|j: int|
        0 <= j < before.segments.len() && before.segments[j] is Some ==> after.segments[j]
            == before.segments[j]
}

/// Whether the repairs that `after` records are those of `before` and then
/// repairs of ancestors that were missing from `before`, and of no others.
pub open spec fn repairs_only_created(before: ChainView, after: ChainView) -> bool {
    &&& after.repairs.len() >= before.repairs.len()
    &&& after.repairs.take(before.repairs.len() as int) == before.repairs
    &&& forall|k: int|
        before.repairs.len() <= k < after.repairs.len() ==> {
            &&& 0 <= (#[trigger] after.repairs[k]) < before.segments.len()
            &&& before.segments[after.repairs[k] as int] is None
        }
}

/// What provisioning makes of the chain `c`, and its result. `user` is the
/// operator to whom what is created is given; it is `None` on a platform
/// without ownership, where nothing is repaired.
///
/// - Without repair every missing ancestor is created, and owned by the
///   process.
/// - With no ancestor missing nothing happens.
/// - A process that may give entries away creates every missing ancestor,
///   gives each to the operator, and has attempted a repair on exactly
///   those, in the order of the walk.
/// - Any other process creates the first missing ancestor, is refused the
///   repair of it, and stops there: the ancestor stays, owned by the
///   process.
pub open spec fn provisioned(c: ChainView, user: Option<Owner>) -> (ChainView, Result<(), Error>) {
    let gaps = missing(c.segments);
    match user {
        None => (ChainView { segments: filled(c.segments, c.actor), ..c }, Ok(())),
        Some(owner) => if gaps.len() == 0 {
            (c, Ok(()))
        } else if c.actor.may_chown() {
            (
                ChainView {
                    segments: filled(c.segments, owner),
                    repairs: c.repairs + gaps,
                    ..c
                },
                Ok(()),
            )
        } else {
            (
                ChainView {
                    segments: c.segments.update(gaps[0] as int, Some(c.actor)),
                    repairs: c.repairs.push(gaps[0]),
                    ..c
                },
                Err(Error::PermissionDenied),
            )
        },
    }
}

impl AncestorChain {
    /// Whether the ancestor `i` exists.
    pub fn is_present(&self, i: usize) -> (present: bool)
        ensures
            present == self@.present(i as int),
    {
        i < self.segments.len() && self.segments[i].is_some()
    }

    /// Creates the ancestor `i`.
    pub fn create_dir(&mut self, i: usize) -> (done: Result<(), Error>)
        ensures
            done == outcome_of(old(self)@.create_error(i as int)),
            final(self)@ == old(self)@.created(i as int),
    {
        if i >= self.segments.len() {
            return Err(Error::IoFailure(IoFailure::NotFound));
        }
        if self.segments[i].is_some() {
            return Err(Error::IoFailure(IoFailure::AlreadyExists));
        }
        if i > 0 && self.segments[i - 1].is_none() {
            return Err(Error::IoFailure(IoFailure::NotFound));
        }
        self.segments.set(i, Some(self.actor));
        Ok(())
    }

    /// Gives the ancestor `i` to `owner`, and records the attempt.
    pub fn fix_ownership(&mut self, i: usize, owner: Owner) -> (done: Result<(), Error>)
        ensures
            done == outcome_of(old(self)@.repair_error(i as int)),
            final(self)@ == old(self)@.repaired(i, owner),
    {
        self.repairs.push(i);
        if i >= self.segments.len() {
            return Err(Error::IoFailure(IoFailure::NotFound));
        }
        match self.segments[i] {
            None => Err(Error::IoFailure(IoFailure::NotFound)),
            Some(current) => {
                let mut held = current;
                let done = fix_perms(&mut held, self.actor, owner);
                self.segments.set(i, Some(held));
                assert(self.segments@ =~= old(self)@.repaired(i, owner).segments);
                done
            },
        }
    }
}

/// A filesystem operation of the walk, on the ancestor of that index.
#[derive(Clone, Copy, Debug, PartialEq, Eq, Structural)]
pub enum ProvisionEffect {
    /// Create the ancestor.
    CreateDir(usize),
    /// Give the ancestor to the operator.
    FixOwnership(usize),
}

/// What the walk asks of its caller next.
#[derive(Debug, PartialEq, Eq)]
pub enum ProvisionStep {
    /// Report whether the ancestor of this index exists.
    Probe(usize),
    /// Perform this operation and report its outcome.
    Perform(ProvisionEffect),
    /// The walk is over, with this result.
    Done(Result<(), Error>),
}

/// The step after the ancestor `index` of `total` is dealt with: the probe
/// of the next one below it, or the end of the walk.
pub open spec fn descend(total: usize, index: usize) -> ProvisionStep {
    if index + 1 < total {
        ProvisionStep::Probe((index + 1) as usize)
    } else {
        ProvisionStep::Done(Ok(()))
    }
}

/// The first step of a walk over `total` ancestors: the probe of the root.
pub open spec fn walk_start(total: usize) -> ProvisionStep {
    if total == 0 {
        ProvisionStep::Done(Ok(()))
    } else {
        ProvisionStep::Probe(0)
    }
}

/// The step after the probe of the ancestor `index`: one that exists is
/// left untouched and the walk goes on below it; one that is missing is
/// created.
pub open spec fn walk_after_probe(total: usize, index: usize, present: bool) -> ProvisionStep {
    if present {
        descend(total, index)
    } else {
        ProvisionStep::Perform(ProvisionEffect::CreateDir(index))
    }
}

/// The step after `effect` ended as `outcome`: a failure ends the walk with
/// that failure and nothing is undone; an ancestor that was created is
/// given to the operator next, where `repair` says that ownership is
/// repaired; else the walk goes on below it.
pub open spec fn walk_after_effect(
    total: usize,
    repair: bool,
    effect: ProvisionEffect,
    outcome: Result<(), Error>,
) -> ProvisionStep {
    match outcome {
        Err(e) => ProvisionStep::Done(Err(e)),
        Ok(_) => match effect {
            ProvisionEffect::CreateDir(index) => if repair {
                ProvisionStep::Perform(ProvisionEffect::FixOwnership(index))
            } else {
                descend(total, index)
            },
            ProvisionEffect::FixOwnership(index) => descend(total, index),
        },
    }
}

/// Goes on below the ancestor `index`.
fn step_down(total: usize, index: usize) -> (step: ProvisionStep)
    ensures
        step == descend(total, index),
{
    if index < total && index + 1 < total {
        ProvisionStep::Probe(index + 1)
    } else {
        ProvisionStep::Done(Ok(()))
    }
}

/// Begins a walk over `total` ancestors, root first.
pub fn provision_begin(total: usize) -> (step: ProvisionStep)
    ensures
        step == walk_start(total),
{
    if total == 0 {
        ProvisionStep::Done(Ok(()))
    } else {
        ProvisionStep::Probe(0)
    }
}

/// Decides how the walk goes on after the ancestor `index` was probed.
pub fn provision_probed(total: usize, index: usize, present: bool) -> (step: ProvisionStep)
    ensures
        step == walk_after_probe(total, index, present),
{
    if present {
        step_down(total, index)
    } else {
        ProvisionStep::Perform(ProvisionEffect::CreateDir(index))
    }
}

/// Decides how the walk goes on after `effect` ended as `outcome`.
pub fn provision_performed(
    total: usize,
    repair: bool,
    effect: ProvisionEffect,
    outcome: Result<(), Error>,
) -> (step: ProvisionStep)
    ensures
        step == walk_after_effect(total, repair, effect, outcome),
{
    match outcome {
        Err(e) => ProvisionStep::Done(Err(e)),
        Ok(_) => match effect {
            ProvisionEffect::CreateDir(index) => if repair {
                ProvisionStep::Perform(ProvisionEffect::FixOwnership(index))
            } else {
                step_down(total, index)
            },
            ProvisionEffect::FixOwnership(index) => step_down(total, index),
        },
    }
}

/// The owner of what the walk has dealt with.
spec fn keeper(c: ChainView, user: Option<Owner>) -> Owner {
    match user {
        Some(owner) => owner,
        None => c.actor,
    }
}

/// The repairs that the walk over `c0` has attempted above `i`.
spec fn attempts(c0: ChainView, i: int, user: Option<Owner>) -> Seq<usize> {
    if user is Some {
        c0.repairs + missing_before(c0.segments, i)
    } else {
        c0.repairs
    }
}

/// What holds of the chain `c` when the walk over `c0` has dealt with the
/// ancestors above `i`.
spec fn walked(c0: ChainView, c: ChainView, i: int, user: Option<Owner>) -> bool {
    &&& 0 <= i <= c0.segments.len() <= usize::MAX
    &&& c.actor == c0.actor
    &&& c.segments == filled_before(c0.segments, i, keeper(c0, user))
    &&& c.repairs == attempts(c0, i, user)
    &&& user is Some && !c0.actor.may_chown() ==> missing_before(c0.segments, i).len() == 0
}

/// What holds of the chain `c` when the walk over `c0` has created the
/// ancestor `i` and is about to repair it.
spec fn created_at(c0: ChainView, c: ChainView, i: int, user: Option<Owner>) -> bool {
    &&& 0 <= i < c0.segments.len() <= usize::MAX
    &&& user is Some
    &&& c0.segments[i] is None
    &&& c.actor == c0.actor
    &&& c.segments == filled_before(c0.segments, i, keeper(c0, user)).update(
        i,
        Some(c0.actor),
    )
    &&& c.repairs == attempts(c0, i, user)
    &&& !c0.actor.may_chown() ==> missing_before(c0.segments, i).len() == 0
}

/// What holds of the chain `c` when the walk over `c0` is about to take
/// `step`.
spec fn on_course(c0: ChainView, c: ChainView, step: ProvisionStep, user: Option<Owner>) -> bool {
    match step {
        ProvisionStep::Probe(i) => i < c0.segments.len() && walked(c0, c, i as int, user),
        ProvisionStep::Perform(ProvisionEffect::CreateDir(i)) => {
            &&& i < c0.segments.len()
            &&& walked(c0, c, i as int, user)
            &&& c0.segments[i as int] is None
        },
        ProvisionStep::Perform(ProvisionEffect::FixOwnership(i)) => created_at(
            c0,
            c,
            i as int,
            user,
        ),
        ProvisionStep::Done(result) => (c, result) == provisioned(c0, user),
    }
}

/// How far the walk is from its end.
spec fn distance(total: usize, step: ProvisionStep) -> int {
    match step {
        ProvisionStep::Probe(i) => 3 * (total - i),
        ProvisionStep::Perform(ProvisionEffect::CreateDir(i)) => 3 * (total - i) - 1,
        ProvisionStep::Perform(ProvisionEffect::FixOwnership(i)) => 3 * (total - i) - 2,
        ProvisionStep::Done(_) => 0,
    }
}

/// The ancestors that are missing below `n` are missing, lie below `n`,
/// and are all of those.
proof fn lemma_missing_before(segments: Seq<Option<Owner>>, n: int)
    requires
        0 <= n <= segments.len() <= usize::MAX,
    ensures
        forall|k: int|
            0 <= k < missing_before(segments, n).len() ==> {
                &&& 0 <= (#[trigger] missing_before(segments, n)[k]) < n
                &&& segments[missing_before(segments, n)[k] as int] is None
            },
        missing_before(segments, n).len() == 0 <==> forall|j: int|
            0 <= j < n ==> (#[trigger] segments[j]) is Some,
    decreases n,
{
    if n > 0 {
        lemma_missing_before(segments, n - 1);
        if segments[n - 1] is None {
            assert(missing_before(segments, n).len() > 0);
        } else {
            assert(missing_before(segments, n) == missing_before(segments, n - 1));
        }
    }
}

/// The ancestors missing below `n` are the first of those missing below
/// any `m` further down.
proof fn lemma_missing_grows(segments: Seq<Option<Owner>>, n: int, m: int)
    requires
        0 <= n <= m,
    ensures
        missing_before(segments, n).len() <= missing_before(segments, m).len(),
        missing_before(segments, m).take(missing_before(segments, n).len() as int)
            == missing_before(segments, n),
    decreases m - n,
{
    if n < m {
        lemma_missing_grows(segments, n, m - 1);
        let shorter = missing_before(segments, m - 1);
        let longer = missing_before(segments, m);
        let len = missing_before(segments, n).len() as int;
        assert(longer.take(len) =~= shorter.take(len));
    } else {
        let all = missing_before(segments, n);
        assert(all.take(all.len() as int) =~= all);
    }
}

/// A walk that has reached the end of the chain has done what provisioning
/// is to do.
proof fn lemma_walk_complete(c0: ChainView, c: ChainView, user: Option<Owner>)
    requires
        walked(c0, c, c0.segments.len() as int, user),
    ensures
        (c, Ok::<(), Error>(())) == provisioned(c0, user),
{
    let total = c0.segments.len() as int;
    lemma_missing_before(c0.segments, total);
    if user is Some && missing(c0.segments).len() == 0 {
        assert(c.segments =~= c0.segments);
        assert(c.repairs =~= c0.repairs);
    }
}

/// The walk goes on below the ancestor `i`, which is dealt with.
proof fn lemma_descend(c0: ChainView, c: ChainView, i: usize, user: Option<Owner>)
    requires
        i < c0.segments.len(),
        walked(c0, c, i + 1, user),
    ensures
        on_course(c0, c, descend(c0.segments.len() as usize, i), user),
{
    if i + 1 == c0.segments.len() {
        lemma_walk_complete(c0, c, user);
    }
}

/// What follows the first step of a walk.
proof fn lemma_walk_begins(c: ChainView, user: Option<Owner>)
    requires
        c.segments.len() <= usize::MAX,
    ensures
        on_course(c, c, walk_start(c.segments.len() as usize), user),
{
    assert(c.segments =~= filled_before(c.segments, 0, keeper(c, user)));
    assert(c.repairs + Seq::<usize>::empty() =~= c.repairs);
    if c.segments.len() == 0 {
        lemma_walk_complete(c, c, user);
    }
}

/// What follows the probe of the ancestor `i`.
proof fn lemma_probe_step(c0: ChainView, c: ChainView, i: usize, user: Option<Owner>)
    requires
        on_course(c0, c, ProvisionStep::Probe(i), user),
    ensures
        on_course(
            c0,
            c,
            walk_after_probe(c0.segments.len() as usize, i, c.present(i as int)),
            user,
        ),
{
    let keep = keeper(c0, user);
    if c.present(i as int) {
        assert(c0.segments[i as int] is Some);
        assert(filled_before(c0.segments, i + 1, keep) =~= filled_before(
            c0.segments,
            i as int,
            keep,
        ));
        lemma_descend(c0, c, i, user);
    }
}

/// What follows the creation of the ancestor `i`, which succeeds.
proof fn lemma_create_step(c0: ChainView, c: ChainView, i: usize, user: Option<Owner>)
    requires
        on_course(c0, c, ProvisionStep::Perform(ProvisionEffect::CreateDir(i)), user),
    ensures
        c.create_error(i as int) is None,
        on_course(
            c0,
            c.created(i as int),
            walk_after_effect(
                c0.segments.len() as usize,
                user is Some,
                ProvisionEffect::CreateDir(i),
                Ok(()),
            ),
            user,
        ),
{
    let keep = keeper(c0, user);
    if i > 0 {
        assert(c.segments[i - 1] is Some);
    }
    if user is None {
        assert(c.created(i as int).segments =~= filled_before(c0.segments, i + 1, keep));
        lemma_descend(c0, c.created(i as int), i, user);
    }
}

/// What follows the repair of the ancestor `i`, which a process that may
/// give entries away is granted and any other is refused.
proof fn lemma_repair_step(c0: ChainView, c: ChainView, i: usize, user: Option<Owner>)
    requires
        on_course(c0, c, ProvisionStep::Perform(ProvisionEffect::FixOwnership(i)), user),
    ensures
        user is Some,
        c.repair_error(i as int) == chown_error(c0.actor),
        on_course(
            c0,
            c.repaired(i, user->0),
            walk_after_effect(
                c0.segments.len() as usize,
                true,
                ProvisionEffect::FixOwnership(i),
                outcome_of(chown_error(c0.actor)),
            ),
            user,
        ),
{
    let total = c0.segments.len() as int;
    let keep = keeper(c0, user);
    let after = c.repaired(i, user->0);
    assert(missing_before(c0.segments, i + 1) == missing_before(c0.segments, i as int).push(i));
    if c0.actor.may_chown() {
        assert(after.segments =~= filled_before(c0.segments, i + 1, keep));
        assert(after.repairs =~= c0.repairs + missing_before(c0.segments, i + 1));
        lemma_descend(c0, after, i, user);
    } else {
        lemma_missing_before(c0.segments, i as int);
        lemma_missing_grows(c0.segments, i + 1, total);
        assert(missing_before(c0.segments, i + 1) =~= seq![i]);
        assert(missing(c0.segments).take(1)[0] == i);
        assert(filled_before(c0.segments, i as int, keep) =~= c0.segments);
        assert(after.repairs =~= c0.repairs.push(i));
    }
}

/// Provisions the directory at the end of the chain: every ancestor that
/// is missing is created, root first, and, where `user` names the operator,
/// given to the operator as soon as it is created. An ancestor that exists
/// is left as it is, and so is its owner. The first failure ends the walk
/// and is returned; what was created before it stays.
///
/// A repair is attempted on the ancestors that the walk created and on no
/// others.
pub fn provision(chain: &mut AncestorChain, user: Option<Owner>) -> (done: Result<(), Error>)
    ensures
        (final(chain)@, done) == provisioned(old(chain)@, user),
        final(chain)@.segments.len() == old(chain)@.segments.len(),
        keeps_existing(old(chain)@, final(chain)@),
        repairs_only_created(old(chain)@, final(chain)@),
{
    let total = chain.segments.len();
    let mut step = provision_begin(total);
    proof {
        lemma_walk_begins(chain@, user);
    }
    loop
        invariant
            total == old(chain)@.segments.len(),
            on_course(old(chain)@, chain@, step, user),
        decreases distance(total, step),
    {
        let ghost c0 = old(chain)@;
        let ghost before = chain@;
        match step {
            ProvisionStep::Probe(index) => {
                let present = chain.is_present(index);
                proof {
                    lemma_probe_step(c0, before, index, user);
                }
                step = provision_probed(total, index, present);
            },
            ProvisionStep::Perform(ProvisionEffect::CreateDir(index)) => {
                proof {
                    lemma_create_step(c0, before, index, user);
                }
                let outcome = chain.create_dir(index);
                let created = ProvisionEffect::CreateDir(index);
                step = provision_performed(total, user.is_some(), created, outcome);
            },
            ProvisionStep::Perform(ProvisionEffect::FixOwnership(index)) => {
                proof {
                    lemma_repair_step(c0, before, index, user);
                }
                let outcome = match user {
                    Some(owner) => chain.fix_ownership(index, owner),
                    None => Ok(()),
                };
                let repaired = ProvisionEffect::FixOwnership(index);
                step = provision_performed(total, true, repaired, outcome);
            },
            ProvisionStep::Done(result) => {
                proof {
                    lemma_provision_scope(c0, user);
                }
                return result;
            },
        }
    }
}


/// Provisioning leaves every ancestor that existed as it was, owner
/// included, and attempts an ownership repair only on ancestors that were
/// missing, which it created: whatever the chain, whoever the process and
/// whether or not the walk succeeds.
pub proof fn lemma_provision_scope(c: ChainView, user: Option<Owner>)
    requires
        c.segments.len() <= usize::MAX,
    ensures
        keeps_existing(c, provisioned(c, user).0),
        repairs_only_created(c, provisioned(c, user).0),
{
    let total = c.segments.len() as int;
    let after = provisioned(c, user).0;
    lemma_missing_before(c.segments, total);
    assert(after.repairs.take(c.repairs.len() as int) =~= c.repairs);
    assert forall|k: int| c.repairs.len() <= k < after.repairs.len() implies {
        &&& 0 <= (#[trigger] after.repairs[k]) < c.segments.len()
        &&& c.segments[after.repairs[k] as int] is None
    } by {
        let gap = k - c.repairs.len();
        assert(after.repairs[k] == missing(c.segments)[gap]);
    }
}

/// Where the process may give entries away, provisioning for an operator
/// succeeds: afterwards every ancestor exists, those that were missing are
/// owned by the operator, and a repair was attempted on each of them once,
/// from the root down, and on nothing else.
pub proof fn lemma_provision_escalated(c: ChainView, owner: Owner)
    requires
        c.actor.may_chown(),
        c.segments.len() <= usize::MAX,
    ensures
        provisioned(c, Some(owner)).1 is Ok,
        provisioned(c, Some(owner)).0.repairs == c.repairs + missing(c.segments),
        forall|j: int|
            0 <= j < c.segments.len() ==> (#[trigger] provisioned(c, Some(owner)).0.segments[j])
                == if c.segments[j] is Some {
                c.segments[j]
            } else {
                Some(owner)
            },
{
    lemma_missing_before(c.segments, c.segments.len() as int);
    if missing(c.segments).len() == 0 {
        assert(c.repairs + missing(c.segments) =~= c.repairs);
    }
}

/// Whatever the filesystem does, the walk asks for an ownership repair of
/// an ancestor only as its next step after the creation of that very
/// ancestor succeeded, and for the creation of an ancestor only as its next
/// step after the probe found that ancestor missing. An ancestor that was
/// found to exist is therefore never created and never repaired.
pub proof fn lemma_walk_repairs_only_created(
    total: usize,
    repair: bool,
    index: usize,
    present: bool,
    effect: ProvisionEffect,
    outcome: Result<(), Error>,
)
    ensures
        !(walk_start(total) is Perform),
        walk_after_probe(total, index, present) is Perform ==> !present && walk_after_probe(
            total,
            index,
            present,
        ) == ProvisionStep::Perform(ProvisionEffect::CreateDir(index)),
        walk_after_effect(total, repair, effect, outcome) is Perform ==> {
            &&& repair
            &&& outcome is Ok
            &&& effect is CreateDir
            &&& walk_after_effect(total, repair, effect, outcome) == ProvisionStep::Perform(
                ProvisionEffect::FixOwnership(effect->CreateDir_0),
            )
        },
{
}

} // verus!
