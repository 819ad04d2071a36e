//! What a run does: from the flags, the answers of the operator and the
//! shape that the installation is in, to the transitions that are carried
//! out.

use vstd::prelude::*;
use vstd::string::*;
use crate::error::{Error, Violation};

verus! {

/// The transitions of a run: an unpatch, a patch, or the first and then
/// the second.
#[derive(Clone, Copy, Debug, PartialEq, Eq, Structural)]
pub struct Plan {
    pub unpatch: bool,
    pub patch: bool,
}

impl Plan {
    /// Whether the plan holds no transition at all.
    pub fn is_empty(self) -> (empty: bool)
        ensures
            empty == (!self.unpatch && !self.patch),
    {
        !self.unpatch && !self.patch
    }
}

/// The plan that the flags ask for: a repatch is an unpatch and a patch.
pub fn requested(patch: bool, unpatch: bool, repatch: bool) -> (plan: Plan)
    ensures
        plan == (Plan { unpatch: repatch || unpatch, patch: repatch || patch }),
{
    Plan { unpatch: repatch || unpatch, patch: repatch || patch }
}

/// A question put to the operator when no flag asks for a transition.
#[derive(Clone, Copy, Debug, PartialEq, Eq, Structural)]
pub enum Question {
    /// Whether to patch the installation; taken as agreed unless refused.
    PatchInstall,
    /// Whether to unpatch the installation; taken as refused unless agreed.
    UnpatchInstall,
}

impl Question {
    /// The answer that stands when the operator gives none.
    pub fn default_answer(self) -> (answer: bool)
        ensures
            answer == (self == Question::PatchInstall),
    {
        match self {
            Question::PatchInstall => true,
            Question::UnpatchInstall => false,
        }
    }
}

/// The question for an installation that reads as modified, or as stock:
/// the one transition that fits its shape.
pub fn question(is_patched: bool) -> (asked: Question)
    ensures
        asked == if is_patched {
            Question::UnpatchInstall
        } else {
            Question::PatchInstall
        },
{
    if is_patched {
        Question::UnpatchInstall
    } else {
        Question::PatchInstall
    }
}

/// Whether `answer` agrees: `y` and `yes` do, `n` and `no` do not, and
/// anything else leaves it at `default`.
pub open spec fn agrees(answer: Seq<char>, default: bool) -> bool {
    if answer == "y"@ || answer == "yes"@ {
        true
    } else if answer == "n"@ || answer == "no"@ {
        false
    } else {
        default
    }
}

/// Reads the operator's answer to a question whose default is `default`.
pub fn confirm(answer: &str, default: bool) -> (agreed: bool)
    ensures
        agreed == agrees(answer@, default),
{
    let given = answer.to_owned();
    if given == "y".to_owned() || given == "yes".to_owned() {
        true
    } else if given == "n".to_owned() || given == "no".to_owned() {
        false
    } else {
        default
    }
}

/// The plan after the operator answered `asked`: the transition asked
/// about if they agreed, nothing if they did not.
pub fn answered(asked: Question, agreed: bool) -> (plan: Plan)
    ensures
        plan == (Plan {
            unpatch: agreed && asked == Question::UnpatchInstall,
            patch: agreed && asked == Question::PatchInstall,
        }),
{
    match asked {
        Question::UnpatchInstall => Plan { unpatch: agreed, patch: false },
        Question::PatchInstall => Plan { unpatch: false, patch: agreed },
    }
}

/// Holds the plan against the shape of the installation, before any
/// transition is begun: an installation that reads as modified cannot be
/// patched without being unpatched first, and one that reads as stock
/// cannot be unpatched.
pub fn check_plan(is_patched: bool, plan: Plan) -> (checked: Result<Plan, Error>)
    ensures
        checked == if is_patched && !plan.unpatch {
            Err::<Plan, Error>(Error::PreconditionViolation(Violation::AlreadyPatched))
        } else if !is_patched && plan.unpatch {
            Err(Error::PreconditionViolation(Violation::NothingToUnpatch))
        } else {
            Ok(plan)
        },
{
    if is_patched && !plan.unpatch {
        Err(Error::PreconditionViolation(Violation::AlreadyPatched))
    } else if !is_patched && plan.unpatch {
        Err(Error::PreconditionViolation(Violation::NothingToUnpatch))
    } else {
        Ok(plan)
    }
}

/// Where the payload of a run lies.
#[derive(Clone, Copy, Debug, PartialEq, Eq, Structural)]
pub enum PayloadSource {
    /// At the path that the operator gave.
    Given,
    /// In the local build beside the working directory.
    LocalBuild,
    /// At the install path of the platform.
    Installed,
}

/// Chooses where the payload lies: a path that was given wins; else a
/// local build that exists is used unless the operator ruled it out; else
/// the install path of the platform.
pub fn payload_source(path_given: bool, local_build_found: bool, use_local: bool) -> (source:
    PayloadSource)
    ensures
        source == if path_given {
            PayloadSource::Given
        } else if local_build_found && use_local {
            PayloadSource::LocalBuild
        } else {
            PayloadSource::Installed
        },
{
    if path_given {
        PayloadSource::Given
    } else if local_build_found && use_local {
        PayloadSource::LocalBuild
    } else {
        PayloadSource::Installed
    }
}

/// Whether the payload is fetched before a patch: it is unless the
/// operator ruled it out or a local build is used.
pub fn wants_download(source: PayloadSource, download: bool) -> (wanted: bool)
    ensures
        wanted == (download && source != PayloadSource::LocalBuild),
{
    match source {
        PayloadSource::LocalBuild => false,
        _ => download,
    }
}

} // verus!
