//! Where things are and whose they are: the platforms, the operator's
//! identity and the ownership of what is created on their behalf, and the
//! places of the payload and of the installation.
//!
//! Nothing here reads the environment or the filesystem. What was read is
//! handed in as plain values, and a place is handed out as a [`Location`]
//! that the caller joins with the means of its platform.

use vstd::prelude::*;
use vstd::string::*;
use crate::error::{Error, IdentityFailure, outcome_of};

verus! {

/// The platforms that an installation can be on.
#[derive(Clone, Copy, Debug, PartialEq, Eq, Structural)]
pub enum Platform {
    Linux,
    MacOs,
    Windows,
}

impl Platform {
    /// Whether files on this platform have an owning user and group that
    /// can be repaired: true on the platforms that follow POSIX.
    pub fn has_ownership(self) -> (has: bool)
        ensures
            has == (self != Platform::Windows),
    {
        match self {
            Platform::Windows => false,
            _ => true,
        }
    }
}

/// The user and the group that own a filesystem entry, or that a process
/// acts as.
#[derive(Clone, Copy, Debug, PartialEq, Eq, Structural)]
pub struct Owner {
    pub uid: u32,
    pub gid: u32,
}

impl Owner {
    /// Whether a process with this identity may give entries away: only
    /// the superuser may.
    pub open spec fn may_chown(self) -> bool {
        self.uid == 0
    }

    /// Whether this is the identity of the superuser.
    pub fn is_superuser(self) -> (is: bool)
        ensures
            is == self.may_chown(),
    {
        self.uid == 0
    }
}

/// The operator on whose behalf an escalated process runs.
#[derive(Clone, Debug, PartialEq, Eq)]
pub struct RealUser {
    pub uid: u32,
    pub gid: u32,
    /// The home directory of the account.
    pub home: String,
}

impl RealUser {
    /// The user and group as which the operator owns files.
    pub open spec fn owner_spec(self) -> Owner {
        Owner { uid: self.uid, gid: self.gid }
    }

    /// The user and group as which the operator owns files.
    pub fn owner(&self) -> (owner: Owner)
        ensures
            owner == self.owner_spec(),
    {
        Owner { uid: self.uid, gid: self.gid }
    }
}

/// What looking an account up by its name gave.
#[derive(Clone, Debug, PartialEq, Eq)]
pub enum AccountLookup {
    /// The account exists, with this identity.
    Found(RealUser),
    /// No account has that name.
    Unknown,
    /// The lookup itself failed.
    Failed,
}

/// The account that escalated, by the variables that the escalation
/// wrappers set: the one that `doas` sets is preferred to the one that
/// `sudo` sets. Without either no identity can be resolved.
pub fn real_user_name(doas_user: Option<String>, sudo_user: Option<String>) -> (name: Result<
    String,
    Error,
>)
    ensures
        name == match (doas_user, sudo_user) {
            (Some(doas), _) => Ok::<String, Error>(doas),
            (None, Some(sudo)) => Ok(sudo),
            (None, None) => Err(Error::IdentityResolutionFailure(IdentityFailure::NotEscalated)),
        },
{
    match doas_user {
        Some(doas) => Ok(doas),
        None => match sudo_user {
            Some(sudo) => Ok(sudo),
            None => Err(Error::IdentityResolutionFailure(IdentityFailure::NotEscalated)),
        },
    }
}

/// The operator's identity from the lookup of the escalated account. Only
/// an account that was found gives one; an unknown account and a failed
/// lookup are errors, never passed over.
pub fn get_real_user(lookup: AccountLookup) -> (user: Result<RealUser, Error>)
    ensures
        user == match lookup {
            AccountLookup::Found(found) => Ok::<RealUser, Error>(found),
            AccountLookup::Unknown => Err(
                Error::IdentityResolutionFailure(IdentityFailure::UnknownAccount),
            ),
            AccountLookup::Failed => Err(
                Error::IdentityResolutionFailure(IdentityFailure::LookupFailed),
            ),
        },
{
    match lookup {
        AccountLookup::Found(found) => Ok(found),
        AccountLookup::Unknown => Err(
            Error::IdentityResolutionFailure(IdentityFailure::UnknownAccount),
        ),
        AccountLookup::Failed => Err(Error::IdentityResolutionFailure(IdentityFailure::LookupFailed)),
    }
}

/// Why a process acting as `actor` cannot change the owner of an entry, if
/// it cannot.
pub open spec fn chown_error(actor: Owner) -> Option<Error> {
    if actor.may_chown() {
        None
    } else {
        Some(Error::PermissionDenied)
    }
}

/// Gives the entry owned by `owner` to the operator `user`, as a process
/// acting as `actor`: the owning user and group of this one entry become
/// those of the operator. A process that lacks the rights is refused, and
/// the owner stays who it was.
pub fn fix_perms(owner: &mut Owner, actor: Owner, user: Owner) -> (done: Result<(), Error>)
    ensures
        done == outcome_of(chown_error(actor)),
        *final(owner) == if actor.may_chown() {
            user
        } else {
            *old(owner)
        },
{
    if actor.is_superuser() {
        *owner = user;
        Ok(())
    } else {
        Err(Error::PermissionDenied)
    }
}

/// A place in the filesystem: `tail` below the directory `base`, or `tail`
/// alone where there is no base.
#[derive(Clone, Debug, PartialEq, Eq)]
pub struct Location {
    pub base: Option<String>,
    pub tail: String,
}

/// A [`Location`] as a mathematical value.
pub struct LocationView {
    pub base: Option<Seq<char>>,
    pub tail: Seq<char>,
}

impl View for Location {
    type V = LocationView;

    open spec fn view(&self) -> LocationView {
        LocationView {
            base: match self.base {
                Some(base) => Some(base@),
                None => None,
            },
            tail: self.tail@,
        }
    }
}

/// Whether `path` starts with `~/`.
pub open spec fn has_tilde(path: Seq<char>) -> bool {
    path.len() >= 2 && path[0] == '~' && path[1] == '/'
}

/// The place that `path` names for an account whose home directory is
/// `home`: what follows a leading `~/` lies below the home directory, and
/// any other path is taken as it is.
pub open spec fn tilde_expanded(path: Seq<char>, home: Seq<char>) -> LocationView {
    if has_tilde(path) {
        LocationView { base: Some(home), tail: path.skip(2) }
    } else {
        LocationView { base: None, tail: path }
    }
}

/// Expands a leading `~/` of `path` to the home directory `home`.
pub fn expand_tilde(path: &str, home: &str) -> (place: Location)
    ensures
        place@ == tilde_expanded(path@, home@),
{
    let len = path.unicode_len();
    if len >= 2 && path.get_char(0) == '~' && path.get_char(1) == '/' {
        let tail = path.substring_char(2, len);
        assert(path@.subrange(2, len as int) =~= path@.skip(2));
        Location { base: Some(home.to_owned()), tail: tail.to_owned() }
    } else {
        Location { base: None, tail: path.to_owned() }
    }
}

/// Where the payload is installed, below the directory `base`: the home
/// directory of the operator on Linux and macOS, the local application data
/// directory on Windows.
pub open spec fn install_location(platform: Platform, base: Seq<char>) -> LocationView {
    LocationView {
        base: Some(base),
        tail: match platform {
            Platform::Linux => ".local/share/Quartet/build"@,
            Platform::MacOs => "Library/Application Support/Quartet/build"@,
            Platform::Windows => "Quartet/build"@,
        },
    }
}

/// Where the payload is installed on `platform`, given the directory that
/// the platform goes by (see [`install_location`]). Without that directory
/// there is no such place.
pub fn get_install_path(platform: Platform, base: Option<&str>) -> (place: Option<Location>)
    ensures
        match base {
            Some(base) => place matches Some(place) && place@ == install_location(platform, base@),
            None => place is None,
        },
{
    match base {
        None => None,
        Some(base) => {
            proof {
                lemma_install_paths();
            }
            Some(
                match platform {
                    Platform::Linux => expand_tilde("~/.local/share/Quartet/build", base),
                    Platform::MacOs => expand_tilde(
                        "~/Library/Application Support/Quartet/build",
                        base,
                    ),
                    Platform::Windows => Location {
                        base: Some(base.to_owned()),
                        tail: "Quartet/build".to_owned(),
                    },
                },
            )
        },
    }
}

/// The install paths below the home directory, with and without `~/`.
proof fn lemma_install_paths()
    ensures
        has_tilde("~/.local/share/Quartet/build"@),
        "~/.local/share/Quartet/build"@.skip(2) == ".local/share/Quartet/build"@,
        has_tilde("~/Library/Application Support/Quartet/build"@),
        "~/Library/Application Support/Quartet/build"@.skip(2)
            == "Library/Application Support/Quartet/build"@,
{
    reveal_strlit("~/.local/share/Quartet/build");
    reveal_strlit(".local/share/Quartet/build");
    reveal_strlit("~/Library/Application Support/Quartet/build");
    reveal_strlit("Library/Application Support/Quartet/build");
    assert("~/.local/share/Quartet/build"@.skip(2) =~= ".local/share/Quartet/build"@);
    assert("~/Library/Application Support/Quartet/build"@.skip(2)
        =~= "Library/Application Support/Quartet/build"@);
}

/// The places where an installation is looked for on `platform`, most
/// likely first: `/opt/TETR.IO` on Linux, `Applications/TETR.IO` below the
/// home directory on macOS, `Programs/tetrio-desktop` below the local
/// application data directory on Windows. `base` is that directory; where
/// macOS or Windows has none, there is no place to look.
pub open spec fn guess_locations(platform: Platform, base: Option<Seq<char>>) -> Seq<LocationView> {
    match (platform, base) {
        (Platform::Linux, _) => seq![LocationView { base: None, tail: "/opt/TETR.IO"@ }],
        (Platform::MacOs, Some(home)) => seq![
            LocationView { base: Some(home), tail: "Applications/TETR.IO"@ },
        ],
        (Platform::Windows, Some(data)) => seq![
            LocationView { base: Some(data), tail: "Programs/tetrio-desktop"@ },
        ],
        _ => Seq::empty(),
    }
}

/// The places of `places` as mathematical values.
pub open spec fn locations(places: Seq<Location>) -> Seq<LocationView> {
    places.map_values(|place: Location| place@)
}

/// The places where an installation is looked for on `platform` (see
/// [`guess_locations`]).
pub fn guess_candidates(platform: Platform, base: Option<&str>) -> (places: Vec<Location>)
    ensures
        locations(places@) == guess_locations(
            platform,
            match base {
                Some(base) => Some(base@),
                None => None,
            },
        ),
{
    let mut places: Vec<Location> = Vec::new();
    match platform {
        Platform::Linux => {
            places.push(Location { base: None, tail: "/opt/TETR.IO".to_owned() });
        },
        Platform::MacOs => {
            if let Some(home) = base {
                proof {
                    lemma_applications_path();
                }
                places.push(expand_tilde("~/Applications/TETR.IO", home));
            }
        },
        Platform::Windows => {
            if let Some(data) = base {
                places.push(
                    Location {
                        base: Some(data.to_owned()),
                        tail: "Programs/tetrio-desktop".to_owned(),
                    },
                );
            }
        },
    }
    assert(locations(places@) =~= guess_locations(
        platform,
        match base {
            Some(base) => Some(base@),
            None => None,
        },
    ));
    places
}

/// The place of the application on macOS, with and without `~/`.
proof fn lemma_applications_path()
    ensures
        has_tilde("~/Applications/TETR.IO"@),
        "~/Applications/TETR.IO"@.skip(2) == "Applications/TETR.IO"@,
{
    reveal_strlit("~/Applications/TETR.IO");
    reveal_strlit("Applications/TETR.IO");
    assert("~/Applications/TETR.IO"@.skip(2) =~= "Applications/TETR.IO"@);
}

/// Whether the place `i` was found to exist. A place without an answer
/// counts as missing.
pub open spec fn found(present: Seq<bool>, i: int) -> bool {
    0 <= i < present.len() && present[i]
}

/// Whether `i` is the first of `count` places that exists.
pub open spec fn is_first_found(present: Seq<bool>, count: int, i: int) -> bool {
    &&& 0 <= i < count
    &&& found(present, i)
    &&& forall|j: int| 0 <= j < i ==> !found(present, j)
}

/// The installation among the candidate places: the first that exists,
/// where `present` tells of each place, in order, whether it does. `None`
/// exactly when no candidate exists.
pub fn guess_path(candidates: Vec<Location>, present: &Vec<bool>) -> (place: Option<Location>)
    ensures
        match place {
            Some(place) => exists|i: int|
                #[trigger] is_first_found(present@, candidates@.len() as int, i) && place
                    == candidates@[i],
            None => forall|i: int| 0 <= i < candidates@.len() ==> !found(present@, i),
        },
{
    let mut places = candidates;
    let mut i: usize = 0;
    while i < places.len()
        invariant
            i <= places@.len(),
            places@ == candidates@,
            forall|j: int| 0 <= j < i ==> !found(present@, j),
        decreases places@.len() - i,
    {
        if i < present.len() && present[i] {
            let place = places.swap_remove(i);
            assert(is_first_found(present@, candidates@.len() as int, i as int) && place
                == candidates@[i as int]);
            return Some(place);
        }
        i += 1;
    }
    None
}

/// Whether the place that the operator entered is taken: it is if it
/// exists, else the operator is asked again.
pub fn ask_path(answer: String, present: bool) -> (place: Option<String>)
    ensures
        place == if present {
            Some(answer)
        } else {
            None
        },
{
    if present {
        Some(answer)
    } else {
        None
    }
}

} // verus!
