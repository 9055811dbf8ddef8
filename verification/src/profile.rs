//! Built-in scroll profiles and the service's status labels.
use crate::settings::Direction;
use vstd::prelude::*;

verus! {

/// Where the service reads its configuration.
pub open spec fn config_path_spec() -> Seq<char> {
    "/etc/linux-scroll-fix/config.toml"@
}

/// Where the service reads its configuration.
pub fn config_path() -> (p: &'static str)
    ensures
        p@ == config_path_spec(),
{
    "/etc/linux-scroll-fix/config.toml"
}

/// A built-in profile.
#[derive(Debug, Clone, Copy, PartialEq, Eq, Structural)]
pub enum ProfileArg {
    Precise,
    Balanced,
    Rapid,
}

impl ProfileArg {
    /// The profile's name.
    pub open spec fn name_spec(self) -> Seq<char> {
        match self {
            ProfileArg::Precise => "precise"@,
            ProfileArg::Balanced => "balanced"@,
            ProfileArg::Rapid => "rapid"@,
        }
    }

    /// The file that holds the profile's settings.
    pub open spec fn path_spec(self) -> Seq<char> {
        match self {
            ProfileArg::Precise => "/usr/local/share/linux-scroll-fix/profiles/precise.toml"@,
            ProfileArg::Balanced => "/usr/local/share/linux-scroll-fix/profiles/balanced.toml"@,
            ProfileArg::Rapid => "/usr/local/share/linux-scroll-fix/profiles/rapid.toml"@,
        }
    }

    /// All built-in profiles, in the order in which they are recognised.
    pub fn all() -> (profiles: [ProfileArg; 3])
        ensures
            profiles@ == seq![ProfileArg::Precise, ProfileArg::Balanced, ProfileArg::Rapid],
    {
        [ProfileArg::Precise, ProfileArg::Balanced, ProfileArg::Rapid]
    }

    /// The profile's name.
    pub fn name(self) -> (n: &'static str)
        ensures
            n@ == self.name_spec(),
    {
        match self {
            ProfileArg::Precise => "precise",
            ProfileArg::Balanced => "balanced",
            ProfileArg::Rapid => "rapid",
        }
    }

    /// The file that holds the profile's settings.
    pub fn path(self) -> (p: &'static str)
        ensures
            p@ == self.path_spec(),
    {
        match self {
            ProfileArg::Precise => "/usr/local/share/linux-scroll-fix/profiles/precise.toml",
            ProfileArg::Balanced => "/usr/local/share/linux-scroll-fix/profiles/balanced.toml",
            ProfileArg::Rapid => "/usr/local/share/linux-scroll-fix/profiles/rapid.toml",
        }
    }
}

/// The scroll direction of both axes.
#[derive(Debug, Clone, Copy, PartialEq, Eq, Structural)]
pub struct Directions {
    pub vertical: Direction,
    pub horizontal: Direction,
}

impl Directions {
    /// Both axes scrolling in `direction`.
    pub fn both(direction: Direction) -> (d: Directions)
        ensures
            d.vertical == direction,
            d.horizontal == direction,
    {
        Directions { vertical: direction, horizontal: direction }
    }
}

/// How to apply a built-in profile: read the settings at `source`, give them
/// `directions`, and store them at `target`.
#[derive(Debug, Clone, Copy, PartialEq, Eq)]
pub struct ProfileUpdate {
    pub source: &'static str,
    pub target: &'static str,
    pub directions: Directions,
}

/// Applies a built-in profile while preserving the scroll direction that
/// the current configuration has.
pub fn apply_profile(profile: ProfileArg, current: Directions) -> (u: ProfileUpdate)
    ensures
        u.source@ == profile.path_spec(),
        u.target@ == config_path_spec(),
        u.directions == current,
{
    ProfileUpdate { source: profile.path(), target: config_path(), directions: current }
}

/// The direction reported in the status: the common direction of both axes,
/// or `mixed`.
pub open spec fn direction_label_spec(d: Directions) -> Seq<char> {
    if d.vertical == d.horizontal {
        match d.vertical {
            Direction::Traditional => "traditional"@,
            Direction::Natural => "natural"@,
        }
    } else {
        "mixed"@
    }
}

/// The direction reported in the status.
pub fn direction_label(d: Directions) -> (s: &'static str)
    ensures
        s@ == direction_label_spec(d),
{
    if d.vertical == d.horizontal {
        match d.vertical {
            Direction::Traditional => "traditional",
            Direction::Natural => "natural",
        }
    } else {
        "mixed"
    }
}

/// The profile reported in the status: the recognised profile's name, or
/// `custom`.
pub fn profile_label(detected: Option<ProfileArg>) -> (s: &'static str)
    ensures
        s@ == match detected {
            Some(p) => p.name_spec(),
            None => "custom"@,
        },
{
    match detected {
        Some(p) => p.name(),
        None => "custom",
    }
}


/// The directory of the built-in profiles.
pub open spec fn profile_dir() -> Seq<char> {
    "/usr/local/share/linux-scroll-fix/profiles/"@
}

/// Every built-in profile's file lies in the profile directory and is named
/// after the profile: the directory, the profile's name, then `.toml`.
pub proof fn lemma_profile_paths_follow_names(profile: ProfileArg)
    ensures
        profile.path_spec() == profile_dir() + profile.name_spec() + ".toml"@,
{
    reveal_strlit("/usr/local/share/linux-scroll-fix/profiles/");
    reveal_strlit(".toml");
    reveal_strlit("precise");
    reveal_strlit("balanced");
    reveal_strlit("rapid");
    reveal_strlit("/usr/local/share/linux-scroll-fix/profiles/precise.toml");
    reveal_strlit("/usr/local/share/linux-scroll-fix/profiles/balanced.toml");
    reveal_strlit("/usr/local/share/linux-scroll-fix/profiles/rapid.toml");
    match profile {
        ProfileArg::Precise => {
            assert(profile.path_spec() =~= profile_dir() + profile.name_spec() + ".toml"@);
        },
        ProfileArg::Balanced => {
            assert(profile.path_spec() =~= profile_dir() + profile.name_spec() + ".toml"@);
        },
        ProfileArg::Rapid => {
            assert(profile.path_spec() =~= profile_dir() + profile.name_spec() + ".toml"@);
        },
    }
}

/// Different built-in profiles have different names and different files.
pub proof fn lemma_profiles_are_distinct(a: ProfileArg, b: ProfileArg)
    requires
        a != b,
    ensures
        a.name_spec() != b.name_spec(),
        a.path_spec() != b.path_spec(),
{
    reveal_strlit("precise");
    reveal_strlit("balanced");
    reveal_strlit("rapid");
    reveal_strlit("/usr/local/share/linux-scroll-fix/profiles/precise.toml");
    reveal_strlit("/usr/local/share/linux-scroll-fix/profiles/balanced.toml");
    reveal_strlit("/usr/local/share/linux-scroll-fix/profiles/rapid.toml");
    assert(a.name_spec()[0] != b.name_spec()[0]);
    assert(a.path_spec()[43] != b.path_spec()[43]);
}

/// The reported direction does not depend on which axis is which; it is
/// `mixed` exactly when the axes scroll in different directions, and
/// otherwise names the common direction.
pub proof fn lemma_direction_label_meaning(d: Directions)
    ensures
        direction_label_spec(d) == direction_label_spec(
            Directions { vertical: d.horizontal, horizontal: d.vertical },
        ),
        (direction_label_spec(d) == "mixed"@) <==> d.vertical != d.horizontal,
        d.vertical == d.horizontal && d.vertical == Direction::Natural ==> direction_label_spec(d)
            == "natural"@,
        d.vertical == d.horizontal && d.vertical == Direction::Traditional ==> direction_label_spec(
            d,
        ) == "traditional"@,
{
    reveal_strlit("mixed");
    reveal_strlit("natural");
    reveal_strlit("traditional");
    assert("mixed"@[0] != "natural"@[0]);
    assert("mixed"@[0] != "traditional"@[0]);
}

} // verus!
