//! What a release check decides: how the program was installed, whether a
//! newer release exists, and the command that updates it. Fetching the
//! release and probing the system happen outside.
use vstd::prelude::*;
use crate::text::{chars_of, contains, contains_exec, occurs_at_exec, starts_with, string_of};

verus! {

/// The version of this build.
pub const CURRENT_VERSION: &'static str = "0.1.0";

#[derive(Debug, Clone, Copy, PartialEq, Eq, Structural)]
pub enum InstallMethod {
    Manual,
    Cargo,
    Pacman,
    Unknown,
}

/// The outcome of a release check.
#[derive(Debug)]
pub struct UpdateInfo {
    pub has_update: bool,
    pub latest_version: String,
    pub current_version: String,
    pub install_method: InstallMethod,
}

pub fn get_current_version() -> (r: &'static str)
    ensures
        r@ == CURRENT_VERSION@,
        r@.len() > 0,
{
    proof {
        reveal_strlit("0.1.0");
    }
    CURRENT_VERSION
}

/// `tag` without its leading `v` characters.
pub open spec fn strip_v(tag: Seq<char>) -> Seq<char>
    decreases tag.len(),
{
    if tag.len() > 0 && tag[0] == 'v' {
        strip_v(tag.drop_first())
    } else {
        tag
    }
}

/// The version that a release tag names: the tag without its leading `v`s.
pub fn version_from_tag(tag: &str) -> (r: String)
    ensures
        r@ == strip_v(tag@),
{
    let cs = chars_of(tag);
    let mut i: usize = 0;
    assert(cs@.subrange(0, cs@.len() as int) =~= cs@);
    while i < cs.len() && cs[i] == 'v'
        invariant
            i <= cs.len(),
            strip_v(cs@.subrange(i as int, cs@.len() as int)) == strip_v(tag@),
            cs@ == tag@,
        decreases cs.len() - i,
    {
        assert(cs@.subrange(i as int, cs@.len() as int).drop_first() =~= cs@.subrange(
            i + 1,
            cs@.len() as int,
        ));
        i += 1;
    }
    string_of(&cs, i, cs.len())
}

/// The outcome of a check that found the release tagged `tag`: an update
/// exists when its version differs from this build's.
pub fn release_update_info(tag: &str, install_method: InstallMethod) -> (r: UpdateInfo)
    ensures
        r.latest_version@ == strip_v(tag@),
        r.current_version@ == CURRENT_VERSION@,
        r.has_update == (strip_v(tag@) != CURRENT_VERSION@),
        r.install_method == install_method,
{
    let latest = version_from_tag(tag);
    let current = get_current_version().to_owned();
    let has_update = !(latest == current);
    UpdateInfo { has_update, latest_version: latest, current_version: current, install_method }
}

pub open spec fn usr_bin() -> Seq<char> {
    seq!['/', 'u', 's', 'r', '/', 'b', 'i', 'n', '/']
}

pub open spec fn usr_local_bin() -> Seq<char> {
    seq!['/', 'u', 's', 'r', '/', 'l', 'o', 'c', 'a', 'l', '/', 'b', 'i', 'n', '/']
}

pub open spec fn local_bin() -> Seq<char> {
    seq!['.', 'l', 'o', 'c', 'a', 'l', '/', 'b', 'i', 'n']
}

pub open spec fn cargo_bin() -> Seq<char> {
    seq!['.', 'c', 'a', 'r', 'g', 'o', '/', 'b', 'i', 'n']
}

pub open spec fn target_release() -> Seq<char> {
    seq!['t', 'a', 'r', 'g', 'e', 't', '/', 'r', 'e', 'l', 'e', 'a', 's', 'e']
}

pub open spec fn deps() -> Seq<char> {
    seq!['d', 'e', 'p', 's']
}

/// How the program was installed, judged from the case-folded path of the
/// executable (if known), whether the package manager owns it, whether this
/// is a development build, and whether a cargo home is set.
pub open spec fn install_method_of(
    exe: Option<Seq<char>>,
    pacman_owned: bool,
    dev_build: bool,
    cargo_home: bool,
) -> InstallMethod {
    let from_path: Option<InstallMethod> = match exe {
        Some(p) => if starts_with(p, usr_bin()) || starts_with(p, usr_local_bin()) {
            Some(if pacman_owned { InstallMethod::Pacman } else { InstallMethod::Manual })
        } else if contains(p, local_bin()) {
            Some(InstallMethod::Manual)
        } else if contains(p, cargo_bin()) {
            Some(InstallMethod::Cargo)
        } else if dev_build {
            Some(InstallMethod::Unknown)
        } else if contains(p, target_release()) && !contains(p, deps()) {
            Some(InstallMethod::Cargo)
        } else {
            None
        },
        None => None,
    };
    match from_path {
        Some(m) => m,
        None => if cargo_home && !dev_build {
            InstallMethod::Cargo
        } else {
            InstallMethod::Unknown
        },
    }
}

/// How the program was installed; see `install_method_of`. `exe` is the
/// case-folded path of the executable.
pub fn detect_install_method(
    exe: Option<&str>,
    pacman_owned: bool,
    dev_build: bool,
    cargo_home: bool,
) -> (r: InstallMethod)
    ensures
        r == install_method_of(
            match exe {
                Some(p) => Some(p@),
                None => None,
            },
            pacman_owned,
            dev_build,
            cargo_home,
        ),
{
    match exe {
        Some(p) => {
            let cs = chars_of(p);
            let a = vec!['/', 'u', 's', 'r', '/', 'b', 'i', 'n', '/'];
            let b = vec!['/', 'u', 's', 'r', '/', 'l', 'o', 'c', 'a', 'l', '/', 'b', 'i', 'n', '/'];
            let c = vec!['.', 'l', 'o', 'c', 'a', 'l', '/', 'b', 'i', 'n'];
            let d = vec!['.', 'c', 'a', 'r', 'g', 'o', '/', 'b', 'i', 'n'];
            let e = vec!['t', 'a', 'r', 'g', 'e', 't', '/', 'r', 'e', 'l', 'e', 'a', 's', 'e'];
            let f = vec!['d', 'e', 'p', 's'];
            assert(a@ =~= usr_bin());
            assert(b@ =~= usr_local_bin());
            assert(c@ =~= local_bin());
            assert(d@ =~= cargo_bin());
            assert(e@ =~= target_release());
            assert(f@ =~= deps());
            if occurs_at_exec(&cs, &a, 0) || occurs_at_exec(&cs, &b, 0) {
                return if pacman_owned {
                    InstallMethod::Pacman
                } else {
                    InstallMethod::Manual
                };
            }
            if contains_exec(&cs, &c) {
                return InstallMethod::Manual;
            }
            if contains_exec(&cs, &d) {
                return InstallMethod::Cargo;
            }
            if dev_build {
                return InstallMethod::Unknown;
            }
            if contains_exec(&cs, &e) && !contains_exec(&cs, &f) {
                return InstallMethod::Cargo;
            }
        },
        None => {},
    }
    if cargo_home && !dev_build {
        InstallMethod::Cargo
    } else {
        InstallMethod::Unknown
    }
}

/// The command that updates an installation of the given kind, if one is known.
pub fn get_update_command(install_method: InstallMethod) -> (r: Option<&'static str>)
    ensures
        match install_method {
            InstallMethod::Manual => r is Some && r->0@
                == "curl -sL https://raw.githubusercontent.com/otomay/sniplias/master/scripts/install.sh | sh"@,
            InstallMethod::Cargo => r is Some && r->0@ == "cargo install sniplias"@,
            InstallMethod::Pacman => r is Some && r->0@ == "yay -S sniplias (or your AUR helper)"@,
            InstallMethod::Unknown => r is None,
        },
{
    match install_method {
        InstallMethod::Manual => Some(
            "curl -sL https://raw.githubusercontent.com/otomay/sniplias/master/scripts/install.sh | sh",
        ),
        InstallMethod::Cargo => Some("cargo install sniplias"),
        InstallMethod::Pacman => Some("yay -S sniplias (or your AUR helper)"),
        InstallMethod::Unknown => None,
    }
}

} // verus!
