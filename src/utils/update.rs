//! The version shown in the session and whether a newer one was found.
use vstd::prelude::*;
use crate::update::CURRENT_VERSION;
use crate::text::{chars_of, push_char};

verus! {

#[derive(Debug, Clone, Copy, PartialEq, Eq, Structural)]
pub enum InstallMethod {
    Manual,
    Cargo,
    Yay,
    Unknown,
}

/// The local version, the remote one once known, and whether the remote one
/// is newer.
#[derive(Debug)]
pub struct UpdateInfo {
    pub local_version: String,
    pub remote_version: Option<String>,
    pub update_available: bool,
    pub install_method: InstallMethod,
}

/// `a` comes before `b` in the order of `String`: character by character,
/// a proper prefix first.
pub open spec fn text_lt(a: Seq<char>, b: Seq<char>) -> bool
    decreases a.len(),
{
    if a.len() == 0 {
        b.len() > 0
    } else if b.len() == 0 {
        false
    } else if a[0] != b[0] {
        (a[0] as u32) < (b[0] as u32)
    } else {
        text_lt(a.drop_first(), b.drop_first())
    }
}

/// Whether `a` comes before `b` in the order of `String`.
pub fn text_less(a: &str, b: &str) -> (r: bool)
    ensures
        r == text_lt(a@, b@),
{
    let x = chars_of(a);
    let y = chars_of(b);
    let mut i: usize = 0;
    assert(x@.subrange(0, x@.len() as int) =~= x@);
    assert(y@.subrange(0, y@.len() as int) =~= y@);
    while i < x.len() && i < y.len() && x[i] == y[i]
        invariant
            i <= x.len(),
            i <= y.len(),
            x@ == a@,
            y@ == b@,
            text_lt(x@.subrange(i as int, x@.len() as int), y@.subrange(i as int, y@.len() as int))
                == text_lt(a@, b@),
        decreases x.len() - i,
    {
        assert(x@.subrange(i as int, x@.len() as int).drop_first() =~= x@.subrange(
            i + 1,
            x@.len() as int,
        ));
        assert(y@.subrange(i as int, y@.len() as int).drop_first() =~= y@.subrange(
            i + 1,
            y@.len() as int,
        ));
        i += 1;
    }
    if i == x.len() {
        i < y.len()
    } else if i == y.len() {
        false
    } else {
        (x[i] as u32) < (y[i] as u32)
    }
}

/// How the program was installed, from what the system reports: the package
/// manager lists it, cargo lists it among the installed binaries, or it is
/// found on the path.
pub fn install_method_from(listed_by_pacman: bool, listed_by_cargo: bool, on_path: bool) -> (r:
    InstallMethod)
    ensures
        r == (if listed_by_pacman {
            InstallMethod::Yay
        } else if listed_by_cargo {
            InstallMethod::Cargo
        } else if on_path {
            InstallMethod::Manual
        } else {
            InstallMethod::Unknown
        }),
{
    if listed_by_pacman {
        InstallMethod::Yay
    } else if listed_by_cargo {
        InstallMethod::Cargo
    } else if on_path {
        InstallMethod::Manual
    } else {
        InstallMethod::Unknown
    }
}

impl UpdateInfo {
    pub fn new(install_method: InstallMethod) -> (r: UpdateInfo)
        ensures
            r.local_version@ == CURRENT_VERSION@,
            r.remote_version is None,
            !r.update_available,
            r.install_method == install_method,
    {
        UpdateInfo {
            local_version: CURRENT_VERSION.to_owned(),
            remote_version: None,
            update_available: false,
            install_method,
        }
    }

    /// Takes in the remote version, when the check found one: an update is
    /// available when it comes after the local version.
    pub fn check_update(&mut self, remote: Option<String>)
        ensures
            final(self).local_version == old(self).local_version,
            final(self).install_method == old(self).install_method,
            match remote {
                Some(v) => final(self).remote_version == Some(v) && final(self).update_available
                    == text_lt(old(self).local_version@, v@),
                None => final(self).remote_version == old(self).remote_version
                    && final(self).update_available == old(self).update_available,
            },
    {
        match remote {
            Some(v) => {
                self.update_available = text_less(self.local_version.as_str(), v.as_str());
                self.remote_version = Some(v);
            },
            None => {},
        }
    }

    /// `LOCAL -> REMOTE` when an update is available, else `LOCAL (latest)`.
    pub fn version_display(&self) -> (r: String)
        ensures
            r@ == (if self.update_available {
                match self.remote_version {
                    Some(v) => self.local_version@ + seq![' ', '-', '>', ' '] + v@,
                    None => self.local_version@,
                }
            } else {
                self.local_version@ + seq![' ', '(', 'l', 'a', 't', 'e', 's', 't', ')']
            }),
    {
        let mut r = self.local_version.clone();
        if self.update_available {
            match &self.remote_version {
                Some(v) => {
                    push_char(&mut r, ' ');
                    push_char(&mut r, '-');
                    push_char(&mut r, '>');
                    push_char(&mut r, ' ');
                    r.append(v.as_str());
                    assert(r@ =~= self.local_version@ + seq![' ', '-', '>', ' '] + v@);
                },
                None => {},
            }
        } else {
            push_char(&mut r, ' ');
            push_char(&mut r, '(');
            push_char(&mut r, 'l');
            push_char(&mut r, 'a');
            push_char(&mut r, 't');
            push_char(&mut r, 'e');
            push_char(&mut r, 's');
            push_char(&mut r, 't');
            push_char(&mut r, ')');
            assert(r@ =~= self.local_version@ + seq![' ', '(', 'l', 'a', 't', 'e', 's', 't', ')']);
        }
        r
    }
}

} // verus!
