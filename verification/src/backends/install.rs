//! The choice of installation backend and the command lines it runs.

use vstd::prelude::*;
use crate::backends::PackageSource;
use crate::text::{owned, to_chars, trim, trimmed};
use crate::backends::text_is;

verus! {

/// Available backends for package installation.
#[derive(Debug, Clone, Copy, PartialEq, Eq, Structural)]
pub enum InstallBackend {
    Pacman,
    Paru,
    Yay,
}

/// The command name of a backend.
pub open spec fn backend_cmd(b: InstallBackend) -> Seq<char> {
    match b {
        InstallBackend::Pacman => "pacman"@,
        InstallBackend::Paru => "paru"@,
        InstallBackend::Yay => "yay"@,
    }
}

/// Which sources a backend can install from: pacman installs from synced
/// repositories, the AUR helpers from anything but an unknown source.
pub open spec fn backend_serves(b: InstallBackend, s: PackageSource) -> bool {
    match s {
        PackageSource::Official { .. } => true,
        PackageSource::ThirdParty => true,
        PackageSource::Aur => b != InstallBackend::Pacman,
        PackageSource::Unknown => false,
    }
}

impl InstallBackend {
    /// The preferred AUR helper given which helpers answered a version probe:
    /// paru is preferred over yay.
    pub fn from_helper_probes(paru_available: bool, yay_available: bool) -> (r: Option<Self>)
        ensures
            r == if paru_available {
                Some(InstallBackend::Paru)
            } else if yay_available {
                Some(InstallBackend::Yay)
            } else {
                None::<InstallBackend>
            },
    {
        if paru_available {
            Some(InstallBackend::Paru)
        } else if yay_available {
            Some(InstallBackend::Yay)
        } else {
            None
        }
    }

    /// Get the command name for this backend.
    pub fn cmd(&self) -> (r: &'static str)
        ensures
            r@ == backend_cmd(*self),
    {
        match self {
            InstallBackend::Pacman => "pacman",
            InstallBackend::Paru => "paru",
            InstallBackend::Yay => "yay",
        }
    }

    /// Check if this backend can install from the given source.
    pub fn can_install(&self, source: &PackageSource) -> (b: bool)
        ensures
            b == backend_serves(*self, *source),
    {
        match source {
            PackageSource::Official { .. } => true,
            PackageSource::ThirdParty => true,
            PackageSource::Aur => match self {
                InstallBackend::Pacman => false,
                _ => true,
            },
            PackageSource::Unknown => false,
        }
    }
}

/// Select the appropriate backend for a package source.  `aur_helper` is the
/// AUR helper found on the system (see `InstallBackend::from_helper_probes`);
/// it is consulted for AUR packages only.
pub fn select_backend(source: &PackageSource, aur_helper: Option<InstallBackend>) -> (r: Option<InstallBackend>)
    ensures
        r == match *source {
            PackageSource::Official { .. } => Some(InstallBackend::Pacman),
            PackageSource::ThirdParty => Some(InstallBackend::Pacman),
            PackageSource::Aur => aur_helper,
            PackageSource::Unknown => None,
        },
{
    match source {
        PackageSource::Official { .. } | PackageSource::ThirdParty => Some(InstallBackend::Pacman),
        PackageSource::Aur => aur_helper,
        PackageSource::Unknown => None,
    }
}

/// The arguments of a non-interactive install of `package`.
pub fn install_args(package: &str) -> (r: Vec<String>)
    ensures
        r@.len() == 3,
        r@[0]@ == "-S"@,
        r@[1]@ == "--noconfirm"@,
        r@[2]@ == package@,
{
    let mut r = Vec::new();
    r.push(owned("-S"));
    r.push(owned("--noconfirm"));
    r.push(owned(package));
    r
}

/// The arguments of a non-interactive removal of `package`, also removing
/// unneeded dependencies when `recursive`.
pub fn remove_args(package: &str, recursive: bool) -> (r: Vec<String>)
    ensures
        r@.len() == 3,
        r@[0]@ == if recursive { "-Rs"@ } else { "-R"@ },
        r@[1]@ == "--noconfirm"@,
        r@[2]@ == package@,
{
    let mut r = Vec::new();
    r.push(if recursive { owned("-Rs") } else { owned("-R") });
    r.push(owned("--noconfirm"));
    r.push(owned(package));
    r
}

/// Whether the output of `id -u` names the superuser (`0`, around whitespace).
pub fn uid_output_is_root(output: &str) -> (b: bool)
    ensures
        b == (trim(output@) == "0"@),
{
    let v = to_chars(output);
    let t = trimmed(v.as_slice());
    text_is(t.as_slice(), "0")
}

/// How pacman is invoked: directly as root, otherwise through `sudo`.
/// Returns the program and the arguments that precede pacman's own.
pub fn pacman_invocation(running_as_root: bool) -> (r: (String, Vec<String>))
    ensures
        running_as_root ==> r.0@ == "pacman"@ && r.1@.len() == 0,
        !running_as_root ==> r.0@ == "sudo"@ && r.1@.len() == 1 && r.1@[0]@ == "pacman"@,
{
    if running_as_root {
        (owned("pacman"), Vec::new())
    } else {
        let mut v = Vec::new();
        v.push(owned("pacman"));
        (owned("sudo"), v)
    }
}

} // verus!
