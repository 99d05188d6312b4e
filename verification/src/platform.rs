//! Detection of the Nix installation and of the target platform.
//!
//! The application observes the machine (the daemon socket, the owner of
//! the store, the NixOS markers, the operating system) and hands the
//! observations to these functions, which decide.
use vstd::prelude::*;

verus! {

/// How Nix is installed on the machine.
#[derive(Debug, Clone, Copy, PartialEq, Eq)]
pub enum NixInstallType {
    MultiUser,
    SingleUser,
    NotInstalled,
}

/// The kind of system whose environment Rix manages.
#[derive(Debug, Clone, Copy, PartialEq, Eq)]
pub enum TargetPlatform {
    NixOS,
    MultiUserLinux,
    SingleUserLinux,
    MacOS,
}

/// The installation type: the daemon socket means a multi-user
/// installation; otherwise a store owned by root still does, a store owned
/// by another user means a single-user installation, and no store means no
/// installation. `store_owner` is the owner's uid, `None` when the store
/// cannot be examined.
pub open spec fn install_type_spec(daemon_socket: bool, store_owner: Option<u32>) -> NixInstallType {
    if daemon_socket {
        NixInstallType::MultiUser
    } else {
        match store_owner {
            Some(uid) => if uid == 0 {
                NixInstallType::MultiUser
            } else {
                NixInstallType::SingleUser
            },
            None => NixInstallType::NotInstalled,
        }
    }
}

/// Decides the installation type from what the machine shows.
pub fn detect_nix_installation(daemon_socket: bool, store_owner: Option<u32>) -> (r: NixInstallType)
    ensures
        r == install_type_spec(daemon_socket, store_owner),
{
    if daemon_socket {
        return NixInstallType::MultiUser;
    }
    match store_owner {
        Some(uid) => {
            if uid == 0 {
                NixInstallType::MultiUser
            } else {
                NixInstallType::SingleUser
            }
        },
        None => NixInstallType::NotInstalled,
    }
}

/// The platform: macOS first, then NixOS (marked by `/etc/NIXOS` or
/// `/run/current-system`), then Linux with a multi-user installation, and
/// otherwise single-user Linux.
pub open spec fn platform_spec(is_macos: bool, nixos_marker: bool, install: NixInstallType) -> TargetPlatform {
    if is_macos {
        TargetPlatform::MacOS
    } else if nixos_marker {
        TargetPlatform::NixOS
    } else if install == NixInstallType::MultiUser {
        TargetPlatform::MultiUserLinux
    } else {
        TargetPlatform::SingleUserLinux
    }
}

/// Decides the target platform from what the machine shows.
pub fn detect_target_platform(is_macos: bool, nixos_marker: bool, install: NixInstallType) -> (r:
    TargetPlatform)
    ensures
        r == platform_spec(is_macos, nixos_marker, install),
{
    if is_macos {
        return TargetPlatform::MacOS;
    }
    if nixos_marker {
        return TargetPlatform::NixOS;
    }
    match install {
        NixInstallType::MultiUser => TargetPlatform::MultiUserLinux,
        _ => TargetPlatform::SingleUserLinux,
    }
}

} // verus!
