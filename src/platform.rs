//! What differs between host platforms: asset names, executable names and
//! the archive format of a release.
use vstd::prelude::*;

use crate::release::text_eq;

verus! {

/// A host operating system.
#[derive(Debug, Clone, Copy, PartialEq, Eq)]
pub enum Platform {
    Linux,
    MacOs,
    Windows,
    /// Any platform that no release is built for.
    Other,
}

/// How a release asset is packed.
#[derive(Debug, Clone, Copy, PartialEq, Eq)]
pub enum ArchiveFormat {
    Zip,
    TarGz,
}

pub open spec fn platform_of(os: Seq<char>) -> Platform {
    if os == "linux"@ {
        Platform::Linux
    } else if os == "macos"@ {
        Platform::MacOs
    } else if os == "windows"@ {
        Platform::Windows
    } else {
        Platform::Other
    }
}

/// The platform named by an OS identifier as Rust spells it (`linux`,
/// `macos`, `windows`).
pub fn platform_from_os(os: &str) -> (r: Platform)
    ensures
        r == platform_of(os@),
{
    if text_eq(os, "linux") {
        Platform::Linux
    } else if text_eq(os, "macos") {
        Platform::MacOs
    } else if text_eq(os, "windows") {
        Platform::Windows
    } else {
        Platform::Other
    }
}

/// Windows releases are zip archives; all others are gzip-compressed tar.
pub fn archive_format(p: Platform) -> (r: ArchiveFormat)
    ensures
        r == (if p == Platform::Windows {
            ArchiveFormat::Zip
        } else {
            ArchiveFormat::TarGz
        }),
{
    match p {
        Platform::Windows => ArchiveFormat::Zip,
        _ => ArchiveFormat::TarGz,
    }
}

pub open spec fn launcher_asset_of(p: Platform) -> Option<Seq<char>> {
    match p {
        Platform::Linux => Some("launcher-x86_64-unknown-linux-gnu.tar.gz"@),
        Platform::MacOs => Some("launcher-universal-apple-darwin.tar.gz"@),
        Platform::Windows => Some("launcher-x86_64-pc-windows-msvc.zip"@),
        Platform::Other => None,
    }
}

/// The launcher's own release asset for a platform; none for `Other`.
pub fn launcher_asset_name(p: Platform) -> (r: Option<&'static str>)
    ensures
        match r {
            Some(s) => launcher_asset_of(p) == Some(s@),
            None => launcher_asset_of(p) is None,
        },
{
    match p {
        Platform::Linux => Some("launcher-x86_64-unknown-linux-gnu.tar.gz"),
        Platform::MacOs => Some("launcher-universal-apple-darwin.tar.gz"),
        Platform::Windows => Some("launcher-x86_64-pc-windows-msvc.zip"),
        Platform::Other => None,
    }
}

pub open spec fn launcher_exe_of(p: Platform) -> Option<Seq<char>> {
    match p {
        Platform::Linux | Platform::MacOs => Some("penning-launcher"@),
        Platform::Windows => Some("penning-launcher.exe"@),
        Platform::Other => None,
    }
}

/// The launcher's executable inside its unpacked release; none for `Other`.
pub fn launcher_exe_name(p: Platform) -> (r: Option<&'static str>)
    ensures
        match r {
            Some(s) => launcher_exe_of(p) == Some(s@),
            None => launcher_exe_of(p) is None,
        },
{
    match p {
        Platform::Linux | Platform::MacOs => Some("penning-launcher"),
        Platform::Windows => Some("penning-launcher.exe"),
        Platform::Other => None,
    }
}

pub open spec fn helper_asset_of(p: Platform) -> Seq<char> {
    match p {
        Platform::Linux => "penning-helper-x86_64-unknown-linux-gnu.tar.gz"@,
        Platform::MacOs => "penning-helper-universal-apple-darwin.tar.gz"@,
        _ => "penning-helper-x86_64-pc-windows-msvc.zip"@,
    }
}

/// The helper's release asset for a platform; `Other` falls back to the
/// Windows one.
pub fn helper_asset_name(p: Platform) -> (r: &'static str)
    ensures
        r@ == helper_asset_of(p),
{
    match p {
        Platform::Linux => "penning-helper-x86_64-unknown-linux-gnu.tar.gz",
        Platform::MacOs => "penning-helper-universal-apple-darwin.tar.gz",
        _ => "penning-helper-x86_64-pc-windows-msvc.zip",
    }
}

pub open spec fn helper_exe_of(p: Platform) -> Seq<char> {
    match p {
        Platform::Linux | Platform::MacOs => "penning-helper-interface"@,
        _ => "penning-helper-interface.exe"@,
    }
}

/// The helper's executable in its data directory; `Other` falls back to the
/// Windows name.
pub fn helper_exe_name(p: Platform) -> (r: &'static str)
    ensures
        r@ == helper_exe_of(p),
{
    match p {
        Platform::Linux | Platform::MacOs => "penning-helper-interface",
        _ => "penning-helper-interface.exe",
    }
}

} // verus!
