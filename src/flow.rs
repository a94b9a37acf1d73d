//! The decisions of one run: whether to look for updates at all, what to do
//! with the latest release of the launcher and of the helper, and how to
//! launch the helper afterwards.
use std::cmp::Ordering;
use vstd::prelude::*;

use crate::platform::{
    helper_asset_name, helper_asset_of, launcher_asset_name, launcher_asset_of, launcher_exe_name,
    launcher_exe_of, Platform,
};
use crate::release::{find_asset, first_named, Asset, Release};
use crate::version::{
    compare, parse_tag, semver_fields, strip_marker, version_cmp, TagError, Version, VersionModel,
};

verus! {

/// What to do about the launcher's own latest release.
#[derive(Debug, Clone, PartialEq, Eq)]
pub enum SelfUpdate {
    /// The running version is not older than the release.
    UpToDate,
    /// The release is newer but has nothing for this platform: no update.
    NoAsset,
    /// Download `url`, unpack it into the staging directory, and replace the
    /// running executable with the file `exe_name` found there.
    Download { url: String, exe_name: String },
}

/// What to do about the helper's latest release.
#[derive(Debug, Clone, PartialEq, Eq)]
pub enum HelperUpdate {
    /// The installed helper is not older than the release.
    UpToDate,
    /// Download `url`, unpack it into the helper's data directory, then
    /// write `version` to the marker file.
    Download { url: String, version: Version },
}

/// Why a helper update was abandoned.
#[derive(Debug, Clone, Copy, PartialEq, Eq)]
pub enum HelperError {
    /// The release tag is not a version.
    MalformedTag,
    /// The release is newer but has no asset for this platform.
    NoAsset,
}

/// How the run ends.
#[derive(Debug, Clone, Copy, PartialEq, Eq)]
pub enum LaunchAction {
    /// Start the helper and leave it running.
    SpawnHelper,
    /// Start the helper and wait until it exits.
    RunHelperAndWait,
    /// Tell the user that the helper could not be launched.
    NotifyHelperMissing,
    /// Tell the user that the release feed's quota is spent, and when it resets.
    NotifyRateLimited,
}

pub open spec fn checks_updates(remaining: u64) -> bool {
    remaining > 0
}

/// Release feed requests are made only while the quota has requests left.
pub fn should_check_updates(remaining: u64) -> (r: bool)
    ensures
        r == checks_updates(remaining),
{
    remaining > 0
}

pub open spec fn launch_of(remaining: u64, helper_installed: bool) -> LaunchAction {
    if remaining == 0 {
        if helper_installed {
            LaunchAction::RunHelperAndWait
        } else {
            LaunchAction::NotifyRateLimited
        }
    } else if helper_installed {
        LaunchAction::SpawnHelper
    } else {
        LaunchAction::NotifyHelperMissing
    }
}

/// How to launch the helper, given the quota left and whether the helper's
/// executable is present (after any update attempt).
pub fn launch_action(remaining: u64, helper_installed: bool) -> (r: LaunchAction)
    ensures
        r == launch_of(remaining, helper_installed),
{
    if remaining == 0 {
        if helper_installed {
            LaunchAction::RunHelperAndWait
        } else {
            LaunchAction::NotifyRateLimited
        }
    } else if helper_installed {
        LaunchAction::SpawnHelper
    } else {
        LaunchAction::NotifyHelperMissing
    }
}

/// The notice shown when the quota is spent and no helper is installed;
/// `reset_at` is the local time at which the quota resets.
pub fn rate_limit_notice(reset_at: &str) -> (r: String)
    ensures
        r@ == "You have exceeded the rate limit for GitHub API, please try again at "@ + reset_at@,
{
    let mut out = String::new();
    out.append("You have exceeded the rate limit for GitHub API, please try again at ");
    out.append(reset_at);
    out
}

/// The index of the asset that a platform's name picks, if any.
pub open spec fn launcher_asset_index(assets: Seq<Asset>, p: Platform) -> Option<int> {
    match launcher_asset_of(p) {
        Some(n) => first_named(assets, n),
        None => None,
    }
}

/// Decides what to do with the launcher's latest release, given the running
/// version. A malformed tag abandons the check; a release with no asset for
/// this platform means no update.
pub fn plan_self_update(current: &Version, release: &Release, platform: Platform) -> (r: Result<
    SelfUpdate,
    TagError,
>)
    ensures
        r is Err <==> semver_fields(strip_marker(release.tag@)) is None,
        r is Err ==> r == Err::<SelfUpdate, TagError>(TagError::Malformed),
        semver_fields(strip_marker(release.tag@)) is Some && launcher_asset_index(release.assets@, platform)
            is None ==> r is Ok && !(r->Ok_0 is Download),
        match semver_fields(strip_marker(release.tag@)) {
            None => true,
            Some(remote) => if version_cmp(remote, current.model()) != Ordering::Greater {
                r == Ok::<SelfUpdate, TagError>(SelfUpdate::UpToDate)
            } else {
                match launcher_asset_index(release.assets@, platform) {
                    None => r == Ok::<SelfUpdate, TagError>(SelfUpdate::NoAsset),
                    Some(i) => match r {
                        Ok(SelfUpdate::Download { url, exe_name }) => url@ == release.assets@[i].url@
                            && launcher_exe_of(platform) == Some(exe_name@),
                        _ => false,
                    },
                }
            },
        },
{
    let remote = match parse_tag(release.tag.as_str()) {
        Ok(v) => v,
        Err(e) => return Err(e),
    };
    match compare(&remote, current) {
        Ordering::Greater => {},
        _ => return Ok(SelfUpdate::UpToDate),
    }
    let name = match launcher_asset_name(platform) {
        Some(n) => n,
        None => return Ok(SelfUpdate::NoAsset),
    };
    let exe = match launcher_exe_name(platform) {
        Some(e) => e,
        None => return Ok(SelfUpdate::NoAsset),
    };
    match find_asset(&release.assets, name) {
        Some(i) => Ok(SelfUpdate::Download { url: release.assets[i].url.clone(), exe_name: exe.to_owned() }),
        None => Ok(SelfUpdate::NoAsset),
    }
}

/// Decides what to do with the helper's latest release, given the installed
/// version. A malformed tag, or a newer release with no asset for this
/// platform, abandons the update.
pub fn plan_helper_update(installed: &Version, release: &Release, platform: Platform) -> (r: Result<
    HelperUpdate,
    HelperError,
>)
    ensures
        match semver_fields(strip_marker(release.tag@)) {
            None => r == Err::<HelperUpdate, HelperError>(HelperError::MalformedTag),
            Some(remote) => if version_cmp(installed.model(), remote) != Ordering::Less {
                r == Ok::<HelperUpdate, HelperError>(HelperUpdate::UpToDate)
            } else {
                match first_named(release.assets@, helper_asset_of(platform)) {
                    None => r == Err::<HelperUpdate, HelperError>(HelperError::NoAsset),
                    Some(i) => match r {
                        Ok(HelperUpdate::Download { url, version }) => url@ == release.assets@[i].url@
                            && version.model() == remote,
                        _ => false,
                    },
                }
            },
        },
{
    let remote = match parse_tag(release.tag.as_str()) {
        Ok(v) => v,
        Err(_) => return Err(HelperError::MalformedTag),
    };
    match compare(installed, &remote) {
        Ordering::Less => {},
        _ => return Ok(HelperUpdate::UpToDate),
    }
    match find_asset(&release.assets, helper_asset_name(platform)) {
        Some(i) => Ok(HelperUpdate::Download { url: release.assets[i].url.clone(), version: remote }),
        None => Err(HelperError::NoAsset),
    }
}

/// With no requests left in the quota, no release is fetched: the run goes
/// straight to launching the installed helper (waiting for it) or to the
/// rate-limit notice.
pub proof fn lemma_spent_quota_skips_updates(helper_installed: bool)
    ensures
        !checks_updates(0),
        helper_installed ==> launch_of(0, helper_installed) == LaunchAction::RunHelperAndWait,
        !helper_installed ==> launch_of(0, helper_installed) == LaunchAction::NotifyRateLimited,
{
}

} // verus!
