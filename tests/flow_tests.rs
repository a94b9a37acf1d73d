use penning_launcher::flow::{
    launch_action, plan_helper_update, plan_self_update, rate_limit_notice, should_check_updates, HelperError,
    HelperUpdate, LaunchAction, SelfUpdate,
};
use penning_launcher::platform::{
    archive_format, helper_asset_name, helper_exe_name, launcher_asset_name, launcher_exe_name, platform_from_os,
    ArchiveFormat, Platform,
};
use penning_launcher::release::{find_asset, text_eq, Asset, Release};
use penning_launcher::version::{local_version, marker_text, parse_version, TagError, Version};

fn asset(name: &str, url: &str) -> Asset {
    Asset { name: name.to_string(), url: url.to_string() }
}

fn release(tag: &str, assets: Vec<Asset>) -> Release {
    Release { tag: tag.to_string(), assets }
}

fn all_launcher_assets() -> Vec<Asset> {
    vec![
        asset("launcher-x86_64-pc-windows-msvc.zip", "https://example.org/win.zip"),
        asset("launcher-x86_64-unknown-linux-gnu.tar.gz", "https://example.org/linux.tar.gz"),
        asset("launcher-universal-apple-darwin.tar.gz", "https://example.org/mac.tar.gz"),
    ]
}

fn all_helper_assets() -> Vec<Asset> {
    vec![
        asset("penning-helper-x86_64-unknown-linux-gnu.tar.gz", "https://example.org/h-linux.tar.gz"),
        asset("penning-helper-universal-apple-darwin.tar.gz", "https://example.org/h-mac.tar.gz"),
        asset("penning-helper-x86_64-pc-windows-msvc.zip", "https://example.org/h-win.zip"),
    ]
}

#[test]
fn platforms_from_os_names() {
    assert_eq!(platform_from_os("linux"), Platform::Linux);
    assert_eq!(platform_from_os("macos"), Platform::MacOs);
    assert_eq!(platform_from_os("windows"), Platform::Windows);
    assert_eq!(platform_from_os("freebsd"), Platform::Other);
    assert_eq!(platform_from_os(""), Platform::Other);
}

#[test]
fn platform_names() {
    assert_eq!(launcher_asset_name(Platform::Linux), Some("launcher-x86_64-unknown-linux-gnu.tar.gz"));
    assert_eq!(launcher_asset_name(Platform::Other), None);
    assert_eq!(launcher_exe_name(Platform::Windows), Some("penning-launcher.exe"));
    assert_eq!(launcher_exe_name(Platform::MacOs), Some("penning-launcher"));
    assert_eq!(helper_asset_name(Platform::Other), "penning-helper-x86_64-pc-windows-msvc.zip");
    assert_eq!(helper_exe_name(Platform::Linux), "penning-helper-interface");
    assert_eq!(helper_exe_name(Platform::Other), "penning-helper-interface.exe");
    assert_eq!(archive_format(Platform::Windows), ArchiveFormat::Zip);
    assert_eq!(archive_format(Platform::Linux), ArchiveFormat::TarGz);
    assert_eq!(archive_format(Platform::MacOs), ArchiveFormat::TarGz);
}

#[test]
fn text_equality() {
    assert!(text_eq("abc", "abc"));
    assert!(!text_eq("abc", "abd"));
    assert!(!text_eq("abc", "ab"));
    assert!(text_eq("", ""));
}

#[test]
fn first_matching_asset_is_found() {
    let assets = vec![asset("a", "u1"), asset("b", "u2"), asset("b", "u3")];
    assert_eq!(find_asset(&assets, "b"), Some(1));
    assert_eq!(find_asset(&assets, "a"), Some(0));
    assert_eq!(find_asset(&assets, "c"), None);
    assert_eq!(find_asset(&Vec::new(), "a"), None);
}

#[test]
fn self_update_when_newer() {
    let rel = release("v1.2.0", all_launcher_assets());
    let plan = plan_self_update(&Version::new(1, 1, 9), &rel, Platform::Linux);
    assert_eq!(
        plan,
        Ok(SelfUpdate::Download {
            url: "https://example.org/linux.tar.gz".to_string(),
            exe_name: "penning-launcher".to_string(),
        })
    );
    let plan = plan_self_update(&Version::new(1, 1, 9), &rel, Platform::Windows);
    assert_eq!(
        plan,
        Ok(SelfUpdate::Download {
            url: "https://example.org/win.zip".to_string(),
            exe_name: "penning-launcher.exe".to_string(),
        })
    );
}

#[test]
fn self_update_not_needed() {
    let rel = release("v1.0.0", all_launcher_assets());
    assert_eq!(plan_self_update(&Version::new(1, 0, 0), &rel, Platform::Linux), Ok(SelfUpdate::UpToDate));
    assert_eq!(plan_self_update(&Version::new(2, 0, 0), &rel, Platform::Linux), Ok(SelfUpdate::UpToDate));
}

#[test]
fn self_update_without_platform_asset_is_no_update() {
    let rel = release("v9.0.0", vec![asset("launcher-x86_64-pc-windows-msvc.zip", "u")]);
    assert_eq!(plan_self_update(&Version::new(1, 0, 0), &rel, Platform::Linux), Ok(SelfUpdate::NoAsset));
    let rel = release("v9.0.0", all_launcher_assets());
    assert_eq!(plan_self_update(&Version::new(1, 0, 0), &rel, Platform::Other), Ok(SelfUpdate::NoAsset));
    let rel = release("v9.0.0", Vec::new());
    assert_eq!(plan_self_update(&Version::new(1, 0, 0), &rel, Platform::MacOs), Ok(SelfUpdate::NoAsset));
}

#[test]
fn self_update_malformed_tag_is_error() {
    let rel = release("v1.2", all_launcher_assets());
    assert_eq!(plan_self_update(&Version::new(1, 0, 0), &rel, Platform::Linux), Err(TagError::Malformed));
}

#[test]
fn spent_quota_skips_fetch() {
    assert!(!should_check_updates(0));
    assert!(should_check_updates(1));
    assert_eq!(launch_action(0, true), LaunchAction::RunHelperAndWait);
    assert_eq!(launch_action(0, false), LaunchAction::NotifyRateLimited);
}

#[test]
fn launch_after_update_check() {
    assert_eq!(launch_action(5, true), LaunchAction::SpawnHelper);
    assert_eq!(launch_action(5, false), LaunchAction::NotifyHelperMissing);
}

#[test]
fn rate_limit_notice_names_reset_time() {
    assert_eq!(
        rate_limit_notice("2024-01-01 12:00:00"),
        "You have exceeded the rate limit for GitHub API, please try again at 2024-01-01 12:00:00"
    );
}

#[test]
fn scenario_equal_versions_launch_helper() {
    let local = local_version(Some("\"1.0.0\""));
    let rel = release("v1.0.0", all_helper_assets());
    assert_eq!(plan_helper_update(&local, &rel, Platform::Linux), Ok(HelperUpdate::UpToDate));
    assert_eq!(launch_action(10, true), LaunchAction::SpawnHelper);
}

#[test]
fn scenario_fresh_install_downloads_helper() {
    let local = local_version(None);
    assert_eq!(local, Version::new(0, 0, 0));
    let rel = release("v2.3.1", all_helper_assets());
    let plan = plan_helper_update(&local, &rel, Platform::Linux).unwrap();
    match plan {
        HelperUpdate::Download { url, version } => {
            assert_eq!(url, "https://example.org/h-linux.tar.gz");
            assert_eq!(version, Version::new(2, 3, 1));
            let marker = marker_text(&version);
            assert_eq!(marker, "\"2.3.1\"");
            assert_eq!(local_version(Some(&marker)), Version::new(2, 3, 1));
        }
        other => panic!("expected a download, got {:?}", other),
    }
    assert_eq!(launch_action(10, true), LaunchAction::SpawnHelper);
}

#[test]
fn scenario_malformed_tag_aborts_check() {
    let rel = release("v1.2", all_launcher_assets());
    assert_eq!(plan_self_update(&Version::new(0, 1, 0), &rel, Platform::Linux), Err(TagError::Malformed));
    let rel = release("v1.2", all_helper_assets());
    assert_eq!(plan_helper_update(&Version::new(0, 1, 0), &rel, Platform::Linux), Err(HelperError::MalformedTag));
    assert_eq!(launch_action(10, true), LaunchAction::SpawnHelper);
}

#[test]
fn helper_update_without_asset_is_error() {
    let rel = release("v3.0.0", vec![asset("something-else.zip", "u")]);
    assert_eq!(plan_helper_update(&Version::new(1, 0, 0), &rel, Platform::Linux), Err(HelperError::NoAsset));
}

#[test]
fn helper_on_other_platform_uses_windows_asset() {
    let rel = release("v3.0.0", all_helper_assets());
    let plan = plan_helper_update(&parse_version("2.9.9").unwrap(), &rel, Platform::Other).unwrap();
    assert_eq!(
        plan,
        HelperUpdate::Download { url: "https://example.org/h-win.zip".to_string(), version: Version::new(3, 0, 0) }
    );
}

#[test]
fn helper_newer_than_release_is_up_to_date() {
    let rel = release("v1.0.0", all_helper_assets());
    assert_eq!(plan_helper_update(&Version::new(1, 0, 1), &rel, Platform::MacOs), Ok(HelperUpdate::UpToDate));
}
