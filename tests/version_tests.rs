use std::cmp::Ordering;

use penning_launcher::version::{
    compare, local_version, marker_text, parse_tag, parse_version, strip_tag_marker, version_text, TagError,
    Version,
};

fn v(text: &str) -> Version {
    parse_version(text).expect("valid version")
}

#[test]
fn parse_plain_version() {
    let x = v("1.2.3");
    assert_eq!((x.major, x.minor, x.patch), (1, 2, 3));
    assert_eq!(x.pre, "");
    assert_eq!(x.build, "");
}

#[test]
fn parse_pre_release_and_build() {
    let x = v("1.0.0-alpha.1+build.5");
    assert_eq!((x.major, x.minor, x.patch), (1, 0, 0));
    assert_eq!(x.pre, "alpha.1");
    assert_eq!(x.build, "build.5");
}

#[test]
fn parse_tag_strips_marker() {
    assert_eq!(parse_tag("v2.3.1").unwrap(), Version::new(2, 3, 1));
    assert_eq!(parse_tag("2.3.1").unwrap(), Version::new(2, 3, 1));
    assert_eq!(strip_tag_marker("v1.0.0"), "1.0.0");
    assert_eq!(strip_tag_marker("1.0.0"), "1.0.0");
}

#[test]
fn parse_tag_rejects_malformed() {
    assert_eq!(parse_tag("v1.2"), Err(TagError::Malformed));
    assert_eq!(parse_tag("vv1.2.3"), Err(TagError::Malformed));
    assert_eq!(parse_tag(""), Err(TagError::Malformed));
    assert_eq!(parse_tag("v01.2.3"), Err(TagError::Malformed));
    assert!(parse_version("v1.2.3").is_none());
}

#[test]
fn precedence_examples() {
    assert_eq!(compare(&v("1.2.0"), &v("1.1.9")), Ordering::Greater);
    assert_eq!(compare(&v("2.0.0"), &v("1.9.9")), Ordering::Greater);
    assert_eq!(compare(&v("1.0.0"), &v("1.0.0")), Ordering::Equal);
    assert_eq!(compare(&v("1.1.9"), &v("1.2.0")), Ordering::Less);
    assert_eq!(compare(&v("0.0.0"), &v("0.0.1")), Ordering::Less);
}

#[test]
fn precedence_of_pre_releases() {
    let chain = [
        "1.0.0-alpha",
        "1.0.0-alpha.1",
        "1.0.0-alpha.beta",
        "1.0.0-beta",
        "1.0.0-beta.2",
        "1.0.0-beta.11",
        "1.0.0-rc.1",
        "1.0.0",
    ];
    for i in 0..chain.len() {
        for j in 0..chain.len() {
            let expected = i.cmp(&j);
            assert_eq!(compare(&v(chain[i]), &v(chain[j])), expected, "{} vs {}", chain[i], chain[j]);
        }
    }
}

#[test]
fn build_metadata_takes_no_part() {
    assert_eq!(compare(&v("1.0.0+a"), &v("1.0.0+b")), Ordering::Equal);
}

#[test]
fn missing_marker_is_zero() {
    assert_eq!(local_version(None), Version::new(0, 0, 0));
}

#[test]
fn invalid_marker_is_zero() {
    assert_eq!(local_version(Some("not json")), Version::new(0, 0, 0));
    assert_eq!(local_version(Some("2.3.1")), Version::new(0, 0, 0));
    assert_eq!(local_version(Some("\"1.2\"")), Version::new(0, 0, 0));
    assert_eq!(local_version(Some("")), Version::new(0, 0, 0));
}

#[test]
fn valid_marker_is_read() {
    assert_eq!(local_version(Some("\"2.3.1\"")), Version::new(2, 3, 1));
    assert_eq!(local_version(Some("\"1.0.0-rc.1\"")), v("1.0.0-rc.1"));
}

#[test]
fn text_of_versions() {
    assert_eq!(version_text(&Version::new(2, 3, 1)), "2.3.1");
    assert_eq!(version_text(&Version::new(10, 0, 250)), "10.0.250");
    assert_eq!(version_text(&v("1.0.0-alpha.1+build.5")), "1.0.0-alpha.1+build.5");
    assert_eq!(version_text(&Version::new(u64::MAX, 0, 0)), "18446744073709551615.0.0");
}

#[test]
fn marker_round_trip() {
    let text = marker_text(&Version::new(2, 3, 1));
    assert_eq!(text, "\"2.3.1\"");
    assert_eq!(local_version(Some(&text)), Version::new(2, 3, 1));
}
