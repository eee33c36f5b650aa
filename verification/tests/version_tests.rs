use fluttertools::properties::{apply_gradle_wrapper_properties, read_properties, set_property};
use fluttertools::resolve::{resolve_cmd, resolve_run_command, ResolveError};
use fluttertools::tag::{ensure_current_version_tag, EnsureTagOutcome, TagPrefix};
use fluttertools::version::{
    build_number, bump_pubspec_content, bump_version, format_version, read_pubspec_version,
    tag_base, BumpOutcome, Version, VersionPart,
};

fn version(major: u64, minor: u64, patch: u64, pre: &str, build: &str) -> Version {
    Version {
        major,
        minor,
        patch,
        pre: pre.to_string(),
        build: build.to_string(),
    }
}

#[test]
fn parsing_happens_through_the_version_grammar() {
    // A build bump re-renders the parsed parts, so a wrapper that did not
    // really parse would not produce this exact rewrite.
    match bump_pubspec_content("version: 1.2.3-beta.1+42\n", VersionPart::Build) {
        BumpOutcome::Bumped { new_version, .. } => assert_eq!(new_version, "1.2.3-beta.1+43"),
        _ => panic!("expected a bump"),
    }
}

#[test]
fn rejects_a_non_version() {
    assert!(matches!(
        bump_pubspec_content("version: not-a-version\n", VersionPart::Patch),
        BumpOutcome::InvalidVersion { .. }
    ));
    assert!(matches!(
        bump_pubspec_content("version: 1.2\n", VersionPart::Patch),
        BumpOutcome::InvalidVersion { .. }
    ));
}

#[test]
fn formats_canonically() {
    let v = Version {
        major: 1,
        minor: 2,
        patch: 3,
        pre: String::new(),
        build: "4".to_string(),
    };
    assert_eq!(format_version(&v), "1.2.3+4");
    let w = Version {
        major: 10,
        minor: 0,
        patch: 7,
        pre: "beta".to_string(),
        build: String::new(),
    };
    assert_eq!(format_version(&w), "10.0.7-beta");
}

#[test]
fn tag_base_drops_build_metadata_but_keeps_prerelease() {
    assert_eq!(tag_base(&version(0, 4, 0, "", "12")), "0.4.0");
    assert_eq!(tag_base(&version(1, 0, 0, "rc.1", "5")), "1.0.0-rc.1");
}

#[test]
fn reads_version_through_the_manifest_grammar() {
    // The grammar strips the quoting; a bare line scan would keep it.
    let content = "name: app\nversion: \"2.0.0\"\ndescription: d\n";
    assert_eq!(read_pubspec_version(content).as_deref(), Some("2.0.0"));
}

#[test]
fn falls_back_to_the_version_line_on_broken_manifests() {
    let content = "version: 1.0.0+9\nbad: [unclosed\n";
    assert_eq!(read_pubspec_version(content).as_deref(), Some("1.0.0+9"));
}

#[test]
fn no_version_reads_as_none() {
    assert_eq!(read_pubspec_version("name: app\n"), None);
    assert_eq!(read_pubspec_version("version:\n"), None);
    assert_eq!(read_pubspec_version("version:    \n"), None);
    assert_eq!(read_pubspec_version(""), None);
}

#[test]
fn build_numbers_parse_leniently() {
    assert_eq!(build_number("4"), 4);
    assert_eq!(build_number("+7"), 7);
    assert_eq!(build_number(""), 0);
    assert_eq!(build_number("x1"), 0);
    assert_eq!(build_number("007"), 7);
    assert_eq!(build_number("18446744073709551615"), u64::MAX);
    assert_eq!(build_number("18446744073709551616"), 0);
}

#[test]
fn bumps_reset_the_smaller_parts() {
    let v = version(1, 2, 3, "beta", "5");
    assert_eq!(format_version(&bump_version(&v, VersionPart::Major).unwrap()), "2.0.0+1");
    assert_eq!(format_version(&bump_version(&v, VersionPart::Minor).unwrap()), "1.3.0+1");
    assert_eq!(format_version(&bump_version(&v, VersionPart::Patch).unwrap()), "1.2.4+1");
    assert_eq!(format_version(&bump_version(&v, VersionPart::Build).unwrap()), "1.2.3-beta+6");
}

#[test]
fn build_bump_starts_from_zero_without_metadata() {
    let v = version(1, 2, 3, "", "");
    assert_eq!(format_version(&bump_version(&v, VersionPart::Build).unwrap()), "1.2.3+1");
}

#[test]
fn exhausted_counter_refuses_to_bump() {
    let v = Version {
        major: u64::MAX,
        minor: 0,
        patch: 0,
        pre: String::new(),
        build: String::new(),
    };
    assert!(bump_version(&v, VersionPart::Major).is_none());
    assert!(bump_version(&v, VersionPart::Minor).is_some());
}

#[test]
fn bumping_rewrites_only_the_version_line() {
    let content = "name: app\nversion: 1.2.3+4\ndescription: keep me\n";
    match bump_pubspec_content(content, VersionPart::Patch) {
        BumpOutcome::Bumped { new_content, new_version } => {
            assert_eq!(new_version, "1.2.4+1");
            assert_eq!(new_content, "name: app\nversion: 1.2.4+1\ndescription: keep me\n");
        }
        _ => panic!("expected a bump"),
    }
}

#[test]
fn bumping_without_a_version_line_changes_nothing() {
    match bump_pubspec_content("name: app\n", VersionPart::Patch) {
        BumpOutcome::NoVersionLine => {}
        _ => panic!("expected no version line"),
    }
}

#[test]
fn bumping_an_invalid_version_reports_it() {
    match bump_pubspec_content("version: abc\n", VersionPart::Patch) {
        BumpOutcome::InvalidVersion { found, message } => {
            assert_eq!(found, "abc");
            assert!(!message.is_empty());
        }
        _ => panic!("expected the invalid-version outcome"),
    }
}

#[test]
fn bumping_an_exhausted_counter_reports_it() {
    let content = "version: 18446744073709551615.0.0\n";
    match bump_pubspec_content(content, VersionPart::Major) {
        BumpOutcome::VersionTooLarge { found } => {
            assert_eq!(found, "18446744073709551615.0.0");
        }
        _ => panic!("expected the too-large outcome"),
    }
}

#[test]
fn wrapper_properties_round_trip_through_the_file_format() {
    let url = "https://services.gradle.org/distributions/gradle-8.7-all.zip";
    let text = apply_gradle_wrapper_properties(&None, url).unwrap();
    let pairs = read_properties(&Some(text)).unwrap();
    assert_eq!(pairs.len(), 1);
    assert_eq!(pairs[0].0, "distributionUrl");
    assert_eq!(pairs[0].1, url);
}

#[test]
fn wrapper_properties_replace_an_existing_binding() {
    let existing = "distributionUrl=old\nnetworkTimeout=10000\n".to_string();
    let text = apply_gradle_wrapper_properties(&Some(existing), "new-url").unwrap();
    let mut pairs = read_properties(&Some(text)).unwrap();
    pairs.sort();
    assert_eq!(
        pairs,
        vec![
            ("distributionUrl".to_string(), "new-url".to_string()),
            ("networkTimeout".to_string(), "10000".to_string()),
        ]
    );
}

#[test]
fn properties_with_escapes_read_back_decoded() {
    let pairs = read_properties(&Some("a\\:b=c d\n".to_string())).unwrap();
    assert_eq!(pairs, vec![("a:b".to_string(), "c d".to_string())]);
}

#[test]
fn malformed_properties_are_an_error() {
    assert!(read_properties(&Some("a=\\u12zz\n".to_string())).is_err());
}

#[test]
fn set_property_replaces_in_place_or_appends() {
    let mut pairs = vec![("a".to_string(), "1".to_string()), ("b".to_string(), "2".to_string())];
    set_property(&mut pairs, "a", "9");
    assert_eq!(
        pairs,
        vec![("a".to_string(), "9".to_string()), ("b".to_string(), "2".to_string())]
    );
    set_property(&mut pairs, "c", "3");
    assert_eq!(pairs.len(), 3);
    assert_eq!(pairs[2], ("c".to_string(), "3".to_string()));
}

#[test]
fn path_like_tokens_resolve_verbatim_for_the_supervisor() {
    assert_eq!(
        resolve_run_command("./some/relative/binary").as_deref(),
        Some("./some/relative/binary")
    );
    assert!(resolve_run_command("surely-not-a-command-zzz").is_none());
}

#[test]
fn generator_resolution_checks_existence_and_search_path() {
    match resolve_cmd("/definitely/not/present/binary-zzz") {
        Err(ResolveError::NotFoundAt(c)) => assert_eq!(c, "/definitely/not/present/binary-zzz"),
        _ => panic!("expected the not-found-at error"),
    }
    match resolve_cmd("surely-not-a-command-zzz") {
        Err(ResolveError::NotFoundInPath(c)) => assert_eq!(c, "surely-not-a-command-zzz"),
        _ => panic!("expected the not-found-in-path error"),
    }
}

#[test]
fn tagging_outside_a_repository_is_skipped() {
    let outcome = ensure_current_version_tag(
        "/definitely/not/present/repo-zzz",
        "version: 1.0.0\n",
        TagPrefix::V,
    );
    assert!(matches!(outcome, Ok(EnsureTagOutcome::NotARepository)));
}
