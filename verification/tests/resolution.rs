use version_checker::dependency::{
    process_dependency, remote_of, resolve_latest, DeclaredDependency, Dependency,
};
use version_checker::numeral::decimal_text;
use version_checker::parse::ParseFailure;
use version_checker::report::{check_diff, check_self_update};
use version_checker::version::{same_identifiers, Identifier, SemVer, Version};

fn listing(items: &[&str]) -> Vec<String> {
    items.iter().map(|s| s.to_string()).collect()
}

fn numbers(version: &Version) -> Option<(u64, u64, u64)> {
    match version {
        Version::Semantic(v) => Some((v.major, v.minor, v.patch)),
        _ => None,
    }
}

fn semver(text: &str) -> SemVer {
    SemVer::parse(text).unwrap()
}

#[test]
fn empty_listing_resolves_to_unspecified() {
    assert!(matches!(resolve_latest(&Vec::new()), Ok(Version::Unspecified)));
}

#[test]
fn latest_is_found_in_an_unordered_listing() {
    let latest = resolve_latest(&listing(&["1.0.0", "1.2.0", "1.1.0"])).unwrap();
    assert_eq!(numbers(&latest), Some((1, 2, 0)));
    assert_eq!(latest.to_text(), "1.2.0");
}

#[test]
fn latest_does_not_depend_on_the_order() {
    for order in [
        ["0.9.9", "2.0.1", "2.0.0"],
        ["2.0.1", "0.9.9", "2.0.0"],
        ["2.0.0", "2.0.1", "0.9.9"],
        ["2.0.1", "2.0.0", "0.9.9"],
    ] {
        let latest = resolve_latest(&listing(&order)).unwrap();
        assert_eq!(numbers(&latest), Some((2, 0, 1)));
    }
}

#[test]
fn short_entries_are_padded() {
    let latest = resolve_latest(&listing(&["1", "1.3"])).unwrap();
    assert_eq!(numbers(&latest), Some((1, 3, 0)));
}

#[test]
fn listing_of_zero_resolves_to_zero() {
    let latest = resolve_latest(&listing(&["0.0.0"])).unwrap();
    assert_eq!(numbers(&latest), Some((0, 0, 0)));
    assert_eq!(latest.to_text(), "0.0.0");
}

#[test]
fn pre_release_ranks_below_its_release() {
    let latest = resolve_latest(&listing(&["1.0.0-beta.2", "1.0.0", "1.0.0-rc.1"])).unwrap();
    assert_eq!(latest.to_text(), "1.0.0");
    let latest = resolve_latest(&listing(&["1.0.0-alpha", "1.0.0-beta", "0.9.0"])).unwrap();
    assert_eq!(latest.to_text(), "1.0.0-beta");
}

#[test]
fn first_of_two_equal_entries_stays() {
    let latest = resolve_latest(&listing(&["1.0.0+first", "1.0.0+second"])).unwrap();
    assert_eq!(latest.to_text(), "1.0.0+first");
}

#[test]
fn unreadable_entry_is_reported() {
    let failure = resolve_latest(&listing(&["1.0.0", "banana", "2.0.0", "x"])).unwrap_err();
    assert_eq!(failure.index, 1);
    assert_eq!(failure.failure, ParseFailure::Malformed);
    let failure = resolve_latest(&listing(&["1.0.0", "1."])).unwrap_err();
    assert_eq!(failure.index, 1);
}

#[test]
fn failed_lookup_gives_unspecified_remote() {
    assert!(matches!(remote_of(&None), Version::Unspecified));
}

#[test]
fn unreadable_listing_gives_unspecified_remote() {
    assert!(matches!(remote_of(&Some(listing(&["1.0.0", "oops"]))), Version::Unspecified));
}

#[test]
fn readable_listing_gives_semantic_remote() {
    assert_eq!(numbers(&remote_of(&Some(listing(&["0.3.1", "0.4.0"])))), Some((0, 4, 0)));
}

#[test]
fn simple_declaration_is_processed() {
    let dep = process_dependency(
        "regex".to_string(),
        DeclaredDependency::Simple("~1.4".to_string()),
        Some(listing(&["1.4.0", "1.5.0"])),
    );
    assert_eq!(dep.name, "regex");
    assert_eq!(dep.wildcards, vec!['~']);
    assert_eq!(numbers(&dep.version), Some((1, 4, 0)));
    assert_eq!(numbers(&dep.remote), Some((1, 5, 0)));
}

#[test]
fn detailed_declaration_is_processed() {
    let dep = process_dependency(
        "serde".to_string(),
        DeclaredDependency::Detailed(Some("1.0.100".to_string())),
        None,
    );
    assert_eq!(numbers(&dep.version), Some((1, 0, 100)));
    assert!(dep.wildcards.is_empty());
    assert!(matches!(dep.remote, Version::Unspecified));
}

#[test]
fn declaration_without_version_is_unspecified() {
    let declaration = DeclaredDependency::Detailed(None);
    assert_eq!(declaration.specifier(), "");
    let dep = process_dependency("local".to_string(), declaration, Some(listing(&["1.0.0"])));
    assert!(matches!(dep.version, Version::Unspecified));
    assert!(!dep.version.is_provided());
    assert_eq!(numbers(&dep.remote), Some((1, 0, 0)));
}

#[test]
fn resolve_takes_references() {
    let dep = Dependency::resolve(
        "a",
        &DeclaredDependency::Simple("git-rev".to_string()),
        &Some(Vec::new()),
    );
    assert!(matches!(&dep.version, Version::Opaque(text) if text == "git-rev"));
    assert!(matches!(dep.remote, Version::Unspecified));
}

#[test]
fn same_semantic_versions_are_current() {
    let local = Version::Semantic(SemVer::new(1, 2, 0));
    let remote = Version::Semantic(SemVer::new(1, 2, 0));
    assert!(check_diff(&local, &remote));
}

#[test]
fn different_semantic_versions_are_not_current() {
    let local = Version::Semantic(SemVer::new(1, 2, 0));
    let remote = Version::Semantic(SemVer::new(1, 2, 1));
    assert!(!check_diff(&local, &remote));
}

#[test]
fn same_opaque_text_is_not_current() {
    let local = Version::Opaque("x".to_string());
    let remote = Version::Opaque("x".to_string());
    assert!(!check_diff(&local, &remote));
}

#[test]
fn unspecified_is_never_current() {
    assert!(!check_diff(&Version::Unspecified, &Version::Unspecified));
    assert!(!check_diff(&Version::Semantic(SemVer::new(1, 0, 0)), &Version::Unspecified));
    assert!(!check_diff(&Version::Opaque("1".to_string()), &Version::Semantic(SemVer::new(1, 0, 0))));
}

#[test]
fn build_metadata_plays_no_part_in_currency() {
    let local = Version::Semantic(semver("1.2.3+linux"));
    let remote = Version::Semantic(semver("1.2.3+windows"));
    assert!(check_diff(&local, &remote));
}

#[test]
fn pre_release_differs_from_release() {
    let local = Version::Semantic(semver("1.2.3-rc.1"));
    let remote = Version::Semantic(semver("1.2.3"));
    assert!(!check_diff(&local, &remote));
    assert!(check_diff(&local, &Version::Semantic(semver("1.2.3-rc.1"))));
    assert!(!check_diff(&local, &Version::Semantic(semver("1.2.3-rc.2"))));
}

#[test]
fn precedence_goes_by_numbers_then_pre_release() {
    assert!(semver("2.0.0").exceeds(&semver("1.9.9")));
    assert!(semver("1.10.0").exceeds(&semver("1.9.0")));
    assert!(semver("1.0.1").exceeds(&semver("1.0.0")));
    assert!(!semver("1.0.0").exceeds(&semver("1.0.0")));
    assert!(!semver("1.0.0").exceeds(&semver("1.0.1")));
    assert!(semver("1.0.0").exceeds(&semver("1.0.0-rc.1")));
    assert!(!semver("1.0.0-rc.1").exceeds(&semver("1.0.0")));
    assert!(semver("1.0.0-rc.2").exceeds(&semver("1.0.0-rc.1")));
    assert!(semver("1.0.0-beta").exceeds(&semver("1.0.0-alpha")));
    assert!(semver("1.0.0-alpha").exceeds(&semver("1.0.0-1")));
    assert!(!semver("1.0.0+b").exceeds(&semver("1.0.0+a")));
}

#[test]
fn identifiers_compare_part_by_part() {
    let a = vec![Identifier::AlphaNumeric("rc".to_string()), Identifier::Numeric(1)];
    let b = vec![Identifier::AlphaNumeric("rc".to_string()), Identifier::Numeric(1)];
    let c = vec![Identifier::AlphaNumeric("rc".to_string()), Identifier::Numeric(2)];
    let d = vec![Identifier::AlphaNumeric("rc".to_string())];
    let e = vec![Identifier::AlphaNumeric("rc".to_string()), Identifier::AlphaNumeric("1".to_string())];
    assert!(same_identifiers(&a, &b));
    assert!(!same_identifiers(&a, &c));
    assert!(!same_identifiers(&a, &d));
    assert!(!same_identifiers(&a, &e));
    assert!(a[0].same(&b[0]));
    assert!(!a[1].same(&c[1]));
}

#[test]
fn versions_are_written_as_text() {
    assert_eq!(SemVer::new(1, 2, 3).to_text(), "1.2.3");
    assert_eq!(SemVer::new(0, 0, 0).to_text(), "0.0.0");
    assert_eq!(SemVer::new(18446744073709551615, 10, 0).to_text(), "18446744073709551615.10.0");
    assert_eq!(semver("1.2.3-alpha.1+build.5").to_text(), "1.2.3-alpha.1+build.5");
    assert_eq!(Version::Semantic(SemVer::new(4, 5, 6)).to_text(), "4.5.6");
    assert_eq!(Version::Opaque("nightly".to_string()).to_text(), "nightly");
    assert_eq!(Version::Unspecified.to_text(), "N/A");
}

#[test]
fn classification_flags() {
    assert!(Version::Semantic(SemVer::new(1, 0, 0)).is_semver());
    assert!(Version::Semantic(SemVer::new(1, 0, 0)).is_provided());
    assert!(!Version::Opaque("x".to_string()).is_semver());
    assert!(Version::Opaque("x".to_string()).is_provided());
    assert!(!Version::Unspecified.is_semver());
    assert!(!Version::Unspecified.is_provided());
}

#[test]
fn numbers_are_written_in_decimal() {
    assert_eq!(decimal_text(0), "0");
    assert_eq!(decimal_text(7), "7");
    assert_eq!(decimal_text(10), "10");
    assert_eq!(decimal_text(65535), "65535");
    assert_eq!(decimal_text(1234567890), "1234567890");
    assert_eq!(decimal_text(u128::MAX), "340282366920938463463374607431768211455");
}

#[test]
fn newer_release_is_noticed() {
    let notice = check_self_update("0.1.2", Some(listing(&["0.1.0", "0.2.0", "0.1.2"])));
    let (current, latest) = notice.unwrap();
    assert_eq!(current.to_text(), "0.1.2");
    assert_eq!(latest.to_text(), "0.2.0");
}

#[test]
fn no_notice_when_up_to_date_or_unknown() {
    assert!(check_self_update("0.1.2", Some(listing(&["0.1.0", "0.1.2"]))).is_none());
    assert!(check_self_update("0.3.0", Some(listing(&["0.1.0", "0.1.2"]))).is_none());
    assert!(check_self_update("0.1.2", None).is_none());
    assert!(check_self_update("0.1.2", Some(Vec::new())).is_none());
    assert!(check_self_update("dev", Some(listing(&["9.9.9"]))).is_none());
}

#[test]
fn dependency_in_words() {
    let dep = Dependency::new("serde", "^1.0", Version::Unspecified);
    assert_eq!(dep.to_text(), "serde - 1.0.0");
    let none = Dependency::new("local", "", Version::Unspecified);
    assert_eq!(none.to_text(), "local - N/A");
}

#[test]
fn agrees_with_the_semver_crate() {
    let samples = [
        "0.0.0",
        "1.0.0",
        "1.0.0+build",
        "1.0.0-alpha",
        "1.0.0-alpha.1",
        "1.0.0-alpha.beta",
        "1.0.0-beta.2",
        "1.0.0-beta.11",
        "1.0.0-rc.1+x",
        "1.0.1",
        "1.1.0",
        "2.0.0-0",
        "2.0.0",
    ];
    for a in samples {
        let ours_a = semver(a);
        let theirs_a = semver::Version::parse(a).unwrap();
        assert_eq!(ours_a.to_text(), theirs_a.to_string());
        for b in samples {
            let ours_b = semver(b);
            let theirs_b = semver::Version::parse(b).unwrap();
            assert_eq!(ours_a.exceeds(&ours_b), theirs_a > theirs_b, "{} > {}", a, b);
            assert_eq!(ours_a.same_precedence(&ours_b), theirs_a == theirs_b, "{} == {}", a, b);
        }
    }
}

#[test]
fn long_published_version_is_readable() {
    let long = format!("1.0.0{}", "-a".repeat(256));
    let latest = resolve_latest(&vec!["0.9.0".to_string(), long.clone()]).unwrap();
    assert_eq!(latest.to_text(), long);
}

fn version(pre: Vec<Identifier>, build: Vec<Identifier>) -> SemVer {
    SemVer { major: 1, minor: 2, patch: 3, pre, build }
}

fn word(text: &str) -> Identifier {
    Identifier::AlphaNumeric(text.to_string())
}

#[test]
fn suffixes_are_written_after_their_marks() {
    assert_eq!(version(vec![], vec![]).to_text(), "1.2.3");
    assert_eq!(version(vec![word("rc"), Identifier::Numeric(1)], vec![]).to_text(), "1.2.3-rc.1");
    assert_eq!(version(vec![], vec![Identifier::Numeric(5)]).to_text(), "1.2.3+5");
    assert_eq!(
        version(
            vec![word("alpha-1"), Identifier::Numeric(0), word("x")],
            vec![word("build"), Identifier::Numeric(18446744073709551615)]
        )
        .to_text(),
        "1.2.3-alpha-1.0.x+build.18446744073709551615"
    );
    assert_eq!(version(vec![word("")], vec![word(""), word("")]).to_text(), "1.2.3-+.");
}

#[test]
fn identifiers_rank_numbers_below_texts() {
    let number = version(vec![Identifier::Numeric(999)], vec![]);
    let text = version(vec![word("0")], vec![]);
    assert!(text.exceeds(&number));
    assert!(!number.exceeds(&text));
    let small = version(vec![Identifier::Numeric(9)], vec![]);
    let large = version(vec![Identifier::Numeric(10)], vec![]);
    assert!(large.exceeds(&small));
    assert!(!small.exceeds(&large));
    assert!(!small.exceeds(&small));
}

#[test]
fn texts_rank_in_the_order_of_strings() {
    let rank = |a: &str, b: &str| version(vec![word(a)], vec![]).exceeds(&version(vec![word(b)], vec![]));
    assert!(rank("b", "a"));
    assert!(!rank("a", "b"));
    assert!(rank("ab", "a"));
    assert!(!rank("a", "ab"));
    assert!(rank("a", ""));
    assert!(!rank("", ""));
    assert!(rank("b", "ab"));
    assert!(rank("a", "B"));
    assert!(rank("10", "1"));
    assert!(rank("9", "10"));
    assert!(rank("\u{e9}", "z"));
    assert!(rank("\u{10000}", "\u{ffff}"));
    assert!(rank("\u{800}", "\u{7ff}"));
    assert!(!rank("z", "\u{e9}"));
}

#[test]
fn identifier_lists_rank_by_the_first_difference() {
    let rank = |a: Vec<Identifier>, b: Vec<Identifier>| {
        version(a, vec![]).exceeds(&version(b, vec![]))
    };
    assert!(rank(vec![word("a"), Identifier::Numeric(2)], vec![word("a"), Identifier::Numeric(1)]));
    assert!(rank(vec![word("a"), Identifier::Numeric(1)], vec![word("a")]));
    assert!(!rank(vec![word("a")], vec![word("a"), Identifier::Numeric(1)]));
    assert!(rank(vec![word("b")], vec![word("a"), word("z")]));
    assert!(!rank(vec![word("a"), word("z")], vec![word("b")]));
    assert!(rank(vec![], vec![word("zzz")]));
    assert!(!rank(vec![word("zzz")], vec![]));
    assert!(!rank(vec![], vec![]));
}

#[test]
fn latest_among_pre_releases_does_not_depend_on_the_order() {
    for order in [
        ["1.0.0-rc.1", "1.0.0-beta.11", "1.0.0-beta.2", "1.0.0-alpha"],
        ["1.0.0-alpha", "1.0.0-beta.2", "1.0.0-beta.11", "1.0.0-rc.1"],
        ["1.0.0-beta.11", "1.0.0-rc.1", "1.0.0-alpha", "1.0.0-beta.2"],
    ] {
        let latest = resolve_latest(&listing(&order)).unwrap();
        assert_eq!(latest.to_text(), "1.0.0-rc.1");
    }
}
