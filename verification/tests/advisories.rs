use version_checker::advisory::{
    count_advisories, count_applicable, count_unmet, decide_threshold, patched_later, weigh,
    Advisory, PatchInfo, SecurityDatabase,
};
use version_checker::parse::ParseFailure;
use version_checker::version::{SemVer, Version};

fn unpatched(package: &str) -> Advisory {
    Advisory { package: package.to_string(), versions: None }
}

fn without_list(package: &str) -> Advisory {
    Advisory { package: package.to_string(), versions: Some(PatchInfo { patched: None }) }
}

fn patched(package: &str, versions: &[&str]) -> Advisory {
    Advisory {
        package: package.to_string(),
        versions: Some(PatchInfo {
            patched: Some(versions.iter().map(|v| v.to_string()).collect()),
        }),
    }
}

fn semantic(major: u64, minor: u64, patch: u64) -> Version {
    Version::Semantic(SemVer::new(major, minor, patch))
}

#[test]
fn advisory_without_patch_data_counts_whatever_the_version() {
    let advisories = vec![unpatched("a")];
    assert_eq!(count_applicable(&advisories, &semantic(1, 0, 0)), 1);
    assert_eq!(count_applicable(&advisories, &semantic(999, 0, 0)), 1);
    assert_eq!(count_applicable(&advisories, &Version::Opaque("x".to_string())), 1);
    assert_eq!(count_applicable(&advisories, &Version::Unspecified), 1);
}

#[test]
fn patch_data_without_list_counts() {
    assert_eq!(count_applicable(&vec![without_list("a")], &semantic(1, 0, 0)), 1);
}

#[test]
fn single_threshold_counts_below_it() {
    let advisories = vec![patched("a", &["2.0.0"])];
    assert_eq!(count_applicable(&advisories, &semantic(1, 0, 0)), 1);
    assert_eq!(count_applicable(&advisories, &semantic(1, 99, 99)), 1);
}

#[test]
fn single_threshold_does_not_count_once_reached() {
    let advisories = vec![patched("a", &["2.0.0"])];
    assert_eq!(count_applicable(&advisories, &semantic(2, 0, 0)), 0);
    assert_eq!(count_applicable(&advisories, &semantic(2, 0, 1)), 0);
    assert_eq!(count_applicable(&advisories, &semantic(3, 1, 4)), 0);
}

#[test]
fn threshold_counts_against_what_is_no_semantic_version() {
    let advisories = vec![patched("a", &["2.0.0"])];
    assert_eq!(count_applicable(&advisories, &Version::Opaque("3.0".to_string())), 1);
    assert_eq!(count_applicable(&advisories, &Version::Unspecified), 1);
}

#[test]
fn unreadable_threshold_counts() {
    let advisories = vec![patched("a", &["soon"])];
    assert_eq!(count_applicable(&advisories, &semantic(9, 0, 0)), 1);
}

#[test]
fn threshold_is_not_padded() {
    let advisories = vec![patched("a", &["1.0"])];
    assert_eq!(count_applicable(&advisories, &semantic(9, 0, 0)), 1);
}

#[test]
fn threshold_operators_are_ignored() {
    let advisories = vec![patched("a", &[">= 1.2.3", "^0.9.0", "< 5.0.0"])];
    assert_eq!(count_applicable(&advisories, &semantic(1, 2, 3)), 1);
    assert_eq!(count_applicable(&advisories, &semantic(1, 2, 2)), 2);
    assert_eq!(count_applicable(&advisories, &semantic(0, 1, 0)), 3);
    assert_eq!(count_applicable(&advisories, &semantic(5, 0, 0)), 0);
}

#[test]
fn count_goes_by_listed_version() {
    let advisories = vec![
        patched("a", &["2.0.0", "1.5.0", "1.0.1"]),
        unpatched("a"),
        patched("a", &[]),
        without_list("a"),
    ];
    assert_eq!(count_applicable(&advisories, &semantic(1, 0, 0)), 5);
    assert_eq!(count_applicable(&advisories, &semantic(1, 5, 0)), 3);
    assert_eq!(count_applicable(&advisories, &semantic(2, 0, 0)), 2);
}

#[test]
fn no_advisories_count_nothing() {
    assert_eq!(count_applicable(&Vec::new(), &semantic(1, 0, 0)), 0);
    assert_eq!(count_applicable(&vec![patched("a", &[])], &Version::Unspecified), 0);
}

#[test]
fn pre_release_local_is_below_its_release() {
    let local = Version::Semantic(SemVer::parse("2.0.0-rc.1").unwrap());
    assert_eq!(count_applicable(&vec![patched("a", &["2.0.0"])], &local), 1);
}

#[test]
fn threshold_decision_on_each_outcome() {
    let local = semantic(1, 0, 0);
    assert!(decide_threshold(&Ok(SemVer::new(1, 0, 1)), &local));
    assert!(!decide_threshold(&Ok(SemVer::new(1, 0, 0)), &local));
    assert!(!decide_threshold(&Ok(SemVer::new(0, 9, 0)), &local));
    assert!(decide_threshold(&Err(ParseFailure::Malformed), &local));
    assert!(decide_threshold(&Err(ParseFailure::NeedsMoreInput), &local));
    assert!(decide_threshold(&Ok(SemVer::new(0, 0, 1)), &Version::Unspecified));
    assert!(decide_threshold(&Ok(SemVer::new(0, 0, 1)), &Version::Opaque("9".to_string())));
}

#[test]
fn single_entries_are_decided() {
    assert!(patched_later(">=2.0.0", &semantic(1, 0, 0)));
    assert!(!patched_later(">=2.0.0", &semantic(2, 0, 0)));
    assert!(patched_later("", &semantic(2, 0, 0)));
    let list = vec!["1.0.0".to_string(), "3.0.0".to_string(), "x".to_string()];
    assert_eq!(count_unmet(&list, &semantic(2, 0, 0)), 2);
    assert_eq!(weigh(&patched("a", &["1.0.0", "3.0.0"]), &semantic(2, 0, 0)), 1);
    assert_eq!(weigh(&unpatched("a"), &semantic(2, 0, 0)), 1);
}

#[test]
fn database_is_looked_up_by_name() {
    let mut db = SecurityDatabase::new();
    assert!(db.get("a").is_none());
    db.insert("a".to_string(), vec![patched("a", &["2.0.0"])]);
    db.insert("b".to_string(), vec![unpatched("b"), unpatched("b")]);
    assert_eq!(db.get("a").unwrap().len(), 1);
    assert_eq!(db.get("b").unwrap().len(), 2);
    assert!(db.get("c").is_none());
    assert_eq!(count_advisories(&db, "a", &semantic(1, 0, 0)), 1);
    assert_eq!(count_advisories(&db, "a", &semantic(2, 0, 0)), 0);
    assert_eq!(count_advisories(&db, "b", &semantic(2, 0, 0)), 2);
    assert_eq!(count_advisories(&db, "c", &semantic(2, 0, 0)), 0);
}

#[test]
fn inserting_again_replaces() {
    let mut db = SecurityDatabase::new();
    db.insert("a".to_string(), vec![unpatched("a")]);
    db.insert("a".to_string(), vec![unpatched("a"), unpatched("a"), unpatched("a")]);
    assert_eq!(db.get("a").unwrap().len(), 3);
    assert_eq!(count_advisories(&db, "a", &Version::Unspecified), 3);
}

#[test]
fn long_patched_version_is_a_threshold_like_any_other() {
    let threshold = format!("1.0.0-{}", vec!["a-a"; 255].join("."));
    let advisories = vec![patched("a", &[threshold.as_str()])];
    assert_eq!(count_applicable(&advisories, &semantic(1, 0, 0)), 0);
    assert_eq!(count_applicable(&advisories, &semantic(0, 9, 0)), 1);
    let hyphens = format!("1.0.0{}", "-a".repeat(256));
    let advisories = vec![patched("a", &[hyphens.as_str()])];
    assert_eq!(count_applicable(&advisories, &semantic(1, 0, 0)), 0);
    assert_eq!(count_applicable(&advisories, &semantic(0, 9, 0)), 1);
}

#[test]
fn count_falls_as_the_version_rises() {
    let advisories = vec![
        patched("a", &["1.0.0-rc.1", "1.0.0", "1.2.0", "oops"]),
        unpatched("a"),
    ];
    let mut last = u128::MAX;
    for local in ["0.9.0", "1.0.0-alpha", "1.0.0-rc.1", "1.0.0", "1.1.0", "1.2.0", "2.0.0"] {
        let count = count_applicable(&advisories, &Version::Semantic(SemVer::parse(local).unwrap()));
        assert!(count <= last, "{}", local);
        last = count;
    }
    assert_eq!(last, 2);
    let first = count_applicable(&advisories, &Version::Semantic(SemVer::parse("0.9.0").unwrap()));
    assert_eq!(first, 5);
}
