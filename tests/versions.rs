use pyappify::sync::{initial_checkout_tag, tag_ref_name, tag_refspec};
use pyappify::version::{
    checkout_version_tag, get_tags_and_current_version, parse_tag, sort_version_tags, SyncError,
    TagRef,
};

fn tag(name: &str, commit: &str) -> TagRef {
    TagRef { name: name.to_string(), commit: Some(commit.to_string()) }
}

fn names(v: &[TagRef]) -> Vec<String> {
    v.iter().map(|t| t.name.clone()).collect()
}

#[test]
fn parse_tag_reads_major_minor_patch_and_suffix() {
    let k = parse_tag("v1.2.3-rc1").unwrap();
    assert_eq!((k.major, k.minor, k.patch), (1, 2, 3));
    assert_eq!(k.suffix, "-rc1");
    let k = parse_tag("2.0").unwrap();
    assert_eq!((k.major, k.minor, k.patch), (2, 0, 0));
    assert_eq!(k.suffix, "");
    let k = parse_tag("1.2.x").unwrap();
    assert_eq!((k.major, k.minor, k.patch), (1, 2, 0));
    assert_eq!(k.suffix, ".x");
}

#[test]
fn parse_tag_rejects_non_version_tags() {
    assert!(parse_tag("lts").is_none());
    assert!(parse_tag("1").is_none());
    assert!(parse_tag("v.1.2").is_none());
    assert!(parse_tag("1.2+build").is_none());
    assert!(parse_tag("release-1.0").is_none());
}

#[test]
fn parse_tag_number_too_large_reads_as_zero() {
    let k = parse_tag("99999999999.1").unwrap();
    assert_eq!(k.major, 0);
    assert_eq!(k.minor, 1);
}

#[test]
fn ordering_places_release_before_prerelease() {
    let refs = vec![tag("1.9.9-rc1", "a"), tag("2.0", "b"), tag("1.9.9", "c")];
    let sorted = sort_version_tags(&refs);
    assert_eq!(names(&sorted), vec!["2.0", "1.9.9", "1.9.9-rc1"]);
}

#[test]
fn ordering_is_idempotent() {
    let refs = vec![
        tag("0.9", "a"),
        tag("1.10.0", "b"),
        tag("1.2.0", "c"),
        tag("notes", "d"),
        tag("1.2.0-beta", "e"),
        tag("1.2.0-alpha", "f"),
    ];
    let once = sort_version_tags(&refs);
    assert_eq!(names(&once), vec!["1.10.0", "1.2.0", "1.2.0-beta", "1.2.0-alpha", "0.9"]);
    let twice = sort_version_tags(&once);
    assert_eq!(names(&twice), names(&once));
}

#[test]
fn equal_rank_keeps_listing_order() {
    let refs = vec![tag("v1.0", "a"), tag("1.0.0", "b"), tag("1.0", "c")];
    let sorted = sort_version_tags(&refs);
    assert_eq!(names(&sorted), vec!["v1.0", "1.0.0", "1.0"]);
}

#[test]
fn lts_scenario_clips_after_lts_entry() {
    // The lts tag points at 1.1.0, which sits at position 1 of the ordered
    // list 2.0.0-beta, 1.1.0, 1.0.0: the list is clipped right after it.
    let refs = vec![
        tag("1.0.0", "c1"),
        tag("1.1.0", "c2"),
        tag("2.0.0-beta", "c3"),
        tag("lts", "c2"),
    ];
    let (available, current) = get_tags_and_current_version(&refs, "c1");
    assert_eq!(available, vec!["2.0.0-beta", "1.1.0"]);
    assert_eq!(available.len(), 1 + 1);
    assert_eq!(current, "1.0.0");
}

#[test]
fn lts_at_first_position_leaves_one_entry() {
    let refs = vec![tag("1.0.0", "c1"), tag("2.0.0", "c2"), tag("lts", "c2")];
    let (available, _) = get_tags_and_current_version(&refs, "c2");
    assert_eq!(available, vec!["2.0.0"]);
}

#[test]
fn lts_without_matching_version_keeps_all() {
    let refs = vec![tag("1.0.0", "c1"), tag("2.0.0", "c2"), tag("lts", "c9")];
    let (available, _) = get_tags_and_current_version(&refs, "c2");
    assert_eq!(available, vec!["2.0.0", "1.0.0"]);
}

#[test]
fn current_version_falls_back_to_commit_id() {
    let refs = vec![tag("1.0.0", "c1"), tag("2.0.0", "c2")];
    let (_, current) = get_tags_and_current_version(&refs, "deadbeef");
    assert_eq!(current, "deadbeef");
}

#[test]
fn current_version_is_first_ordered_tag_at_head() {
    let refs = vec![tag("1.0.0", "c1"), tag("v1.0.1", "c1")];
    let (_, current) = get_tags_and_current_version(&refs, "c1");
    assert_eq!(current, "v1.0.1");
}

#[test]
fn checkout_then_fetch_reports_checked_out_tag() {
    let refs = vec![tag("1.0.0", "c1"), tag("1.1.0", "c2"), tag("2.0.0", "c3")];
    let head = checkout_version_tag(&refs, "1.1.0").ok().unwrap();
    assert_eq!(head, "c2");
    let (_, current) = get_tags_and_current_version(&refs, &head);
    assert_eq!(current, "1.1.0");
}

#[test]
fn checkout_of_missing_tag_fails() {
    let refs = vec![tag("1.0.0", "c1"), TagRef { name: "2.0.0".to_string(), commit: None }];
    assert!(matches!(checkout_version_tag(&refs, "3.0.0"), Err(SyncError::TagNotFound)));
    assert!(matches!(checkout_version_tag(&refs, "2.0.0"), Err(SyncError::TagNotFound)));
}

#[test]
fn fresh_clone_checks_out_newest_tag() {
    let refs = vec![tag("1.0.0", "c1"), tag("1.1.0", "c2"), tag("lts", "c1")];
    assert_eq!(initial_checkout_tag(&refs), Some("1.1.0".to_string()));
    assert_eq!(initial_checkout_tag(&vec![tag("lts", "c1")]), None);
    let unresolved_newest = vec![
        tag("1.0.0", "c1"),
        TagRef { name: "2.0.0".to_string(), commit: None },
    ];
    assert_eq!(initial_checkout_tag(&unresolved_newest), Some("1.0.0".to_string()));
    assert_eq!(
        initial_checkout_tag(&vec![TagRef { name: "2.0.0".to_string(), commit: None }]),
        None
    );
}

#[test]
fn refspec_and_ref_name() {
    assert_eq!(tag_refspec("v1.0"), "+refs/tags/v1.0:refs/tags/v1.0");
    assert_eq!(tag_ref_name("v1.0"), "refs/tags/v1.0");
}
