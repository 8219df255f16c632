use nix_plugin::pages::{decimal_text, page_url, TagPager};
use nix_plugin::versions::{insert_sorted, load_versions, release_text};

fn names(list: &[&str]) -> Vec<String> {
    list.iter().map(|s| s.to_string()).collect()
}

#[test]
fn loads_sorted_versions_with_latest_alias() {
    let tags = names(&["2.3.16", "v2.24.8", "2.18.1", "1.11.16", "2.24.10", "2.4"]);
    let output = load_versions(&tags);

    assert!(!output.versions.is_empty());
    assert_eq!(
        output.versions,
        names(&["1.11.16", "2.3.16", "2.18.1", "2.24.8", "2.24.10"])
    );
    assert_eq!(output.latest.as_deref(), Some("2.24.10"));
    assert_eq!(output.latest.as_ref(), output.versions.last());
}

#[test]
fn filters_non_semver_tags() {
    let tags = names(&[
        "latest",
        "canary",
        "nix-2.24.8",
        "2.24.8",
        "release-candidate",
        "",
        "v",
    ]);
    let output = load_versions(&tags);
    assert_eq!(output.versions, names(&["2.24.8"]));
    assert_eq!(output.latest.as_deref(), Some("2.24.8"));
}

#[test]
fn no_tags_give_no_latest() {
    let output = load_versions(&Vec::new());
    assert!(output.versions.is_empty());
    assert_eq!(output.latest, None);

    let output = load_versions(&names(&["foo", "bar"]));
    assert!(output.versions.is_empty());
    assert_eq!(output.latest, None);
}

#[test]
fn duplicate_tags_stay_adjacent() {
    let tags = names(&["v1.2.3", "2.0.0", "1.2.3", " 1.0.0 "]);
    let output = load_versions(&tags);
    assert_eq!(output.versions, names(&["1.0.0", "1.2.3", "1.2.3", "2.0.0"]));
    assert_eq!(output.latest.as_deref(), Some("2.0.0"));
}

#[test]
fn prereleases_come_before_their_release() {
    let tags = names(&["2.0.0", "2.0.0-rc.1", "1.9.9"]);
    let output = load_versions(&tags);
    assert_eq!(output.versions, names(&["1.9.9", "2.0.0-rc.1", "2.0.0"]));
}

#[test]
fn release_text_trims_and_strips_one_v() {
    assert_eq!(release_text("  v2.24.8\n").as_deref(), Some("2.24.8"));
    assert_eq!(release_text("2.24.8").as_deref(), Some("2.24.8"));
    assert_eq!(release_text("vv2.24.8"), None);
    assert_eq!(release_text("nix-2.24.8"), None);
    assert_eq!(release_text("latest"), None);
    assert_eq!(release_text(""), None);
}

#[test]
fn insert_sorted_places_by_version() {
    let mut list = names(&["1.0.0", "1.10.0"]);
    insert_sorted(&mut list, "1.9.0".to_string());
    assert_eq!(list, names(&["1.0.0", "1.9.0", "1.10.0"]));
    insert_sorted(&mut list, "0.1.0".to_string());
    insert_sorted(&mut list, "3.0.0".to_string());
    assert_eq!(list, names(&["0.1.0", "1.0.0", "1.9.0", "1.10.0", "3.0.0"]));
}

#[test]
fn sorted_output_is_ordered_pairwise() {
    let tags = names(&["3.1.0", "0.9.0", "v2.2.2", "2.10.0", "2.2.10", "10.0.0"]);
    let output = load_versions(&tags);
    assert_eq!(
        output.versions,
        names(&["0.9.0", "2.2.2", "2.2.10", "2.10.0", "3.1.0", "10.0.0"])
    );
}

#[test]
fn decimal_text_writes_digits() {
    assert_eq!(decimal_text(0), "0");
    assert_eq!(decimal_text(7), "7");
    assert_eq!(decimal_text(100), "100");
    assert_eq!(decimal_text(1234567), "1234567");
    assert_eq!(decimal_text(usize::MAX), usize::MAX.to_string());
}

#[test]
fn page_urls_count_from_one() {
    assert_eq!(
        page_url(1),
        "https://api.github.com/repos/NixOS/nix/tags?per_page=100&page=1"
    );
    let pager = TagPager::new();
    assert_eq!(pager.page, 1);
    assert_eq!(pager.next_url(), page_url(1));
}

#[test]
fn pager_stops_at_the_first_empty_page() {
    let mut pager = TagPager::new();
    assert!(pager.accept(names(&["2.24.8", "2.24.7"])));
    assert_eq!(pager.page, 2);
    assert_eq!(
        pager.next_url(),
        "https://api.github.com/repos/NixOS/nix/tags?per_page=100&page=2"
    );
    assert!(pager.accept(names(&["2.0.0"])));
    assert!(!pager.accept(Vec::new()));
    assert_eq!(pager.page, 3);
    assert_eq!(pager.names, names(&["2.24.8", "2.24.7", "2.0.0"]));
}
