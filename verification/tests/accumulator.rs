use tagver::{accumulate_version, calculate_version, parse_version_tag, CommitId, Version};

fn id(n: u64) -> CommitId {
    CommitId { w0: n, w1: 0, w2: 0 }
}

fn tag(n: u64, name: &str) -> (CommitId, String) {
    (id(n), String::from(name))
}

#[test]
fn parse_full_triple() {
    assert_eq!(
        parse_version_tag("2.5.1"),
        Some(Version { major: 2, minor: 5, patch: 1 })
    );
}

#[test]
fn parse_major_only() {
    assert_eq!(
        parse_version_tag("7"),
        Some(Version { major: 7, minor: 0, patch: 0 })
    );
}

#[test]
fn parse_major_minor() {
    assert_eq!(
        parse_version_tag("1.2"),
        Some(Version { major: 1, minor: 2, patch: 0 })
    );
}

#[test]
fn parse_ignores_trailing_text() {
    assert_eq!(
        parse_version_tag("1.2.3-beta"),
        Some(Version { major: 1, minor: 2, patch: 3 })
    );
}

#[test]
fn parse_stops_at_broken_component() {
    assert_eq!(
        parse_version_tag("1..2"),
        Some(Version { major: 1, minor: 0, patch: 0 })
    );
}

#[test]
fn parse_rejects_non_digit_start() {
    assert_eq!(parse_version_tag("release-foo"), None);
    assert_eq!(parse_version_tag("v1.2"), None);
    assert_eq!(parse_version_tag(""), None);
}

#[test]
fn parse_component_bounds() {
    assert_eq!(
        parse_version_tag("2147483647"),
        Some(Version { major: 2147483647, minor: 0, patch: 0 })
    );
    assert_eq!(parse_version_tag("2147483648"), None);
    assert_eq!(
        parse_version_tag("1.2147483648"),
        Some(Version { major: 1, minor: 0, patch: 0 })
    );
}

#[test]
fn formatted_renders_base_ten() {
    let v = Version { major: 3, minor: 2, patch: 7 };
    assert_eq!(v.formatted(), "3.2.7");
    let zero = Version { major: 0, minor: 0, patch: 0 };
    assert_eq!(zero.formatted(), "0.0.0");
    let wide = Version { major: 2147483647, minor: 10, patch: 100 };
    assert_eq!(wide.formatted(), "2147483647.10.100");
}

#[test]
fn empty_history_is_zero() {
    let tags: Vec<(CommitId, String)> = Vec::new();
    let commits: Vec<CommitId> = Vec::new();
    assert_eq!(calculate_version(&tags, &commits), "0.0.0");
}

#[test]
fn untagged_chain_counts_commits() {
    let tags: Vec<(CommitId, String)> = Vec::new();
    let commits: Vec<CommitId> = (0..5).map(id).collect();
    assert_eq!(calculate_version(&tags, &commits), "0.0.5");
}

#[test]
fn tag_resets_then_patch_counts() {
    // Commit 2 carries "2.5.1"; three untagged commits follow.
    let tags = vec![tag(2, "2.5.1")];
    let commits: Vec<CommitId> = (0..6).map(id).collect();
    assert_eq!(calculate_version(&tags, &commits), "2.5.4");
}

#[test]
fn later_tag_replaces_earlier() {
    // "1.0.0" on an earlier commit, "2.0.0" on the newest: a reset, not a merge.
    let tags = vec![tag(1, "1.0.0"), tag(3, "2.0.0")];
    let commits: Vec<CommitId> = (0..4).map(id).collect();
    assert_eq!(calculate_version(&tags, &commits), "2.0.0");
}

#[test]
fn non_version_tag_acts_as_untagged() {
    let plain_tags = vec![tag(1, "release-foo")];
    let commits: Vec<CommitId> = (0..3).map(id).collect();
    let no_tags: Vec<(CommitId, String)> = Vec::new();
    assert_eq!(calculate_version(&plain_tags, &commits), "0.0.3");
    assert_eq!(
        calculate_version(&plain_tags, &commits),
        calculate_version(&no_tags, &commits)
    );
}

#[test]
fn repeated_runs_agree() {
    let tags = vec![tag(0, "1.2.3"), tag(4, "nightly")];
    let commits: Vec<CommitId> = (0..7).map(id).collect();
    let first = calculate_version(&tags, &commits);
    let second = calculate_version(&tags, &commits);
    assert_eq!(first, second);
}

#[test]
fn full_tag_round_trips() {
    let tags = vec![tag(2, "3.4.5")];
    let commits: Vec<CommitId> = (0..3).map(id).collect();
    assert_eq!(calculate_version(&tags, &commits), "3.4.5");
}

#[test]
fn last_entry_for_a_commit_wins() {
    // Two tag names resolved to the same commit: the later entry shadows.
    let tags = vec![tag(1, "1.0.0"), tag(1, "4.4.4")];
    let commits: Vec<CommitId> = (0..2).map(id).collect();
    assert_eq!(calculate_version(&tags, &commits), "4.4.4");
}

#[test]
fn accumulate_returns_the_triple() {
    let tags = vec![tag(0, "2.0.9")];
    let commits: Vec<CommitId> = (0..3).map(id).collect();
    assert_eq!(
        accumulate_version(&tags, &commits),
        Version { major: 2, minor: 0, patch: 11 }
    );
}

#[test]
fn distinct_ids_do_not_collide() {
    // The tag sits on a commit outside the walked history.
    let tags = vec![tag(9, "5.0.0")];
    let commits: Vec<CommitId> = (0..2).map(id).collect();
    assert_eq!(calculate_version(&tags, &commits), "0.0.2");
}
