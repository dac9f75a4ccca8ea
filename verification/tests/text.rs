//! Branch listings, branch names, and editing by characters and words.

use gitbatch::tui::text::{
    filter_tracked_remotes, next_char_boundary, parse_branch_name, parse_branch_names,
    prev_char_boundary, remote_short_ref, upstream_of_local_line, validate_branch_name,
    word_back_start,
};

#[test]
fn filter_tracked_remotes_drops_only_tracked_remote_rows() {
    let sha = "a".repeat(40);
    let output = [
        // tracked, plain bracket
        format!("* main                {sha} [origin/main] tip"),
        // tracked with counts
        format!("  feature             {sha} [origin/feature: ahead 1, behind 2] wip"),
        // upstream gone — remote row doesn't exist anyway, must not panic
        format!("  stale               {sha} [origin/stale: gone] old"),
        // local without upstream
        format!("  local-only          {sha} no upstream here"),
        // symbolic ref line is kept
        "  remotes/origin/HEAD -> origin/main".to_string(),
        // tracked by the locals above → dropped
        format!("  remotes/origin/main {sha} tip"),
        format!("  remotes/origin/feature {sha} wip"),
        // remote-only branch → kept
        format!("  remotes/origin/other {sha} other work"),
    ]
    .join("\n");

    let filtered = filter_tracked_remotes(&output);
    assert!(filtered.contains("* main"));
    assert!(filtered.contains("  feature"));
    assert!(filtered.contains("  stale"));
    assert!(filtered.contains("local-only"));
    assert!(filtered.contains("remotes/origin/HEAD -> origin/main"));
    assert!(!filtered.contains("remotes/origin/main"));
    assert!(!filtered.contains("remotes/origin/feature"));
    assert!(filtered.contains("remotes/origin/other"));
}

#[test]
fn filter_keeps_the_order_of_lines() {
    let sha = "b".repeat(40);
    let output = format!(
        "* main {sha} [up/main] tip\n  remotes/up/main {sha} tip\n  remotes/up/x {sha} x\n"
    );
    assert_eq!(
        filter_tracked_remotes(&output),
        format!("* main {sha} [up/main] tip\n  remotes/up/x {sha} x")
    );
    assert_eq!(filter_tracked_remotes(""), "");
}

#[test]
fn upstream_is_read_from_the_brackets_after_the_object_name() {
    let sha = "0123456789abcdef0123456789abcdef01234567";
    let line = format!("* main {sha} [origin/main: behind 3] tip");
    assert_eq!(upstream_of_local_line(&line), Some("origin/main".to_string()));
    let none = format!("  local {sha} fix [not an upstream]");
    assert_eq!(upstream_of_local_line(&none), None);
    let remote = format!("  remotes/origin/main {sha} [origin/main] tip");
    assert_eq!(upstream_of_local_line(&remote), None);
}

#[test]
fn validate_branch_name_accepts_normal_names() {
    for name in ["main", "feature/foo", "release-1.2", "hotfix_x", "a/b/c"] {
        assert!(validate_branch_name(name).is_ok(), "{name}");
    }
}

#[test]
fn validate_branch_name_rejects_invalid_names() {
    for name in [
        "",
        "@",
        "-x",
        "a b",
        "a..b",
        "a.",
        "/a",
        "a/",
        "a//b",
        "a@{b",
        "a~b",
        "a^b",
        "a:b",
        "a?b",
        "a*b",
        "a[b",
        "a\\b",
        ".hidden",
        "a/.hidden",
        "a.lock",
        "a/b.lock",
        "a\tb",
    ] {
        assert!(validate_branch_name(name).is_err(), "{name}");
    }
}

#[test]
fn branch_name_faults_are_told_apart() {
    assert_eq!(validate_branch_name(""), Err("branch name is empty"));
    assert_eq!(validate_branch_name("@"), Err("'@' is not a valid branch name"));
    assert_eq!(validate_branch_name("-x"), Err("branch name must not start with '-'"));
    assert_eq!(validate_branch_name("a//b"), Err("invalid '/' placement in branch name"));
    assert_eq!(validate_branch_name("a..b"), Err("invalid '.' placement in branch name"));
    assert_eq!(validate_branch_name("a@{b"), Err("branch name must not contain '@{'"));
    assert_eq!(
        validate_branch_name("a/b.lock"),
        Err("segment must not start with '.' or end with '.lock'")
    );
    assert_eq!(validate_branch_name("a b"), Err("branch name contains invalid characters"));
    assert_eq!(
        validate_branch_name("a\u{2003}b"),
        Err("branch name contains invalid characters")
    );
}

#[test]
fn word_back_start_deletes_segment_wise() {
    let s = "feat/my-branch";
    // From the end: deletes "branch".
    assert_eq!(word_back_start(s, s.len()), "feat/my-".len());
    // From "feat/my-": skips the '-' separator and deletes "my".
    assert_eq!(word_back_start(s, "feat/my-".len()), "feat/".len());
    // From "feat/": deletes everything back to the start.
    assert_eq!(word_back_start(s, "feat/".len()), 0);
    assert_eq!(word_back_start("", 0), 0);
}

#[test]
fn remote_short_ref_strips_remotes_prefix() {
    assert_eq!(remote_short_ref("remotes/origin/main"), Some("origin/main"));
    assert_eq!(
        remote_short_ref("remotes/origin/feat/x"),
        Some("origin/feat/x")
    );
    assert_eq!(remote_short_ref("main"), None);
    assert_eq!(remote_short_ref("feature/remotes"), None);
}

#[test]
fn char_boundary_helpers_handle_multibyte() {
    let s = "aöb";
    assert_eq!(next_char_boundary(s, 0), 1);
    assert_eq!(next_char_boundary(s, 1), 3); // 'ö' is two bytes
    assert_eq!(next_char_boundary(s, s.len()), s.len());
    assert_eq!(prev_char_boundary(s, 3), 1);
    assert_eq!(prev_char_boundary(s, 1), 0);
    assert_eq!(prev_char_boundary(s, 0), 0);
}

#[test]
fn parse_branch_name_extracts_current_branch() {
    assert_eq!(
        parse_branch_name("* main  abc1234 commit msg"),
        Some("main")
    );
}

#[test]
fn parse_branch_name_extracts_regular_branch() {
    assert_eq!(
        parse_branch_name("  feature/foo  abc1234 commit msg"),
        Some("feature/foo")
    );
}

#[test]
fn parse_branch_name_extracts_remote_branch() {
    assert_eq!(
        parse_branch_name("  remotes/origin/main  abc1234 commit msg"),
        Some("remotes/origin/main")
    );
}

#[test]
fn parse_branch_name_skips_symbolic_ref() {
    assert_eq!(
        parse_branch_name("  remotes/origin/HEAD -> origin/main"),
        None
    );
}

#[test]
fn parse_branch_name_with_plus_marker() {
    // The `+` marker is used for worktree-checked-out branches.
    assert_eq!(parse_branch_name("+ develop  abc1234 msg"), Some("develop"));
}

#[test]
fn parse_branch_names_collects_set() {
    let output = "\
* main       abc1234 first commit
  feature/a  def5678 second commit
  feature/b  ghi9012 third commit
  remotes/origin/HEAD -> origin/main
  remotes/origin/main abc1234 first commit";
    let names = parse_branch_names(output);
    assert!(names.iter().any(|n| n == "main"));
    assert!(names.iter().any(|n| n == "feature/a"));
    assert!(names.iter().any(|n| n == "feature/b"));
    assert!(names.iter().any(|n| n == "remotes/origin/main"));
    // Symbolic refs should be excluded.
    assert!(!names.iter().any(|n| n.contains("HEAD")));
    assert_eq!(names.len(), 4);
}

#[test]
fn parse_branch_names_empty_input() {
    assert!(parse_branch_names("").is_empty());
}

#[test]
fn a_branch_named_twice_is_collected_once() {
    assert_eq!(parse_branch_names("* main a\n  main b"), vec!["main".to_string()]);
}

#[test]
fn joined_listings_hold_the_names_of_both() {
    let (one, other) = ("* main a\n  fix b", "  main c\n  new d");
    assert_eq!(
        parse_branch_names(&format!("{one}\n{other}")),
        vec!["main".to_string(), "fix".to_string(), "new".to_string()]
    );
}
