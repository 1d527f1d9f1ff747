use cbc::context::{basename, repo_from, resolve_instance};

#[test]
fn repo_from_uses_git_toplevel_basename_when_present() {
    let repo = repo_from(
        Some("/Users/me/code/mvp-engine".to_string()),
        "/tmp/elsewhere",
    );
    assert_eq!(repo, "mvp-engine");
}

#[test]
fn repo_from_falls_back_to_cwd_basename_outside_git() {
    let repo = repo_from(None, "/Users/me/work/api-server");
    assert_eq!(repo, "api-server");
}

#[test]
fn repo_from_falls_back_to_literal_repo_at_filesystem_root() {
    // Neither a git toplevel nor a cwd with a basename (root has none).
    let repo = repo_from(None, "/");
    assert_eq!(repo, "repo");
}

#[test]
fn basename_trims_trailing_slash_and_rejects_empty() {
    assert_eq!(basename("/a/b/c/"), Some("c".to_string()));
    assert_eq!(basename("/"), None);
    assert_eq!(basename(""), None);
}

#[test]
fn resolve_instance_prefers_explicit_label_over_everything() {
    let got = resolve_instance(
        Some("concierge"),
        Some("cbc-env"),
        Some("session-id"),
        "pid-1",
    );
    assert_eq!(got, "concierge");
}

#[test]
fn resolve_instance_precedence_falls_through_cbc_then_session_then_floor() {
    assert_eq!(
        resolve_instance(None, Some("cbc-env"), Some("session-id"), "pid-1"),
        "cbc-env"
    );
    assert_eq!(
        resolve_instance(None, None, Some("session-id"), "pid-1"),
        "session-id"
    );
    assert_eq!(resolve_instance(None, None, None, "pid-1"), "pid-1");
}

#[test]
fn resolve_instance_skips_blank_candidates_and_never_returns_empty() {
    // An explicit empty/whitespace label must not shadow the real sources,
    // and the floor guarantees a non-empty result.
    assert_eq!(
        resolve_instance(Some("   "), Some(""), Some("session-id"), "pid-9"),
        "session-id"
    );
    assert_eq!(
        resolve_instance(Some(""), Some(""), Some(""), "pid-9"),
        "pid-9"
    );
    assert!(!resolve_instance(None, None, None, "pid-9").is_empty());
}
