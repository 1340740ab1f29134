use gid::audit::{Auditor, CommitInfo, IssueType};
use gid::config::Config;
use gid::identity::Identity;
use gid::rules::Rule;

fn commit(id: &str, name: &str, email: &str) -> CommitInfo {
    CommitInfo {
        id: id.to_string(),
        message: format!("message {id}"),
        author_name: name.to_string(),
        author_email: email.to_string(),
    }
}

fn store(ids: &[(&str, &str, &str)]) -> Config {
    let mut c = Config::new();
    for (id, name, email) in ids {
        c.add_identity(Identity::new(id.to_string(), name.to_string(), email.to_string()))
            .unwrap();
    }
    c
}

fn kinds(r: &gid::audit::AuditResult) -> Vec<(IssueType, String)> {
    r.issues.iter().map(|i| (i.issue_type, i.commit_id.clone())).collect()
}

#[test]
fn two_commits_without_configuration() {
    let auditor = Auditor::new(Config::new());
    let commits = vec![commit("bbbbbbb", "Dev", "dev@x.io"), commit("aaaaaaa", "Dev", "dev@x.io")];
    let r = auditor.audit_repo("/repo", commits, None, None, None);
    assert_eq!(r.total_commits, 2);
    assert_eq!(r.repo_path, "/repo");
    assert_eq!(r.identities_used.len(), 1);
    let u = &r.identities_used[0];
    assert_eq!((u.name.as_str(), u.email.as_str()), ("Dev", "dev@x.io"));
    assert_eq!(u.commit_count, 2);
    assert!(!u.is_known && u.identity_id.is_none());
    assert_eq!(
        kinds(&r),
        vec![
            (IssueType::UnknownIdentity, "bbbbbbb".to_string()),
            (IssueType::UnknownIdentity, "aaaaaaa".to_string()),
        ]
    );
    assert_eq!(r.issues[0].message, "message bbbbbbb");
    assert_eq!(r.issues[0].author_name, "Dev");
}

#[test]
fn least_used_known_identity_is_flagged() {
    let auditor = Auditor::new(store(&[("a", "Alice", "a@x.io"), ("b", "Bob", "b@x.io")]));
    let commits = vec![
        commit("c1", "Alice", "a@x.io"),
        commit("c2", "Bob", "b@x.io"),
        commit("c3", "Alice", "a@x.io"),
    ];
    let r = auditor.audit_repo("/repo", commits, None, None, None);
    assert_eq!(kinds(&r), vec![(IssueType::MixedIdentities, "c2".to_string())]);
    assert_eq!(r.identities_used.len(), 2);
    assert_eq!(r.identities_used[0].commit_count, 2);
    assert_eq!(r.identities_used[1].identity_id.as_deref(), Some("b"));
}

#[test]
fn mixed_identity_tie_goes_to_first_seen() {
    let auditor = Auditor::new(store(&[("a", "Alice", "a@x.io"), ("b", "Bob", "b@x.io")]));
    let commits = vec![commit("c1", "Bob", "b@x.io"), commit("c2", "Alice", "a@x.io")];
    let r = auditor.audit_repo("/repo", commits, None, None, None);
    assert_eq!(kinds(&r), vec![(IssueType::MixedIdentities, "c1".to_string())]);
}

#[test]
fn email_alone_classifies_and_case_variants_stay_apart() {
    let auditor = Auditor::new(store(&[("a", "Alice", "a@x.io")]));
    let commits = vec![
        commit("c1", "alice", "a@x.io"),
        commit("c2", "Alice", "a@x.io"),
        commit("c3", "Alice", "A@x.io"),
    ];
    let r = auditor.audit_repo("/repo", commits, None, None, None);
    assert_eq!(r.identities_used.len(), 3);
    assert_eq!(r.identities_used[0].identity_id.as_deref(), Some("a"));
    assert!(!r.identities_used[2].is_known);
    assert_eq!(
        kinds(&r),
        vec![
            (IssueType::UnknownIdentity, "c3".to_string()),
            (IssueType::MixedIdentities, "c1".to_string()),
        ]
    );
}

#[test]
fn mismatch_against_project_identity() {
    let mut config = store(&[("work", "W", "w@x.io"), ("home", "H", "h@x.io")]);
    config.add_rule(Rule::path("/repo/**".to_string(), "home".to_string()));
    let auditor = Auditor::new(config);
    let commits = vec![commit("c1", "H", "h@x.io"), commit("c2", "H", "h@x.io")];
    let r = auditor.audit_repo("/repo", commits, Some("work"), None, None);
    assert_eq!(
        kinds(&r),
        vec![
            (IssueType::IdentityMismatch, "c1".to_string()),
            (IssueType::IdentityMismatch, "c2".to_string()),
        ]
    );
    let commits = vec![commit("c1", "H", "h@x.io")];
    let r = auditor.audit_repo("/repo", commits, None, None, None);
    assert!(r.issues.is_empty());
}

#[test]
fn expected_identity_from_remote_rule() {
    let mut config = store(&[("work", "W", "w@x.io")]);
    config.add_rule(Rule::remote("github.com/co".to_string(), "work".to_string()));
    let auditor = Auditor::new(config);
    let e = auditor.expected_identity("/x", None, Some("https://github.com/co/r.git".to_string()), None);
    assert_eq!(e.as_deref(), Some("work"));
    assert!(auditor.expected_identity("/x", None, None, None).is_none());
    let e = auditor.expected_identity("/x", Some("p"), Some("https://github.com/co/r".to_string()), None);
    assert_eq!(e.as_deref(), Some("p"));
}

#[test]
fn history_is_capped() {
    let auditor = Auditor::new(Config::new());
    let commits: Vec<CommitInfo> = (0..1005).map(|i| commit(&format!("{i}"), "D", "d@x.io")).collect();
    let r = auditor.audit_repo("/repo", commits, None, None, None);
    assert_eq!(r.total_commits, 1000);
    assert_eq!(r.identities_used[0].commit_count, 1000);
    assert_eq!(r.issues.len(), 1000);
}

#[test]
fn find_matching_identity_prefers_full_match() {
    let auditor = Auditor::new(store(&[("first", "X", "s@x.io"), ("second", "Y", "s@x.io")]));
    assert_eq!(auditor.find_matching_identity("Y", "s@x.io"), (true, Some("second".to_string())));
    assert_eq!(auditor.find_matching_identity("Z", "s@x.io"), (true, Some("first".to_string())));
    assert_eq!(auditor.find_matching_identity("Y", "n@x.io"), (false, None));
}
