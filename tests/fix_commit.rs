use gid::config::Config;
use gid::identity::Identity;
use gid::rewrite::{head_update, plan_fix, range_outcome, rewrite_author, CommitRecord, FixError, FixPlan, HeadRef, RangeOutcome};

fn store() -> Config {
    let mut c = Config::new();
    c.add_identity(Identity::new("work".to_string(), "Correct User".to_string(), "correct@example.com".to_string()))
        .unwrap();
    c
}

#[test]
fn dirty_tree_refuses_first() {
    let c = store();
    let r = plan_fix(&c, true, Some("work"), None, "HEAD", None);
    assert_eq!(r.unwrap_err(), FixError::UncommittedChanges);
    let r = plan_fix(&c, true, Some("missing"), None, "HEAD~1", None);
    assert_eq!(r.unwrap_err(), FixError::UncommittedChanges);
}

#[test]
fn identity_choice_and_target_checks() {
    let c = store();
    assert_eq!(plan_fix(&c, false, Some("nope"), None, "HEAD", None).unwrap_err(), FixError::IdentityNotFound);
    assert_eq!(plan_fix(&c, false, None, None, "HEAD", None).unwrap_err(), FixError::CurrentEmailUnknown);
    assert_eq!(
        plan_fix(&c, false, None, Some("x@y.z"), "HEAD", None).unwrap_err(),
        FixError::CurrentIdentityNotConfigured
    );
    assert_eq!(plan_fix(&c, false, Some("work"), None, "HEAD~1", None).unwrap_err(), FixError::NotHead);
    match plan_fix(&c, false, None, Some("correct@example.com"), "HEAD", None).unwrap() {
        FixPlan::Head { identity } => assert_eq!(identity.id, "work"),
        other => panic!("unexpected plan {other:?}"),
    }
    match plan_fix(&c, false, Some("work"), None, "ignored", Some("HEAD~3..HEAD")).unwrap() {
        FixPlan::Range { identity, range } => {
            assert_eq!(identity.id, "work");
            assert_eq!(range, "HEAD~3..HEAD");
        }
        other => panic!("unexpected plan {other:?}"),
    }
}

#[test]
fn rewritten_commit_keeps_tree_parents_and_committer() {
    let original = CommitRecord {
        tree: "t1".to_string(),
        parents: vec!["p1".to_string(), "p2".to_string()],
        author_name: "Wrong".to_string(),
        author_email: "wrong@example.com".to_string(),
        committer_name: "Committer".to_string(),
        committer_email: "c@example.com".to_string(),
        message: "Wrong identity commit".to_string(),
    };
    let c = store();
    let new = rewrite_author(&original, &c.identities[0]);
    assert_eq!(new.author_name, "Correct User");
    assert_eq!(new.author_email, "correct@example.com");
    assert_eq!(new.tree, "t1");
    assert_eq!(new.parents, vec!["p1".to_string(), "p2".to_string()]);
    assert_eq!(new.committer_name, "Committer");
    assert_eq!(new.message, "Wrong identity commit");
}

#[test]
fn head_moves_its_branch_or_detaches() {
    match head_update(&HeadRef::Branch("refs/heads/main".to_string())) {
        HeadRef::Branch(b) => assert_eq!(b, "refs/heads/main"),
        HeadRef::Detached => panic!("branch lost"),
    }
    assert!(matches!(head_update(&HeadRef::Detached), HeadRef::Detached));
}

#[test]
fn ranges_are_reported_not_rewritten() {
    assert_eq!(range_outcome(true, 3), Err(FixError::NotARange));
    assert_eq!(range_outcome(false, 0), Ok(RangeOutcome::NoCommits));
    assert_eq!(range_outcome(false, 3), Ok(RangeOutcome::NotRewritten { count: 3 }));
}
