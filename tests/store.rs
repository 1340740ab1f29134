use gid::config::{Config, ConfigError};
use gid::identity::{Identity, IdentityError};
use gid::rules::Rule;

fn ident(id: &str, name: &str, email: &str) -> Identity {
    Identity::new(id.to_string(), name.to_string(), email.to_string())
}

fn prio(rules: &[Rule]) -> Vec<(u32, String)> {
    rules.iter().map(|r| (r.priority, r.identity.clone())).collect()
}

#[test]
fn validation_reports_each_error() {
    assert_eq!(ident("work", "W", "w@x.io").validate(), Ok(()));
    assert_eq!(ident("", "W", "w@x.io").validate(), Err(IdentityError::EmptyId));
    assert_eq!(ident("a b", "W", "w@x.io").validate(), Err(IdentityError::InvalidId));
    assert_eq!(ident("a_b-1", "", "w@x.io").validate(), Err(IdentityError::EmptyName));
    assert_eq!(ident("a", "W", "").validate(), Err(IdentityError::EmptyEmail));
    assert_eq!(ident("a", "W", "w@xio").validate(), Err(IdentityError::InvalidEmail));
    assert_eq!(ident("a", "W", "w.x.io").validate(), Err(IdentityError::InvalidEmail));
}

#[test]
fn builders_set_fields() {
    let i = ident("a", "A", "a@b.c")
        .with_description(Some("d".to_string()))
        .with_ssh_key(Some("~/.ssh/id".to_string()))
        .with_gpg_key(Some("KEY".to_string()));
    assert_eq!(i.description.as_deref(), Some("d"));
    assert_eq!(i.ssh_key.as_deref(), Some("~/.ssh/id"));
    assert_eq!(i.gpg_key.as_deref(), Some("KEY"));
    assert!(i.gpg_sign);
    let j = ident("a", "A", "a@b.c").with_gpg_key(None);
    assert!(!j.gpg_sign);
}

#[test]
fn identities_are_unique_by_id() {
    let mut c = Config::new();
    assert_eq!(c.add_identity(ident("work", "W", "w@x.io")), Ok(()));
    assert_eq!(c.add_identity(ident("home", "H", "h@x.io")), Ok(()));
    assert_eq!(
        c.add_identity(ident("work", "Other", "o@x.io")),
        Err(ConfigError::DuplicateIdentity)
    );
    assert_eq!(c.identities.len(), 2);
    assert_eq!(c.find_identity("home").unwrap().name, "H");
    assert!(c.find_identity("none").is_none());
    assert_eq!(c.find_identity_mut("home"), Some(1));
    let removed = c.remove_identity("work").unwrap();
    assert_eq!(removed.email, "w@x.io");
    assert_eq!(c.remove_identity("work").unwrap_err(), ConfigError::IdentityNotFound);
    assert_eq!(c.identities.len(), 1);
}

#[test]
fn rules_stay_stably_sorted_by_priority() {
    let mut c = Config::new();
    c.add_rule(Rule::path("a".to_string(), "p100a".to_string()));
    c.add_rule(Rule::path("b".to_string(), "p5".to_string()).with_priority(5));
    c.add_rule(Rule::path("c".to_string(), "p100b".to_string()));
    c.add_rule(Rule::path("d".to_string(), "p0".to_string()).with_priority(0));
    c.add_rule(Rule::path("e".to_string(), "p5b".to_string()).with_priority(5));
    assert_eq!(
        prio(&c.rules),
        vec![
            (0, "p0".to_string()),
            (5, "p5".to_string()),
            (5, "p5b".to_string()),
            (100, "p100a".to_string()),
            (100, "p100b".to_string()),
        ]
    );
}

#[test]
fn adding_a_rule_sorts_an_unsorted_list() {
    let mut c = Config::new();
    c.rules.push(Rule::path("x".to_string(), "late".to_string()).with_priority(9));
    c.rules.push(Rule::path("y".to_string(), "early".to_string()).with_priority(1));
    c.add_rule(Rule::path("z".to_string(), "mid".to_string()).with_priority(5));
    assert_eq!(
        prio(&c.rules),
        vec![(1, "early".to_string()), (5, "mid".to_string()), (9, "late".to_string())]
    );
}

#[test]
fn adding_a_new_identity_succeeds() {
    let mut c = Config::new();
    assert!(c.add_identity(ident("a", "A", "a@x.io")).is_ok());
    assert_eq!(c.identities.len(), 1);
    assert_eq!(c.identities[0].id, "a");
}

#[test]
fn rule_for_a_stored_identity_only() {
    let mut c = Config::new();
    c.add_identity(ident("work", "W", "w@x.io")).unwrap();
    assert_eq!(
        c.add_checked_rule(Rule::path("a".to_string(), "nobody".to_string())),
        Err(ConfigError::IdentityNotFound)
    );
    assert!(c.rules.is_empty());
    assert_eq!(c.add_checked_rule(Rule::path("a".to_string(), "work".to_string()).with_priority(3)), Ok(()));
    assert_eq!(prio(&c.rules), vec![(3, "work".to_string())]);
}

#[test]
fn remove_rule_by_index() {
    let mut c = Config::new();
    c.add_rule(Rule::path("a".to_string(), "one".to_string()).with_priority(1));
    c.add_rule(Rule::path("b".to_string(), "two".to_string()).with_priority(2));
    assert_eq!(c.remove_rule(2).unwrap_err(), ConfigError::RuleIndexOutOfRange);
    assert_eq!(c.remove_rule(0).unwrap().identity, "one");
    assert_eq!(prio(&c.rules), vec![(2, "two".to_string())]);
}

#[test]
fn merge_adds_new_identities_and_all_rules() {
    let mut c = Config::new();
    c.add_identity(ident("work", "W", "w@x.io")).unwrap();
    c.add_rule(Rule::path("a".to_string(), "work".to_string()).with_priority(50));
    let mut other = Config::new();
    other.add_identity(ident("work", "Other", "o@x.io")).unwrap();
    other.add_identity(ident("home", "H", "h@x.io")).unwrap();
    other.add_rule(Rule::path("b".to_string(), "home".to_string()).with_priority(10));
    let (added, skipped) = c.merge(other);
    assert_eq!((added, skipped), (1, 1));
    assert_eq!(c.identities.len(), 2);
    assert_eq!(c.find_identity("work").unwrap().name, "W");
    assert_eq!(
        prio(&c.rules),
        vec![(10, "home".to_string()), (50, "work".to_string())]
    );
}

#[test]
fn default_settings() {
    let c = Config::new();
    assert!(c.settings.verbose && c.settings.color && c.settings.pre_commit_check);
    assert!(!c.settings.auto_switch && !c.settings.strict_mode);
    assert!(c.settings.editor.is_none() && c.settings.hooks_path.is_none());
}
