use gid::audit::IssueType;
use gid::config::Config;
use gid::doctor::{diagnose, DoctorIssue};
use gid::gpg::GpgKey;
use gid::identity::Identity;
use gid::rules::Rule;

fn store() -> Config {
    let mut c = Config::new();
    c.add_identity(Identity::new("work".to_string(), "W".to_string(), "w@x.io".to_string())).unwrap();
    c.add_identity(Identity::new("home".to_string(), "H".to_string(), "h@x.io".to_string())).unwrap();
    c
}

#[test]
fn diagnosis_of_the_identity_in_effect() {
    let c = store();
    assert_eq!(diagnose(&c, Some("W"), Some("w@x.io"), Some("work"), Some("work")), (vec![], None));
    assert_eq!(
        diagnose(&c, Some("W"), Some("w@x.io"), Some("home"), None),
        (vec![DoctorIssue::ProjectMismatch], Some("home".to_string()))
    );
    assert_eq!(
        diagnose(&c, None, Some("w@x.io"), Some("gone"), None),
        (vec![DoctorIssue::UserNotConfigured, DoctorIssue::ProjectIdentityMissing], None)
    );
    assert_eq!(
        diagnose(&c, Some("X"), Some("w@x.io"), None, None),
        (vec![DoctorIssue::CurrentNotConfigured], None)
    );
}

#[test]
fn project_and_rule_are_checked_apart() {
    let c = store();
    assert_eq!(
        diagnose(&c, Some("W"), Some("w@x.io"), Some("work"), Some("home")),
        (vec![DoctorIssue::RuleMismatch], Some("home".to_string()))
    );
    assert_eq!(
        diagnose(&c, Some("W"), Some("w@x.io"), Some("home"), Some("home")),
        (vec![DoctorIssue::ProjectMismatch, DoctorIssue::RuleMismatch], Some("home".to_string()))
    );
    assert_eq!(
        diagnose(&c, Some("H"), Some("h@x.io"), Some("work"), Some("gone")),
        (vec![DoctorIssue::ProjectMismatch], Some("work".to_string()))
    );
}

#[test]
fn text_renderings() {
    let i = Identity::new("work".to_string(), "W".to_string(), "w@x.io".to_string());
    assert_eq!(i.display_text(), "[work] W <w@x.io>");
    let r = Rule::remote("github.com/co".to_string(), "work".to_string());
    assert_eq!(r.display_text(), "[remote] github.com/co -> work");
    assert_eq!(IssueType::MixedIdentities.label(), "Mixed Identities");
    assert_eq!(IssueType::UnknownIdentity.label(), "Unknown Identity");
    let k = GpgKey { key_id: "AB".to_string(), uid: "<a@b.c>".to_string(), email: None };
    assert_eq!(k.display_text(), "AB - <a@b.c>");
}
