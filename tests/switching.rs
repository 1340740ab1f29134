use gid::gitconfig::{effective_value, switch_writes, ConfigWrite, GitIdentityConfig, ScopeConfig};
use gid::identity::Identity;
use gid::resolve::resolve_identity;
use gid::rules::{MatchContext, Rule, RuleEngine};

fn cfg() -> GitIdentityConfig {
    GitIdentityConfig { local: ScopeConfig::empty(), global: ScopeConfig::empty() }
}

#[test]
fn project_identity_beats_matching_rule() {
    let rules = vec![Rule::path("/repo/**".to_string(), "rule".to_string())];
    let engine = RuleEngine::with_home(&rules, None);
    let context = MatchContext::new().with_path("/repo/x".to_string());
    assert_eq!(resolve_identity(Some("project"), &engine, &context).as_deref(), Some("project"));
    assert_eq!(resolve_identity(None, &engine, &context).as_deref(), Some("rule"));
    let elsewhere = MatchContext::new().with_path("/tmp".to_string());
    assert!(resolve_identity(None, &engine, &elsewhere).is_none());
}

#[test]
fn effective_value_falls_back_per_field() {
    let mut c = cfg();
    c.global.user_name = Some("G".to_string());
    c.global.user_email = Some("g@x.io".to_string());
    c.local.user_name = Some("L".to_string());
    assert_eq!(c.effective_user_name().as_deref(), Some("L"));
    assert_eq!(c.effective_user_email().as_deref(), Some("g@x.io"));
    assert_eq!(effective_value(&None, &None), None);
}

#[test]
fn switching_twice_equals_switching_once() {
    let id = Identity::new("w".to_string(), "W".to_string(), "w@x.io".to_string())
        .with_gpg_key(Some("K1".to_string()));
    let mut once = cfg();
    once.global.user_name = Some("G".to_string());
    once.switch_to(&id, false);
    let mut twice = once.clone();
    twice.switch_to(&id, false);
    assert_eq!(once.effective_user_name(), twice.effective_user_name());
    assert_eq!(once.effective_user_email(), twice.effective_user_email());
    assert_eq!(twice.effective_user_name().as_deref(), Some("W"));
    assert_eq!(twice.local.signing_key.as_deref(), Some("K1"));
    assert_eq!(twice.local.gpg_sign, Some(true));
    assert_eq!(twice.global.user_name.as_deref(), Some("G"));
}

#[test]
fn writes_of_a_switch() {
    let plain = Identity::new("p".to_string(), "P".to_string(), "p@x.io".to_string());
    let ws = switch_writes(&plain);
    assert_eq!(ws.len(), 2);
    assert!(matches!(&ws[0], ConfigWrite::UserName(n) if n == "P"));
    assert!(matches!(&ws[1], ConfigWrite::UserEmail(e) if e == "p@x.io"));
    let mut scope = ScopeConfig::empty();
    scope.signing_key = Some("old".to_string());
    scope.apply_all(&ws);
    assert_eq!(scope.signing_key.as_deref(), Some("old"));
    assert_eq!(scope.user_email.as_deref(), Some("p@x.io"));
    let mut global = cfg();
    global.switch_to(&plain, true);
    assert_eq!(global.global.user_name.as_deref(), Some("P"));
    assert!(global.local.user_name.is_none());
}
