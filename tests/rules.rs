use gid::rules::{normalize_git_url, MatchContext, Rule, RuleEngine};

fn ctx(path: Option<&str>, remote: Option<&str>) -> MatchContext {
    let mut c = MatchContext::new();
    if let Some(p) = path {
        c = c.with_path(p.to_string());
    }
    if let Some(r) = remote {
        c = c.with_remote(r.to_string());
    }
    c
}

#[test]
fn normalizes_ssh_and_https_urls() {
    assert_eq!(normalize_git_url("git@github.com:user/repo.git"), "github.com/user/repo");
    assert_eq!(normalize_git_url("https://github.com/user/repo.git"), "github.com/user/repo");
    assert_eq!(normalize_git_url("http://gitlab.com/a/b"), "gitlab.com/a/b");
    assert_eq!(normalize_git_url("  git@host:x/y.git.git \n"), "host/x/y");
    assert_eq!(normalize_git_url("ssh://host/x.git"), "ssh://host/x.git");
}

#[test]
fn defaults_of_new_rules() {
    let r = Rule::path("~/work/**".to_string(), "work".to_string());
    assert_eq!(r.priority, 100);
    assert!(r.enabled);
    assert!(r.description.is_none());
    assert_eq!(r.kind_name(), "path");
    assert_eq!(r.pattern(), "~/work/**");
    let r = Rule::remote("github.com/co".to_string(), "work".to_string()).with_priority(7);
    assert_eq!(r.priority, 7);
    assert_eq!(r.kind_name(), "remote");
}

#[test]
fn remote_rule_matches_by_substring_regex_and_glob() {
    let sub = Rule::remote("github.com/company".to_string(), "w".to_string());
    assert!(sub.matches_remote("git@github.com:company/repo.git") == false);
    assert!(sub.matches_remote("https://github.com/company/repo.git"));
    let re = Rule::remote("^git@github\\.com:co/".to_string(), "w".to_string());
    assert!(re.matches_remote("git@github.com:co/x.git"));
    assert!(!re.matches_remote("https://github.com/co/x.git"));
    let glob = Rule::remote("github.com/company/*".to_string(), "w".to_string());
    assert!(glob.matches_remote("git@github.com:company/repo.git"));
    assert!(!glob.matches_remote("git@github.com:other/repo.git"));
}

#[test]
fn path_rule_matches_by_glob_prefix_and_home() {
    let r = Rule::path("~/work/**".to_string(), "w".to_string());
    assert!(r.matches_path_in("/home/u/work/proj", Some("/home/u")));
    assert!(r.matches_path_in("/home/u/work", Some("/home/u")));
    assert!(!r.matches_path_in("/home/u/workshop", Some("/home/u")));
    assert!(!r.matches_path_in("/home/u/personal", Some("/home/u")));
    let abs = Rule::path("/srv/*/repo".to_string(), "w".to_string());
    assert!(abs.matches_path_in("/srv/a/repo", None));
    assert!(!abs.matches_path_in("/srv/a/other", None));
    assert!(abs.matches_path("/srv/b/repo"));
}

#[test]
fn kinds_never_cross() {
    let path_rule = Rule::path("github.com".to_string(), "w".to_string());
    assert!(!path_rule.matches_remote("https://github.com/x"));
    let remote_rule = Rule::remote("/srv".to_string(), "w".to_string());
    assert!(!remote_rule.matches_path_in("/srv/x", None));
    let rules = vec![path_rule];
    let engine = RuleEngine::with_home(&rules, None);
    assert!(engine.match_context(&ctx(None, Some("https://github.com/x"))).is_none());
}

#[test]
fn first_enabled_matching_rule_wins() {
    let mut disabled = Rule::path("/srv/**".to_string(), "off".to_string()).with_priority(1);
    disabled.enabled = false;
    let rules = vec![
        disabled,
        Rule::remote("github.com/co".to_string(), "remote".to_string()).with_priority(5),
        Rule::path("/srv/**".to_string(), "path".to_string()).with_priority(10),
        Rule::path("/srv/a/**".to_string(), "late".to_string()).with_priority(20),
    ];
    let engine = RuleEngine::with_home(&rules, None);
    let hit = engine.match_context(&ctx(Some("/srv/a/b"), None)).unwrap();
    assert_eq!(hit.identity, "path");
    let hit = engine
        .match_context(&ctx(Some("/srv/a/b"), Some("https://github.com/co/r")))
        .unwrap();
    assert_eq!(hit.identity, "remote");
    let all = engine.match_all(&ctx(Some("/srv/a/b"), None));
    let ids: Vec<&str> = all.iter().map(|r| r.identity.as_str()).collect();
    assert_eq!(ids, vec!["path", "late"]);
    assert!(engine.match_context(&ctx(Some("/tmp"), None)).is_none());
    assert!(engine.match_all(&ctx(None, None)).is_empty());
}
