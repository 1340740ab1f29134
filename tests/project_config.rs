use gid::project::{ProjectConfig, ProjectConfigError};
use gid::tomldoc::TomlValue;

#[test]
fn test_parse_simple_format() {
    let content = "work\n";
    let config = ProjectConfig::parse(content).unwrap().unwrap();
    assert_eq!(config.identity, "work");
    assert!(config.rules.is_empty());
}

#[test]
fn test_parse_toml_format() {
    let content = r#"
identity = "work"

[[rules]]
type = "path"
pattern = "src/**"
identity = "work"
priority = 100
"#;
    let config = ProjectConfig::parse(content).unwrap().unwrap();
    assert_eq!(config.identity, "work");
    assert_eq!(config.rules.len(), 1);
}

#[test]
fn test_parse_empty() {
    let content = "";
    let config = ProjectConfig::parse(content).unwrap();
    assert!(config.is_none());
}

#[test]
fn test_parse_invalid_id() {
    let content = "invalid id with spaces";
    assert!(ProjectConfig::parse(content).is_err());
}

#[test]
fn bare_form_takes_first_line_trimmed() {
    let config = ProjectConfig::parse("  \n  personal  \nwork\n").unwrap().unwrap();
    assert_eq!(config.identity, "personal");
    assert!(config.rules.is_empty());
}

#[test]
fn blank_text_declares_nothing() {
    assert!(ProjectConfig::parse(" \n\t \r\n").unwrap().is_none());
}

#[test]
fn bare_form_rejects_bad_characters() {
    assert_eq!(
        ProjectConfig::parse("wörk").unwrap_err(),
        ProjectConfigError::InvalidIdentityId
    );
    assert_eq!(
        ProjectConfig::parse("a.b").unwrap_err(),
        ProjectConfigError::InvalidIdentityId
    );
}

#[test]
fn structured_form_reads_rule_fields_and_defaults() {
    let content = r#"
identity = "personal"

[[rules]]
type = "remote"
pattern = "github.com/me"
identity = "personal"
description = "mine"

[[rules]]
type = "path"
pattern = "~/work/**"
identity = "work"
priority = 5
enabled = false
"#;
    let config = ProjectConfig::parse(content).unwrap().unwrap();
    assert_eq!(config.identity, "personal");
    assert_eq!(config.rules.len(), 2);
    let first = &config.rules[0];
    assert_eq!(first.kind_name(), "remote");
    assert_eq!(first.pattern(), "github.com/me");
    assert_eq!(first.priority, 100);
    assert!(first.enabled);
    assert_eq!(first.description.as_deref(), Some("mine"));
    let second = &config.rules[1];
    assert_eq!(second.kind_name(), "path");
    assert_eq!(second.identity, "work");
    assert_eq!(second.priority, 5);
    assert!(!second.enabled);
}

#[test]
fn structured_form_errors() {
    assert_eq!(
        ProjectConfig::parse("identity = ").unwrap_err(),
        ProjectConfigError::Malformed
    );
    assert_eq!(
        ProjectConfig::parse("name = \"x\"").unwrap_err(),
        ProjectConfigError::MissingIdentity
    );
    assert_eq!(
        ProjectConfig::parse("identity = \"w\"\n[[rules]]\ntype = \"other\"\npattern = \"p\"\nidentity = \"w\"\n")
            .unwrap_err(),
        ProjectConfigError::InvalidRule
    );
    assert_eq!(
        ProjectConfig::parse("identity = \"w\"\n[[rules]]\ntype = \"path\"\npattern = \"p\"\nidentity = \"w\"\npriority = -1\n")
            .unwrap_err(),
        ProjectConfigError::InvalidRule
    );
}

fn table(entries: Vec<(&str, TomlValue)>) -> TomlValue {
    TomlValue::Table(entries.into_iter().map(|(k, v)| (k.to_string(), v)).collect())
}

fn s(v: &str) -> TomlValue {
    TomlValue::Str(v.to_string())
}

#[test]
fn decoding_a_toml_document() {
    let doc = table(vec![
        ("identity", s("work")),
        (
            "rules",
            TomlValue::Array(vec![table(vec![
                ("type", s("remote")),
                ("pattern", s("github.com/co")),
                ("identity", s("work")),
                ("priority", TomlValue::Int(7)),
                ("extra", TomlValue::Other),
            ])]),
        ),
    ]);
    let pc = ProjectConfig::from_toml(&doc).unwrap();
    assert_eq!(pc.identity, "work");
    assert_eq!(pc.rules.len(), 1);
    assert_eq!(pc.rules[0].kind_name(), "remote");
    assert_eq!(pc.rules[0].priority, 7);
    assert!(pc.rules[0].enabled);
    assert!(pc.rules[0].description.is_none());
}

#[test]
fn decoding_errors() {
    assert_eq!(
        ProjectConfig::from_toml(&table(vec![("identity", TomlValue::Int(1))])).unwrap_err(),
        ProjectConfigError::MissingIdentity
    );
    assert_eq!(
        ProjectConfig::from_toml(&table(vec![("identity", s("w")), ("rules", s("x"))])).unwrap_err(),
        ProjectConfigError::InvalidRule
    );
    let bad_enabled = table(vec![
        ("identity", s("w")),
        (
            "rules",
            TomlValue::Array(vec![table(vec![
                ("type", s("path")),
                ("pattern", s("p")),
                ("identity", s("w")),
                ("enabled", s("yes")),
            ])]),
        ),
    ]);
    assert_eq!(ProjectConfig::from_toml(&bad_enabled).unwrap_err(), ProjectConfigError::InvalidRule);
    let too_big = table(vec![
        ("identity", s("w")),
        (
            "rules",
            TomlValue::Array(vec![table(vec![
                ("type", s("path")),
                ("pattern", s("p")),
                ("identity", s("w")),
                ("priority", TomlValue::Int(1 << 40)),
            ])]),
        ),
    ]);
    assert_eq!(ProjectConfig::from_toml(&too_big).unwrap_err(), ProjectConfigError::InvalidRule);
}
