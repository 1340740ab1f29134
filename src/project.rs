//! The project file (`.gid`) of a directory. Only the file of the directory itself is
//! read: resolution does not search parent directories, so a project file pins the
//! identity of exactly the directory that holds it.

use vstd::prelude::*;

use crate::identity::{all_id_chars, is_valid_id};
use crate::outside::{toml_document, toml_document_of};
use crate::rules::{opt_view, Rule, RuleType};
use crate::tomldoc::{field, get_field, TomlValue};
use crate::text::{contains_char, str_eq, trim, trim_spec};

verus! {

/// A directory's project file: the identity it pins, and rules of its own.
#[derive(Clone, Debug)]
pub struct ProjectConfig {
    pub identity: String,
    pub rules: Vec<Rule>,
}

/// Why a project file is refused.
#[derive(Clone, Copy, Debug, PartialEq, Eq, Structural)]
pub enum ProjectConfigError {
    /// The structured form is not valid TOML.
    Malformed,
    /// The structured form has no string `identity`.
    MissingIdentity,
    /// A rule of the structured form lacks a field or has one of the wrong type.
    InvalidRule,
    /// The bare form holds characters an identity id may not hold.
    InvalidIdentityId,
}

/// Where the first line break of `s` stands, or its length.
pub open spec fn line_end_from(s: Seq<char>, i: int) -> int
    decreases s.len() - i,
{
    if i < 0 || i >= s.len() {
        s.len() as int
    } else if s[i] == '\n' {
        i
    } else {
        line_end_from(s, i + 1)
    }
}

/// Whether the text is taken for the structured form.
pub open spec fn is_structured(text: Seq<char>) -> bool {
    trim_spec(text).contains('=') || trim_spec(text).contains('[')
}

/// The identity id that the bare form declares: the first line, trimmed.
pub open spec fn bare_identity(text: Seq<char>) -> Seq<char> {
    let t = trim_spec(text);
    trim_spec(t.take(line_end_from(t, 0)))
}

fn line_end(s: &str) -> (r: usize)
    ensures
        r == line_end_from(s@, 0),
        r <= s@.len(),
{
    let n = s.unicode_len();
    let mut i: usize = 0;
    while i < n
        invariant
            n == s@.len(),
            i <= n,
            line_end_from(s@, i as int) == line_end_from(s@, 0),
        decreases n - i,
    {
        if s.get_char(i) == '\n' {
            return i;
        }
        i = i + 1;
    }
    n
}

/// A rule, as plain values.
pub struct RuleView {
    pub is_path: bool,
    pub pattern: Seq<char>,
    pub identity: Seq<char>,
    pub priority: u32,
    pub description: Option<Seq<char>>,
    pub enabled: bool,
}

pub open spec fn rule_view(r: Rule) -> RuleView {
    RuleView {
        is_path: r.is_path_rule(),
        pattern: r.pattern_view(),
        identity: r.identity@,
        priority: r.priority,
        description: opt_view(r.description),
        enabled: r.enabled,
    }
}

pub open spec fn rules_view(rs: Seq<Rule>) -> Seq<RuleView> {
    rs.map_values(|r: Rule| rule_view(r))
}

/// The text of a TOML string, if `v` is one.
pub open spec fn str_of(v: Option<TomlValue>) -> Option<Seq<char>> {
    match v {
        Some(TomlValue::Str(s)) => Some(s@),
        _ => None,
    }
}

/// `priority`: 100 when absent, else an integer that fits a `u32`.
pub open spec fn priority_of(v: Option<TomlValue>) -> Option<u32> {
    match v {
        None => Some(100u32),
        Some(TomlValue::Int(n)) => if 0 <= n <= 0xffff_ffff {
            Some(n as u32)
        } else {
            None
        },
        _ => None,
    }
}

/// `description`: none when absent, else a string.
pub open spec fn description_of(v: Option<TomlValue>) -> Option<Option<Seq<char>>> {
    match v {
        None => Some(None),
        Some(TomlValue::Str(s)) => Some(Some(s@)),
        _ => None,
    }
}

/// `enabled`: true when absent, else a boolean.
pub open spec fn enabled_of(v: Option<TomlValue>) -> Option<bool> {
    match v {
        None => Some(true),
        Some(TomlValue::Bool(b)) => Some(b),
        _ => None,
    }
}

/// One rule of the structured form: a table with a string `type` (`path` or
/// `remote`), `pattern` and `identity`, and optional `priority`, `description` and
/// `enabled`; other keys are ignored. `None` when a field is missing or ill-typed.
pub open spec fn decode_rule(v: TomlValue) -> Option<RuleView> {
    let kind = str_of(field(v, "type"@));
    let pattern = str_of(field(v, "pattern"@));
    let identity = str_of(field(v, "identity"@));
    let priority = priority_of(field(v, "priority"@));
    let description = description_of(field(v, "description"@));
    let enabled = enabled_of(field(v, "enabled"@));
    if kind is Some && (kind->0 == "path"@ || kind->0 == "remote"@) && pattern is Some
        && identity is Some && priority is Some && description is Some && enabled is Some {
        Some(
            RuleView {
                is_path: kind->0 == "path"@,
                pattern: pattern->0,
                identity: identity->0,
                priority: priority->0,
                description: description->0,
                enabled: enabled->0,
            },
        )
    } else {
        None
    }
}

/// The first `n` items decoded as rules; `None` when one of them is not a rule.
pub open spec fn decode_rules(items: Seq<TomlValue>, n: int) -> Option<Seq<RuleView>>
    decreases n,
{
    if n <= 0 {
        Some(Seq::empty())
    } else {
        match decode_rules(items, n - 1) {
            None => None,
            Some(pre) => match decode_rule(items[n - 1]) {
                Some(r) => Some(pre.push(r)),
                None => None,
            },
        }
    }
}

/// A prefix that fails to decode makes every longer prefix fail.
proof fn lemma_decode_rules_fails_on(items: Seq<TomlValue>, k: int, n: int)
    requires
        0 <= k <= n,
        decode_rules(items, k) is None,
    ensures
        decode_rules(items, n) is None,
    decreases n - k,
{
    if k < n {
        lemma_decode_rules_fails_on(items, k, n - 1);
    }
}

/// The structured form: a string `identity`, and an optional array `rules`.
pub open spec fn decode_project(doc: TomlValue) -> Result<(Seq<char>, Seq<RuleView>), ProjectConfigError> {
    match str_of(field(doc, "identity"@)) {
        None => Err(ProjectConfigError::MissingIdentity),
        Some(id) => match field(doc, "rules"@) {
            None => Ok((id, Seq::empty())),
            Some(TomlValue::Array(items)) => match decode_rules(items@, items@.len() as int) {
                Some(rs) => Ok((id, rs)),
                None => Err(ProjectConfigError::InvalidRule),
            },
            Some(_) => Err(ProjectConfigError::InvalidRule),
        },
    }
}

fn str_field(v: &TomlValue, key: &str) -> (r: Option<String>)
    ensures
        opt_view(r) == str_of(field(*v, key@)),
{
    match get_field(v, key) {
        Some(TomlValue::Str(s)) => Some(s.clone()),
        _ => None,
    }
}

/// One rule of the structured form, as `decode_rule` says.
fn rule_from_toml(v: &TomlValue) -> (r: Option<Rule>)
    ensures
        match r {
            Some(x) => decode_rule(*v) == Some(rule_view(x)),
            None => decode_rule(*v) is None,
        },
{
    let kind = match str_field(v, "type") {
        Some(s) => s,
        None => {
            return None;
        },
    };
    let pattern = match str_field(v, "pattern") {
        Some(s) => s,
        None => {
            return None;
        },
    };
    let is_path = str_eq(kind.as_str(), "path");
    if !is_path && !str_eq(kind.as_str(), "remote") {
        return None;
    }
    let identity = match str_field(v, "identity") {
        Some(s) => s,
        None => {
            return None;
        },
    };
    let priority: u32 = match get_field(v, "priority") {
        None => 100,
        Some(TomlValue::Int(n)) => {
            if *n < 0 || *n > 0xffff_ffff {
                return None;
            }
            *n as u32
        },
        Some(_) => {
            return None;
        },
    };
    let description = match get_field(v, "description") {
        None => None,
        Some(TomlValue::Str(d)) => Some(d.clone()),
        Some(_) => {
            return None;
        },
    };
    let enabled = match get_field(v, "enabled") {
        None => true,
        Some(TomlValue::Bool(b)) => *b,
        Some(_) => {
            return None;
        },
    };
    let rule_type = if is_path {
        RuleType::Path { pattern }
    } else {
        RuleType::Remote { pattern }
    };
    Some(Rule { rule_type, identity, priority, description, enabled })
}

impl ProjectConfig {
    /// Decodes the structured form from its TOML document, as `decode_project` says.
    pub fn from_toml(doc: &TomlValue) -> (r: Result<ProjectConfig, ProjectConfigError>)
        ensures
            match decode_project(*doc) {
                Ok((id, rs)) => r matches Ok(pc) && pc.identity@ == id && rules_view(pc.rules@)
                    == rs,
                Err(e) => r == Err::<ProjectConfig, ProjectConfigError>(e),
            },
    {
        let identity = match str_field(doc, "identity") {
            Some(s) => s,
            None => {
                return Err(ProjectConfigError::MissingIdentity);
            },
        };
        let mut rules: Vec<Rule> = Vec::new();
        match get_field(doc, "rules") {
            None => {
                assert(rules_view(rules@) =~= Seq::<RuleView>::empty());
            },
            Some(TomlValue::Array(items)) => {
                let n = items.len();
                let mut i: usize = 0;
                while i < n
                    invariant
                        n == items@.len(),
                        i <= n,
                        field(*doc, "rules"@) == Some(TomlValue::Array(*items)),
                        str_of(field(*doc, "identity"@)) == Some(identity@),
                        decode_rules(items@, i as int) == Some(rules_view(rules@)),
                    decreases n - i,
                {
                    match rule_from_toml(&items[i]) {
                        Some(rule) => {
                            let ghost before = rules@;
                            rules.push(rule);
                            assert(rules_view(rules@) =~= rules_view(before).push(rule_view(rule)));
                        },
                        None => {
                            proof {
                                lemma_decode_rules_fails_on(items@, i + 1, n as int);
                            }
                            return Err(ProjectConfigError::InvalidRule);
                        },
                    }
                    i = i + 1;
                }
            },
            Some(_) => {
                return Err(ProjectConfigError::InvalidRule);
            },
        }
        Ok(ProjectConfig { identity, rules })
    }

    /// Reads a project file. Empty or blank text declares nothing. Text holding `=` or
    /// `[` is the structured form, read as TOML. Otherwise the first line, trimmed, is
    /// the identity id, with no rules.
    pub fn parse(content: &str) -> (r: Result<Option<ProjectConfig>, ProjectConfigError>)
        ensures
            trim_spec(content@).len() == 0 ==> r == Ok::<
                Option<ProjectConfig>,
                ProjectConfigError,
            >(None),
            trim_spec(content@).len() > 0 && is_structured(content@) ==> match toml_document_of(
                trim_spec(content@),
            ) {
                None => r == Err::<Option<ProjectConfig>, ProjectConfigError>(
                    ProjectConfigError::Malformed,
                ),
                Some(doc) => match decode_project(doc) {
                    Ok((id, rs)) => r matches Ok(Some(pc)) && pc.identity@ == id && rules_view(
                        pc.rules@,
                    ) == rs,
                    Err(e) => r == Err::<Option<ProjectConfig>, ProjectConfigError>(e),
                },
            },
            trim_spec(content@).len() > 0 && !is_structured(content@) ==> {
                if is_valid_id(bare_identity(content@)) {
                    r matches Ok(Some(pc)) && pc.identity@ == bare_identity(content@)
                        && pc.rules@.len() == 0
                } else {
                    r == Err::<Option<ProjectConfig>, ProjectConfigError>(
                        ProjectConfigError::InvalidIdentityId,
                    )
                }
            },
    {
        let trimmed = trim(content);
        if trimmed.unicode_len() == 0 {
            return Ok(None);
        }
        if contains_char(trimmed, '=') || contains_char(trimmed, '[') {
            return match toml_document(trimmed) {
                None => Err(ProjectConfigError::Malformed),
                Some(doc) => match ProjectConfig::from_toml(&doc) {
                    Ok(pc) => Ok(Some(pc)),
                    Err(e) => Err(e),
                },
            };
        }
        let end = line_end(trimmed);
        let identity = trim(trimmed.substring_char(0, end));
        if identity.unicode_len() == 0 || !all_id_chars(identity) {
            return Err(ProjectConfigError::InvalidIdentityId);
        }
        Ok(Some(ProjectConfig { identity: identity.to_owned(), rules: Vec::new() }))
    }
}

} // verus!
