use vstd::prelude::*;

use crate::outside::{
    glob_accepts, glob_compiles, glob_match, home_dir, path_has_base, path_starts_with,
    regex_compiles, regex_finds, regex_match,
};
use crate::text::{
    contains, has_prefix, has_substring, replace_char, replace_spec, starts_with, strip_prefixes,
    strip_suffixes, trim, trim_end_matches, trim_spec, trim_start_matches,
};

verus! {

/// What a rule looks at, and the pattern it compares with.
#[derive(Clone, Debug)]
pub enum RuleType {
    /// A glob over the working directory.
    Path { pattern: String },
    /// A pattern over the `origin` remote URL.
    Remote { pattern: String },
}

/// A rule that selects an identity.
#[derive(Clone, Debug)]
pub struct Rule {
    pub rule_type: RuleType,
    /// The identity chosen when the rule matches.
    pub identity: String,
    /// Lower numbers are consulted first.
    pub priority: u32,
    pub description: Option<String>,
    pub enabled: bool,
}

pub open spec fn opt_view(o: Option<String>) -> Option<Seq<char>> {
    match o {
        Some(s) => Some(s@),
        None => None,
    }
}

/// The priority a rule gets when none is given.
pub fn default_priority() -> (r: u32)
    ensures
        r == 100,
{
    100
}

/// Rules are enabled unless said otherwise.
pub fn default_true() -> (r: bool)
    ensures
        r,
{
    true
}

/// A pattern with a leading `~/` put under the home directory, when one is known.
pub open spec fn expand_home(pattern: Seq<char>, home: Option<Seq<char>>) -> Seq<char> {
    if has_prefix(pattern, seq!['~', '/']) && home is Some {
        home->0 + seq!['/'] + pattern.subrange(2, pattern.len() as int)
    } else {
        pattern
    }
}

/// The directory a path pattern names: without trailing `**`, then without trailing `/`.
pub open spec fn pattern_base(pattern: Seq<char>) -> Seq<char> {
    strip_suffixes(strip_suffixes(pattern, seq!['*', '*']), seq!['/'])
}

/// Whether a path pattern covers `path`: by glob, or by lying under its directory.
pub open spec fn path_pattern_matches(
    pattern: Seq<char>,
    path: Seq<char>,
    home: Option<Seq<char>>,
) -> bool {
    let e = expand_home(pattern, home);
    (glob_compiles(e) && glob_accepts(e, path)) || path_has_base(path, pattern_base(e))
}

pub open spec fn scheme_stripped(url: Seq<char>) -> Seq<char> {
    strip_prefixes(
        strip_prefixes(url, seq!['h', 't', 't', 'p', 's', ':', '/', '/']),
        seq!['h', 't', 't', 'p', ':', '/', '/'],
    )
}

/// A remote URL reduced to `host/owner/repo`.
pub open spec fn normalized_url(url: Seq<char>) -> Seq<char> {
    let t = trim_spec(url);
    let git_suffix = seq!['.', 'g', 'i', 't'];
    if has_prefix(t, seq!['g', 'i', 't', '@']) {
        strip_suffixes(replace_spec(strip_prefixes(t, seq!['g', 'i', 't', '@']), ':', seq!['/']), git_suffix)
    } else if has_prefix(t, seq!['h', 't', 't', 'p', 's', ':', '/', '/']) || has_prefix(
        t,
        seq!['h', 't', 't', 'p', ':', '/', '/'],
    ) {
        strip_suffixes(scheme_stripped(t), git_suffix)
    } else {
        t
    }
}

/// Whether a remote pattern covers `url`: as a substring, as a regular expression,
/// or as a glob over the normalized URL.
pub open spec fn remote_pattern_matches(pattern: Seq<char>, url: Seq<char>) -> bool {
    has_substring(url, pattern) || (regex_compiles(pattern) && regex_finds(pattern, url)) || (
    glob_compiles(pattern) && glob_accepts(pattern, normalized_url(url)))
}

/// Reduces a remote URL to `host/owner/repo`: the `git@` or `http(s)://` prefix goes,
/// the `:` of the SSH form becomes `/`, and a trailing `.git` goes.
pub fn normalize_git_url(url: &str) -> (r: String)
    ensures
        r@ == normalized_url(url@),
{
    proof {
        reveal_strlit("git@");
        reveal_strlit("https://");
        reveal_strlit("http://");
        reveal_strlit(".git");
        reveal_strlit("/");
        assert("git@"@ =~= seq!['g', 'i', 't', '@']);
        assert("https://"@ =~= seq!['h', 't', 't', 'p', 's', ':', '/', '/']);
        assert("http://"@ =~= seq!['h', 't', 't', 'p', ':', '/', '/']);
        assert(".git"@ =~= seq!['.', 'g', 'i', 't']);
        assert("/"@ =~= seq!['/']);
    }
    let url = trim(url);
    if starts_with(url, "git@") {
        let u = trim_start_matches(url, "git@");
        let u = replace_char(u, ':', "/");
        let u = trim_end_matches(u.as_str(), ".git");
        return u.to_owned();
    }
    if starts_with(url, "https://") || starts_with(url, "http://") {
        let u = trim_start_matches(url, "https://");
        let u = trim_start_matches(u, "http://");
        let u = trim_end_matches(u, ".git");
        return u.to_owned();
    }
    url.to_owned()
}

impl Rule {
    pub open spec fn pattern_view(self) -> Seq<char> {
        match self.rule_type {
            RuleType::Path { pattern } => pattern@,
            RuleType::Remote { pattern } => pattern@,
        }
    }

    pub open spec fn is_path_rule(self) -> bool {
        self.rule_type is Path
    }

    /// Whether this rule, looked at for a path alone, covers `path`.
    pub open spec fn path_match(self, path: Seq<char>, home: Option<Seq<char>>) -> bool {
        self.enabled && self.is_path_rule() && path_pattern_matches(self.pattern_view(), path, home)
    }

    /// Whether this rule, looked at for a remote URL alone, covers `url`.
    pub open spec fn remote_match(self, url: Seq<char>) -> bool {
        self.enabled && !self.is_path_rule() && remote_pattern_matches(self.pattern_view(), url)
    }

    /// Whether the rule applies to a context: the remote URL is tried, then the path.
    pub open spec fn applies(
        self,
        path: Option<Seq<char>>,
        remote: Option<Seq<char>>,
        home: Option<Seq<char>>,
    ) -> bool {
        self.enabled && ((remote is Some && self.remote_match(remote->0)) || (path is Some
            && self.path_match(path->0, home)))
    }

    /// A path rule with the default priority, enabled.
    pub fn path(pattern: String, identity: String) -> (r: Rule)
        ensures
            r.rule_type == (RuleType::Path { pattern }),
            r.identity == identity,
            r.priority == 100,
            r.description is None,
            r.enabled,
    {
        Rule {
            rule_type: RuleType::Path { pattern },
            identity,
            priority: default_priority(),
            description: None,
            enabled: true,
        }
    }

    /// A remote rule with the default priority, enabled.
    pub fn remote(pattern: String, identity: String) -> (r: Rule)
        ensures
            r.rule_type == (RuleType::Remote { pattern }),
            r.identity == identity,
            r.priority == 100,
            r.description is None,
            r.enabled,
    {
        Rule {
            rule_type: RuleType::Remote { pattern },
            identity,
            priority: default_priority(),
            description: None,
            enabled: true,
        }
    }

    pub fn with_priority(self, priority: u32) -> (r: Rule)
        ensures
            r == (Rule { priority, ..self }),
    {
        let mut s = self;
        s.priority = priority;
        s
    }

    /// Whether this rule covers `path`, with `home` standing for the home directory.
    pub fn matches_path_in(&self, path: &str, home: Option<&str>) -> (r: bool)
        ensures
            r == self.path_match(
                path@,
                match home {
                    Some(h) => Some(h@),
                    None => None,
                },
            ),
    {
        if !self.enabled {
            return false;
        }
        match &self.rule_type {
            RuleType::Path { pattern } => {
                proof {
                    reveal_strlit("~/");
                    reveal_strlit("/");
                    reveal_strlit("**");
                    assert("~/"@ =~= seq!['~', '/']);
                    assert("**"@ =~= seq!['*', '*']);
                    assert("/"@ =~= seq!['/']);
                }
                let expanded: String;
                if starts_with(pattern.as_str(), "~/") && home.is_some() {
                    let mut e = match home {
                        Some(h) => h.to_owned(),
                        None => String::new(),
                    };
                    e.append("/");
                    let n = pattern.as_str().unicode_len();
                    e.append(pattern.as_str().substring_char(2, n));
                    expanded = e;
                } else {
                    expanded = pattern.clone();
                }
                match glob_match(expanded.as_str(), path) {
                    Some(true) => {
                        return true;
                    },
                    _ => {},
                }
                let trimmed = trim_end_matches(expanded.as_str(), "**");
                let trimmed = trim_end_matches(trimmed, "/");
                path_starts_with(path, trimmed)
            },
            RuleType::Remote { .. } => false,
        }
    }

    /// Whether this rule covers `path`, with `~/` read against the user's home directory.
    pub fn matches_path(&self, path: &str) -> (r: bool)
        ensures
            r ==> self.enabled && self.is_path_rule(),
            !has_prefix(self.pattern_view(), seq!['~', '/']) ==> r == self.path_match(
                path@,
                None,
            ),
    {
        let home = home_dir();
        match home {
            Some(h) => self.matches_path_in(path, Some(h.as_str())),
            None => self.matches_path_in(path, None),
        }
    }

    /// Whether this rule covers the remote URL `remote_url`.
    pub fn matches_remote(&self, remote_url: &str) -> (r: bool)
        ensures
            r == self.remote_match(remote_url@),
    {
        if !self.enabled {
            return false;
        }
        match &self.rule_type {
            RuleType::Remote { pattern } => {
                if contains(remote_url, pattern.as_str()) {
                    return true;
                }
                match regex_match(pattern.as_str(), remote_url) {
                    Some(true) => {
                        return true;
                    },
                    _ => {},
                }
                let normalized = normalize_git_url(remote_url);
                match glob_match(pattern.as_str(), normalized.as_str()) {
                    Some(true) => true,
                    _ => false,
                }
            },
            RuleType::Path { .. } => false,
        }
    }

    pub fn kind_name(&self) -> (r: &'static str)
        ensures
            self.is_path_rule() ==> r@ == seq!['p', 'a', 't', 'h'],
            !self.is_path_rule() ==> r@ == seq!['r', 'e', 'm', 'o', 't', 'e'],
    {
        proof {
            reveal_strlit("path");
            reveal_strlit("remote");
        }
        match &self.rule_type {
            RuleType::Path { .. } => "path",
            RuleType::Remote { .. } => "remote",
        }
    }

    /// `[kind] pattern -> identity`.
    pub open spec fn text_spec(self) -> Seq<char> {
        "["@ + (if self.is_path_rule() {
            "path"@
        } else {
            "remote"@
        }) + "] "@ + self.pattern_view() + " -> "@ + self.identity@
    }

    /// The rule as `[kind] pattern -> identity`.
    pub fn display_text(&self) -> (r: String)
        ensures
            r@ == self.text_spec(),
    {
        proof {
            reveal_strlit("path");
            reveal_strlit("remote");
        }
        let mut out = "[".to_owned();
        out.append(self.kind_name());
        out.append("] ");
        out.append(self.pattern());
        out.append(" -> ");
        out.append(self.identity.as_str());
        out
    }

    pub fn pattern(&self) -> (r: &str)
        ensures
            r@ == self.pattern_view(),
    {
        match &self.rule_type {
            RuleType::Path { pattern } => pattern.as_str(),
            RuleType::Remote { pattern } => pattern.as_str(),
        }
    }
}

/// Whether rules are in ascending order of priority.
pub open spec fn sorted_by_priority(rules: Seq<Rule>) -> bool {
    forall|i: int, j: int| 0 <= i <= j < rules.len() ==> rules[i].priority <= rules[j].priority
}

/// Whether `rules[i]` applies to the context and no rule before it does.
pub open spec fn first_applicable(
    rules: Seq<Rule>,
    path: Option<Seq<char>>,
    remote: Option<Seq<char>>,
    home: Option<Seq<char>>,
    i: int,
) -> bool {
    0 <= i < rules.len() && rules[i].applies(path, remote, home) && forall|j: int|
        0 <= j < i ==> !rules[j].applies(path, remote, home)
}

/// The rules among the first `n` that apply to the context, in their order.
pub open spec fn applicable_upto(
    rules: Seq<Rule>,
    n: int,
    path: Option<Seq<char>>,
    remote: Option<Seq<char>>,
    home: Option<Seq<char>>,
) -> Seq<Rule>
    decreases n,
{
    if n <= 0 {
        Seq::empty()
    } else {
        let pre = applicable_upto(rules, n - 1, path, remote, home);
        if rules[n - 1].applies(path, remote, home) {
            pre.push(rules[n - 1])
        } else {
            pre
        }
    }
}

/// Of rules in ascending order of priority, the first that applies to a context has
/// the smallest priority among all that apply; it is enabled, and it matched through
/// the field of the context that its kind looks at: a path rule through the path, a
/// remote rule through the remote URL.
pub proof fn lemma_first_match_has_least_priority(
    rules: Seq<Rule>,
    path: Option<Seq<char>>,
    remote: Option<Seq<char>>,
    home: Option<Seq<char>>,
    i: int,
)
    requires
        sorted_by_priority(rules),
        first_applicable(rules, path, remote, home, i),
    ensures
        rules[i].enabled,
        forall|j: int|
            0 <= j < rules.len() && rules[j].applies(path, remote, home) ==> rules[i].priority
                <= rules[j].priority,
        rules[i].is_path_rule() ==> path is Some && path_pattern_matches(
            rules[i].pattern_view(),
            path->0,
            home,
        ),
        !rules[i].is_path_rule() ==> remote is Some && remote_pattern_matches(
            rules[i].pattern_view(),
            remote->0,
        ),
{
    assert forall|j: int|
        0 <= j < rules.len() && rules[j].applies(path, remote, home) implies rules[i].priority
        <= rules[j].priority by {
        if j < i {
            assert(!rules[j].applies(path, remote, home));
        }
    }
}

/// What a rule is matched against.
#[derive(Debug)]
pub struct MatchContext {
    pub path: Option<String>,
    pub remote_url: Option<String>,
}

impl MatchContext {
    /// A context with neither path nor remote URL.
    pub fn new() -> (r: MatchContext)
        ensures
            r.path is None,
            r.remote_url is None,
    {
        MatchContext { path: None, remote_url: None }
    }

    pub fn with_path(self, path: String) -> (r: MatchContext)
        ensures
            r.path == Some(path),
            r.remote_url == self.remote_url,
    {
        MatchContext { path: Some(path), remote_url: self.remote_url }
    }

    pub fn with_remote(self, remote: String) -> (r: MatchContext)
        ensures
            r.path == self.path,
            r.remote_url == Some(remote),
    {
        MatchContext { path: self.path, remote_url: Some(remote) }
    }
}

/// Evaluates rules, in their stored order, against a context.
pub struct RuleEngine<'a> {
    pub rules: &'a [Rule],
    /// The directory that a leading `~/` of a path pattern stands for.
    pub home: Option<String>,
}

impl<'a> RuleEngine<'a> {
    /// An engine over `rules`, with `~/` read against the user's home directory.
    pub fn new(rules: &'a [Rule]) -> (r: RuleEngine<'a>)
        ensures
            r.rules@ == rules@,
    {
        RuleEngine { rules, home: home_dir() }
    }

    /// An engine over `rules`, with `~/` read against `home`.
    pub fn with_home(rules: &'a [Rule], home: Option<String>) -> (r: RuleEngine<'a>)
        ensures
            r.rules@ == rules@,
            r.home == home,
    {
        RuleEngine { rules, home }
    }

    /// Whether `rule` applies to `context`: the remote URL is tried first, then the path.
    fn rule_applies(&self, rule: &Rule, context: &MatchContext) -> (r: bool)
        ensures
            r == rule.applies(opt_view(context.path), opt_view(context.remote_url), opt_view(self.home)),
    {
        if !rule.enabled {
            return false;
        }
        match &context.remote_url {
            Some(remote) => {
                if rule.matches_remote(remote.as_str()) {
                    return true;
                }
            },
            None => {},
        }
        match &context.path {
            Some(path) => {
                let home = match &self.home {
                    Some(h) => Some(h.as_str()),
                    None => None,
                };
                rule.matches_path_in(path.as_str(), home)
            },
            None => false,
        }
    }

    /// The first rule, in stored order, that applies to `context`.
    pub fn match_context(&self, context: &MatchContext) -> (r: Option<&'a Rule>)
        ensures
            match r {
                Some(rule) => exists|i: int|
                    first_applicable(
                        self.rules@,
                        opt_view(context.path),
                        opt_view(context.remote_url),
                        opt_view(self.home),
                        i,
                    ) && self.rules@[i] == *rule,
                None => forall|i: int|
                    0 <= i < self.rules@.len() ==> !self.rules@[i].applies(
                        opt_view(context.path),
                        opt_view(context.remote_url),
                        opt_view(self.home),
                    ),
            },
    {
        let rules: &'a [Rule] = self.rules;
        let n = rules.len();
        let mut i: usize = 0;
        while i < n
            invariant
                rules@ == self.rules@,
                n == rules@.len(),
                i <= n,
                forall|j: int|
                    0 <= j < i ==> !rules@[j].applies(
                        opt_view(context.path),
                        opt_view(context.remote_url),
                        opt_view(self.home),
                    ),
            decreases n - i,
        {
            let rule: &'a Rule = &rules[i];
            if self.rule_applies(rule, context) {
                return Some(rule);
            }
            i = i + 1;
        }
        None
    }

    /// Every rule that applies to `context`, in stored order.
    pub fn match_all(&self, context: &MatchContext) -> (r: Vec<&'a Rule>)
        ensures
            r@.len() == applicable_upto(
                self.rules@,
                self.rules@.len() as int,
                opt_view(context.path),
                opt_view(context.remote_url),
                opt_view(self.home),
            ).len(),
            forall|k: int|
                0 <= k < r@.len() ==> *r@[k] == applicable_upto(
                    self.rules@,
                    self.rules@.len() as int,
                    opt_view(context.path),
                    opt_view(context.remote_url),
                    opt_view(self.home),
                )[k],
    {
        let rules: &'a [Rule] = self.rules;
        let n = rules.len();
        let mut out: Vec<&'a Rule> = Vec::new();
        let mut i: usize = 0;
        while i < n
            invariant
                rules@ == self.rules@,
                n == rules@.len(),
                i <= n,
                out@.len() == applicable_upto(
                    rules@,
                    i as int,
                    opt_view(context.path),
                    opt_view(context.remote_url),
                    opt_view(self.home),
                ).len(),
                forall|k: int|
                    0 <= k < out@.len() ==> *out@[k] == applicable_upto(
                        rules@,
                        i as int,
                        opt_view(context.path),
                        opt_view(context.remote_url),
                        opt_view(self.home),
                    )[k],
            decreases n - i,
        {
            let rule: &'a Rule = &rules[i];
            if self.rule_applies(rule, context) {
                out.push(rule);
            }
            i = i + 1;
        }
        out
    }
}

} // verus!
