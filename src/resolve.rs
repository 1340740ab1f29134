use vstd::prelude::*;

use crate::rules::{first_applicable, opt_view, MatchContext, Rule, RuleEngine};

verus! {

/// The identity that a directory resolves to: the project file's identity when one
/// is present, else the identity of the first rule that applies, else none.
pub open spec fn resolved_identity(
    project_identity: Option<Seq<char>>,
    rules: Seq<Rule>,
    path: Option<Seq<char>>,
    remote: Option<Seq<char>>,
    home: Option<Seq<char>>,
) -> Option<Seq<char>> {
    if project_identity is Some {
        project_identity
    } else if exists|i: int| first_applicable(rules, path, remote, home, i) {
        let i = choose|i: int| first_applicable(rules, path, remote, home, i);
        Some(rules[i].identity@)
    } else {
        None
    }
}

/// At most one rule is the first that applies.
pub proof fn lemma_first_applicable_unique(
    rules: Seq<Rule>,
    path: Option<Seq<char>>,
    remote: Option<Seq<char>>,
    home: Option<Seq<char>>,
    i: int,
    j: int,
)
    requires
        first_applicable(rules, path, remote, home, i),
        first_applicable(rules, path, remote, home, j),
    ensures
        i == j,
{
    if i < j {
        assert(!rules[i].applies(path, remote, home));
    }
    if j < i {
        assert(!rules[j].applies(path, remote, home));
    }
}

/// A project file pre-empts the rules: whatever rule would apply, a directory with a
/// project file resolves to the project file's identity.
pub proof fn lemma_project_config_wins(
    project_identity: Seq<char>,
    rules: Seq<Rule>,
    path: Option<Seq<char>>,
    remote: Option<Seq<char>>,
    home: Option<Seq<char>>,
    i: int,
)
    requires
        first_applicable(rules, path, remote, home, i),
    ensures
        resolved_identity(Some(project_identity), rules, path, remote, home) == Some(
            project_identity,
        ),
{
}

/// Without a project file, a directory resolves to the identity of the first rule
/// that applies.
pub proof fn lemma_first_rule_decides(
    rules: Seq<Rule>,
    path: Option<Seq<char>>,
    remote: Option<Seq<char>>,
    home: Option<Seq<char>>,
    i: int,
)
    requires
        first_applicable(rules, path, remote, home, i),
    ensures
        resolved_identity(None, rules, path, remote, home) == Some(rules[i].identity@),
{
    let j = choose|j: int| first_applicable(rules, path, remote, home, j);
    lemma_first_applicable_unique(rules, path, remote, home, i, j);
}

/// Resolves the identity for `context`: `project_identity` (what the directory's
/// project file declares) when present, else the first rule of `engine` that applies.
pub fn resolve_identity(
    project_identity: Option<&str>,
    engine: &RuleEngine,
    context: &MatchContext,
) -> (r: Option<String>)
    ensures
        opt_view(r) == resolved_identity(
            match project_identity {
                Some(p) => Some(p@),
                None => None,
            },
            engine.rules@,
            opt_view(context.path),
            opt_view(context.remote_url),
            opt_view(engine.home),
        ),
{
    match project_identity {
        Some(p) => Some(p.to_owned()),
        None => match engine.match_context(context) {
            Some(rule) => {
                proof {
                    let i = choose|i: int|
                        first_applicable(
                            engine.rules@,
                            opt_view(context.path),
                            opt_view(context.remote_url),
                            opt_view(engine.home),
                            i,
                        ) && engine.rules@[i] == *rule;
                    lemma_first_rule_decides(
                        engine.rules@,
                        opt_view(context.path),
                        opt_view(context.remote_url),
                        opt_view(engine.home),
                        i,
                    );
                }
                Some(rule.identity.clone())
            },
            None => None,
        },
    }
}

} // verus!
