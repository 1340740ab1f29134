use vstd::prelude::*;

use crate::config::{first_with_id, has_id, Config};
use crate::identity::Identity;
use crate::rules::opt_view;
use crate::text::str_eq;

verus! {

/// A problem with the identity in effect.
#[derive(Clone, Copy, Debug, PartialEq, Eq, Structural)]
pub enum DoctorIssue {
    /// `user.name` or `user.email` is not set.
    UserNotConfigured,
    /// The name and email in effect are not those of any stored identity.
    CurrentNotConfigured,
    /// The identity in effect is not the one the project file names.
    ProjectMismatch,
    /// The project file names an identity that is not stored.
    ProjectIdentityMissing,
    /// The identity in effect is not the one the matching rule names.
    RuleMismatch,
}

/// Whether some identity has exactly this name and email.
pub open spec fn is_stored_pair(ids: Seq<Identity>, name: Seq<char>, email: Seq<char>) -> bool {
    exists|i: int| 0 <= i < ids.len() && ids[i].name@ == name && ids[i].email@ == email
}

pub open spec fn opt_str(o: Option<&str>) -> Option<Seq<char>> {
    match o {
        Some(s) => Some(s@),
        None => None,
    }
}

/// The first finding, on the identity in effect.
pub open spec fn current_issue(ids: Seq<Identity>, name: Option<Seq<char>>, email: Option<Seq<char>>) -> Seq<DoctorIssue> {
    if name is Some && email is Some {
        if is_stored_pair(ids, name->0, email->0) {
            Seq::empty()
        } else {
            seq![DoctorIssue::CurrentNotConfigured]
        }
    } else {
        seq![DoctorIssue::UserNotConfigured]
    }
}

/// Whether the stored identity `id` is the one in effect; `None` when no identity
/// has that id.
pub open spec fn stored_match(
    ids: Seq<Identity>,
    name: Option<Seq<char>>,
    email: Option<Seq<char>>,
    id: Seq<char>,
) -> Option<bool> {
    if !has_id(ids, id) {
        None
    } else {
        let i = choose|i: int| first_with_id(ids, id, i);
        Some(name == Some(ids[i].name@) && email == Some(ids[i].email@))
    }
}

/// The finding on the identity the project file names.
pub open spec fn project_issue(
    ids: Seq<Identity>,
    name: Option<Seq<char>>,
    email: Option<Seq<char>>,
    project: Option<Seq<char>>,
) -> Seq<DoctorIssue> {
    match project {
        None => Seq::empty(),
        Some(id) => match stored_match(ids, name, email, id) {
            None => seq![DoctorIssue::ProjectIdentityMissing],
            Some(true) => Seq::empty(),
            Some(false) => seq![DoctorIssue::ProjectMismatch],
        },
    }
}

/// The finding on the identity the matching rule names; a rule naming an identity
/// that is not stored raises none.
pub open spec fn rule_issue(
    ids: Seq<Identity>,
    name: Option<Seq<char>>,
    email: Option<Seq<char>>,
    rule: Option<Seq<char>>,
) -> Seq<DoctorIssue> {
    match rule {
        Some(id) => if stored_match(ids, name, email, id) == Some(false) {
            seq![DoctorIssue::RuleMismatch]
        } else {
            Seq::empty()
        },
        None => Seq::empty(),
    }
}

/// The identity to switch to: the project file's when it is stored but not in effect,
/// else the rule's on the same terms.
pub open spec fn suggestion(
    ids: Seq<Identity>,
    name: Option<Seq<char>>,
    email: Option<Seq<char>>,
    project: Option<Seq<char>>,
    rule: Option<Seq<char>>,
) -> Option<Seq<char>> {
    if project is Some && stored_match(ids, name, email, project->0) == Some(false) {
        project
    } else if rule is Some && stored_match(ids, name, email, rule->0) == Some(false) {
        rule
    } else {
        None
    }
}

fn stored_pair(ids: &Vec<Identity>, name: &str, email: &str) -> (r: bool)
    ensures
        r == is_stored_pair(ids@, name@, email@),
{
    let n = ids.len();
    let mut i: usize = 0;
    while i < n
        invariant
            n == ids@.len(),
            i <= n,
            forall|j: int| 0 <= j < i ==> !(ids@[j].name@ == name@ && ids@[j].email@ == email@),
        decreases n - i,
    {
        if str_eq(ids[i].name.as_str(), name) && str_eq(ids[i].email.as_str(), email) {
            return true;
        }
        i = i + 1;
    }
    false
}

fn same(a: Option<&str>, b: &str) -> (r: bool)
    ensures
        r == (opt_str(a) == Some(b@)),
{
    match a {
        Some(x) => str_eq(x, b),
        None => false,
    }
}

/// Whether the stored identity `id` is the one in effect.
fn check_stored(config: &Config, name: Option<&str>, email: Option<&str>, id: &str) -> (r: Option<bool>)
    ensures
        r == stored_match(config.identities@, opt_str(name), opt_str(email), id@),
{
    match config.find_identity(id) {
        None => None,
        Some(identity) => {
            proof {
                let ids = config.identities@;
                let k = choose|k: int| first_with_id(ids, id@, k) && ids[k] == *identity;
                let j = choose|j: int| first_with_id(ids, id@, j);
                if k < j {
                    assert(ids[k].id@ != id@);
                }
                if j < k {
                    assert(ids[j].id@ != id@);
                }
            }
            Some(same(name, identity.name.as_str()) && same(email, identity.email.as_str()))
        },
    }
}

/// Checks the name and email in effect against the store, against the identity the
/// directory's project file names, and against that of the first matching rule.
/// Returns the findings, in that order, and the identity to switch to.
pub fn diagnose(
    config: &Config,
    name: Option<&str>,
    email: Option<&str>,
    project_identity: Option<&str>,
    rule_identity: Option<&str>,
) -> (r: (Vec<DoctorIssue>, Option<String>))
    ensures
        r.0@ == current_issue(config.identities@, opt_str(name), opt_str(email)) + project_issue(
            config.identities@,
            opt_str(name),
            opt_str(email),
            opt_str(project_identity),
        ) + rule_issue(config.identities@, opt_str(name), opt_str(email), opt_str(rule_identity)),
        opt_view(r.1) == suggestion(
            config.identities@,
            opt_str(name),
            opt_str(email),
            opt_str(project_identity),
            opt_str(rule_identity),
        ),
{
    let ghost ids = config.identities@;
    let ghost n = opt_str(name);
    let ghost e = opt_str(email);
    let mut issues: Vec<DoctorIssue> = Vec::new();
    match (name, email) {
        (Some(nm), Some(em)) => {
            if !stored_pair(&config.identities, nm, em) {
                issues.push(DoctorIssue::CurrentNotConfigured);
            }
        },
        _ => {
            issues.push(DoctorIssue::UserNotConfigured);
        },
    }
    let ghost first = issues@;
    assert(first =~= current_issue(ids, n, e));
    let mut switch_to: Option<String> = None;
    match project_identity {
        None => {},
        Some(id) => match check_stored(config, name, email, id) {
            None => {
                issues.push(DoctorIssue::ProjectIdentityMissing);
            },
            Some(true) => {},
            Some(false) => {
                issues.push(DoctorIssue::ProjectMismatch);
                switch_to = Some(id.to_owned());
            },
        },
    }
    let ghost second = issues@;
    assert(second =~= first + project_issue(ids, n, e, opt_str(project_identity)));
    match rule_identity {
        None => {},
        Some(id) => {
            if check_stored(config, name, email, id) == Some(false) {
                issues.push(DoctorIssue::RuleMismatch);
                if switch_to.is_none() {
                    switch_to = Some(id.to_owned());
                }
            }
        },
    }
    assert(issues@ =~= second + rule_issue(ids, n, e, opt_str(rule_identity)));
    (issues, switch_to)
}

} // verus!
