use vstd::prelude::*;

use crate::config::Config;
use crate::identity::Identity;
use crate::resolve::{resolve_identity, resolved_identity};
use crate::rules::{opt_view, MatchContext, RuleEngine};
use crate::text::str_eq;

verus! {

/// The most commits read from HEAD in one audit.
pub const MAX_AUDIT_COMMITS: usize = 1000;

/// A commit of the history, as the audit reads it.
#[derive(Clone, Debug)]
pub struct CommitInfo {
    /// Abbreviated commit id.
    pub id: String,
    /// First line of the message.
    pub message: String,
    pub author_name: String,
    pub author_email: String,
}

/// Kinds of audit finding.
#[derive(Clone, Copy, Debug, PartialEq, Eq, Hash, Structural)]
pub enum IssueType {
    /// The author matches no stored identity.
    UnknownIdentity,
    /// The author is a stored identity other than the one the repository expects.
    IdentityMismatch,
    /// The author is the least used of several stored identities in the history.
    MixedIdentities,
}

impl IssueType {
    /// The name of the kind, for reports.
    pub fn label(&self) -> (r: &'static str)
        ensures
            *self == IssueType::UnknownIdentity ==> r@ == "Unknown Identity"@,
            *self == IssueType::IdentityMismatch ==> r@ == "Identity Mismatch"@,
            *self == IssueType::MixedIdentities ==> r@ == "Mixed Identities"@,
    {
        match self {
            IssueType::UnknownIdentity => "Unknown Identity",
            IssueType::IdentityMismatch => "Identity Mismatch",
            IssueType::MixedIdentities => "Mixed Identities",
        }
    }
}

/// A finding on one commit.
#[derive(Clone, Debug)]
pub struct AuditIssue {
    pub issue_type: IssueType,
    pub commit_id: String,
    pub message: String,
    pub author_name: String,
    pub author_email: String,
}

/// How often one literal (name, email) pair authored commits.
#[derive(Clone, Debug)]
pub struct IdentityUsage {
    pub name: String,
    pub email: String,
    pub commit_count: usize,
    pub is_known: bool,
    pub identity_id: Option<String>,
}

/// The outcome of auditing one repository.
#[derive(Debug)]
pub struct AuditResult {
    pub repo_path: String,
    pub total_commits: usize,
    pub issues: Vec<AuditIssue>,
    /// One entry per distinct (name, email) pair, in the order first seen.
    pub identities_used: Vec<IdentityUsage>,
}

/// A finding, as plain values.
pub struct IssueView {
    pub kind: IssueType,
    pub commit_id: Seq<char>,
    pub message: Seq<char>,
    pub name: Seq<char>,
    pub email: Seq<char>,
}

/// A usage entry, as plain values.
pub struct UsageView {
    pub name: Seq<char>,
    pub email: Seq<char>,
    pub count: nat,
    pub identity: Option<Seq<char>>,
}

impl AuditIssue {
    pub open spec fn view(self) -> IssueView {
        IssueView {
            kind: self.issue_type,
            commit_id: self.commit_id@,
            message: self.message@,
            name: self.author_name@,
            email: self.author_email@,
        }
    }
}

impl IdentityUsage {
    pub open spec fn view(self) -> UsageView {
        UsageView {
            name: self.name@,
            email: self.email@,
            count: self.commit_count as nat,
            identity: opt_view(self.identity_id),
        }
    }

    pub open spec fn consistent(self) -> bool {
        self.is_known == (self.identity_id is Some)
    }
}

pub open spec fn issue_for(kind: IssueType, c: CommitInfo) -> IssueView {
    IssueView {
        kind,
        commit_id: c.id@,
        message: c.message@,
        name: c.author_name@,
        email: c.author_email@,
    }
}

/// From position `i` on, the id of the first identity with exactly this name and email.
pub open spec fn full_match_from(ids: Seq<Identity>, name: Seq<char>, email: Seq<char>, i: int) -> Option<
    Seq<char>,
>
    decreases ids.len() - i,
{
    if i < 0 || i >= ids.len() {
        None
    } else if ids[i].email@ == email && ids[i].name@ == name {
        Some(ids[i].id@)
    } else {
        full_match_from(ids, name, email, i + 1)
    }
}

/// From position `i` on, the id of the first identity with this email.
pub open spec fn email_match_from(ids: Seq<Identity>, email: Seq<char>, i: int) -> Option<Seq<char>>
    decreases ids.len() - i,
{
    if i < 0 || i >= ids.len() {
        None
    } else if ids[i].email@ == email {
        Some(ids[i].id@)
    } else {
        email_match_from(ids, email, i + 1)
    }
}

/// The stored identity an author is taken for: the first with the same name and
/// email, else the first with the same email, else none.
pub open spec fn known_as(ids: Seq<Identity>, name: Seq<char>, email: Seq<char>) -> Option<
    Seq<char>,
> {
    match full_match_from(ids, name, email, 0) {
        Some(id) => Some(id),
        None => email_match_from(ids, email, 0),
    }
}

/// From position `i` on, where the entry for this pair stands, or the length when none does.
pub open spec fn usage_pos_from(t: Seq<UsageView>, name: Seq<char>, email: Seq<char>, i: int) -> int
    decreases t.len() - i,
{
    if i < 0 || i >= t.len() {
        t.len() as int
    } else if t[i].name == name && t[i].email == email {
        i
    } else {
        usage_pos_from(t, name, email, i + 1)
    }
}

/// The usage table after the first `n` commits.
pub open spec fn usage_table(ids: Seq<Identity>, commits: Seq<CommitInfo>, n: int) -> Seq<
    UsageView,
>
    decreases n,
{
    if n <= 0 {
        Seq::empty()
    } else {
        let t = usage_table(ids, commits, n - 1);
        let c = commits[n - 1];
        let k = usage_pos_from(t, c.author_name@, c.author_email@, 0);
        if k < t.len() {
            t.update(k, UsageView { count: t[k].count + 1, ..t[k] })
        } else {
            t.push(
                UsageView {
                    name: c.author_name@,
                    email: c.author_email@,
                    count: 1,
                    identity: known_as(ids, c.author_name@, c.author_email@),
                },
            )
        }
    }
}

/// The finding, if any, that a commit raises on its own.
pub open spec fn commit_issue(ids: Seq<Identity>, expected: Option<Seq<char>>, c: CommitInfo) -> Option<
    IssueType,
> {
    let k = known_as(ids, c.author_name@, c.author_email@);
    if k is None {
        Some(IssueType::UnknownIdentity)
    } else if expected is Some && k != expected {
        Some(IssueType::IdentityMismatch)
    } else {
        None
    }
}

/// The findings that the first `n` commits raise on their own, in order.
pub open spec fn commit_issues(
    ids: Seq<Identity>,
    expected: Option<Seq<char>>,
    commits: Seq<CommitInfo>,
    n: int,
) -> Seq<IssueView>
    decreases n,
{
    if n <= 0 {
        Seq::empty()
    } else {
        let pre = commit_issues(ids, expected, commits, n - 1);
        match commit_issue(ids, expected, commits[n - 1]) {
            Some(kind) => pre.push(issue_for(kind, commits[n - 1])),
            None => pre,
        }
    }
}

/// How many entries from position `i` on belong to stored identities.
pub open spec fn known_count_from(t: Seq<UsageView>, i: int) -> nat
    decreases t.len() - i,
{
    if i < 0 || i >= t.len() {
        0
    } else {
        known_count_from(t, i + 1) + if t[i].identity is Some {
            1nat
        } else {
            0nat
        }
    }
}

/// Scanning from position `i` with the best entry so far at `best` (`-1`: none), the
/// known entry with the strictly lowest count, the earlier one on a tie.
pub open spec fn least_known_from(t: Seq<UsageView>, i: int, best: int) -> int
    decreases t.len() - i,
{
    if i < 0 || i >= t.len() {
        best
    } else if t[i].identity is Some && (best < 0 || t[i].count < t[best].count) {
        least_known_from(t, i + 1, i)
    } else {
        least_known_from(t, i + 1, best)
    }
}

/// Findings for the first `n` commits authored by this pair.
pub open spec fn mixed_issues(commits: Seq<CommitInfo>, name: Seq<char>, email: Seq<char>, n: int) -> Seq<
    IssueView,
>
    decreases n,
{
    if n <= 0 {
        Seq::empty()
    } else {
        let pre = mixed_issues(commits, name, email, n - 1);
        let c = commits[n - 1];
        if c.author_name@ == name && c.author_email@ == email {
            pre.push(issue_for(IssueType::MixedIdentities, c))
        } else {
            pre
        }
    }
}

/// Every finding of an audit: each commit's own, then, when more than one stored
/// identity authored commits, one for each commit of the least used of them.
pub open spec fn audit_issues(
    ids: Seq<Identity>,
    expected: Option<Seq<char>>,
    commits: Seq<CommitInfo>,
) -> Seq<IssueView> {
    let n = commits.len() as int;
    let t = usage_table(ids, commits, n);
    commit_issues(ids, expected, commits, n) + if known_count_from(t, 0) > 1 {
        let b = least_known_from(t, 0, -1);
        mixed_issues(commits, t[b].name, t[b].email, n)
    } else {
        Seq::empty()
    }
}

pub open spec fn issues_view(v: Seq<AuditIssue>) -> Seq<IssueView> {
    v.map_values(|x: AuditIssue| x.view())
}

pub open spec fn usages_view(v: Seq<IdentityUsage>) -> Seq<UsageView> {
    v.map_values(|x: IdentityUsage| x.view())
}

proof fn lemma_usage_counts_bounded(ids: Seq<Identity>, commits: Seq<CommitInfo>, n: int)
    requires
        0 <= n <= commits.len(),
    ensures
        forall|k: int|
            0 <= k < usage_table(ids, commits, n).len() ==> usage_table(ids, commits, n)[k].count
                <= n,
        usage_table(ids, commits, n).len() <= n,
    decreases n,
{
    if n > 0 {
        lemma_usage_counts_bounded(ids, commits, n - 1);
        let t = usage_table(ids, commits, n - 1);
        let c = commits[n - 1];
        lemma_usage_pos(t, c.author_name@, c.author_email@, 0);
    }
}

fn issue_of(kind: IssueType, c: &CommitInfo) -> (r: AuditIssue)
    ensures
        r.view() == issue_for(kind, *c),
{
    AuditIssue {
        issue_type: kind,
        commit_id: c.id.clone(),
        message: c.message.clone(),
        author_name: c.author_name.clone(),
        author_email: c.author_email.clone(),
    }
}

fn push_issue(v: &mut Vec<AuditIssue>, x: AuditIssue)
    ensures
        issues_view(final(v)@) == issues_view(old(v)@).push(x.view()),
{
    v.push(x);
    assert(issues_view(v@) =~= issues_view(old(v)@).push(x.view()));
}

/// Where the entry for this pair stands in `usages`, if anywhere.
fn usage_position(usages: &Vec<IdentityUsage>, name: &str, email: &str) -> (r: Option<usize>)
    ensures
        match r {
            Some(k) => k == usage_pos_from(usages_view(usages@), name@, email@, 0) && k
                < usages@.len(),
            None => usage_pos_from(usages_view(usages@), name@, email@, 0) == usages@.len(),
        },
{
    let ghost t = usages_view(usages@);
    let n = usages.len();
    let mut i: usize = 0;
    while i < n
        invariant
            n == usages@.len(),
            t == usages_view(usages@),
            i <= n,
            usage_pos_from(t, name@, email@, i as int) == usage_pos_from(t, name@, email@, 0),
        decreases n - i,
    {
        if str_eq(usages[i].name.as_str(), name) && str_eq(usages[i].email.as_str(), email) {
            return Some(i);
        }
        i = i + 1;
    }
    None
}

/// Of several usage entries of stored identities, the one with the strictly lowest
/// count, the earlier one on a tie.
fn least_known(usages: &Vec<IdentityUsage>) -> (r: Option<usize>)
    requires
        forall|k: int| 0 <= k < usages@.len() ==> #[trigger] usages@[k].consistent(),
    ensures
        match r {
            Some(b) => b == least_known_from(usages_view(usages@), 0, -1) && b < usages@.len(),
            None => known_count_from(usages_view(usages@), 0) <= 1,
        },
        known_count_from(usages_view(usages@), 0) > 1 <==> r is Some,
{
    let ghost t = usages_view(usages@);
    let n = usages.len();
    assert(t.len() == n);
    let mut known: usize = 0;
    let mut best: Option<usize> = None;
    let mut i: usize = 0;
    while i < n
        invariant
            n == usages@.len(),
            t == usages_view(usages@),
            forall|k: int| 0 <= k < usages@.len() ==> #[trigger] usages@[k].consistent(),
            i <= n,
            known <= i,
            t.len() == n,
            known > 0 ==> best is Some,
            known + known_count_from(t, i as int) == known_count_from(t, 0),
            match best {
                Some(b) => b < i && t[b as int].identity is Some && least_known_from(
                    t,
                    i as int,
                    b as int,
                ) == least_known_from(t, 0, -1),
                None => least_known_from(t, i as int, -1) == least_known_from(t, 0, -1),
            },
        decreases n - i,
    {
        assert(usages@[i as int].consistent());
        assert(t[i as int] == usages@[i as int].view());
        if let Some(b) = best {
            assert(t[b as int] == usages@[b as int].view());
        }
        if usages[i].is_known {
            known = known + 1;
            match best {
                Some(b) => {
                    if usages[i].commit_count < usages[b].commit_count {
                        best = Some(i);
                    }
                },
                None => {
                    best = Some(i);
                },
            }
        }
        i = i + 1;
    }
    assert(known_count_from(t, n as int) == 0);
    if let Some(b) = best {
        assert(least_known_from(t, n as int, b as int) == b);
    }
    if known > 1 {
        best
    } else {
        None
    }
}

/// Audits a store's identities against commits, most recent first.
pub struct Auditor {
    pub config: Config,
}

impl Auditor {
    /// The stored identity an author is taken for, as (known, id).
    pub fn find_matching_identity(&self, name: &str, email: &str) -> (r: (bool, Option<String>))
        ensures
            r.0 == (r.1 is Some),
            opt_view(r.1) == known_as(self.config.identities@, name@, email@),
    {
        let ids = &self.config.identities;
        let n = ids.len();
        let mut i: usize = 0;
        while i < n
            invariant
                n == ids@.len(),
                ids@ == self.config.identities@,
                i <= n,
                full_match_from(ids@, name@, email@, i as int) == full_match_from(
                    ids@,
                    name@,
                    email@,
                    0,
                ),
            decreases n - i,
        {
            if str_eq(ids[i].email.as_str(), email) && str_eq(ids[i].name.as_str(), name) {
                assert(full_match_from(ids@, name@, email@, i as int) == Some(ids@[i as int].id@));
                let id = ids[i].id.clone();
                assert(id@ == ids@[i as int].id@);
                return (true, Some(id));
            }
            i = i + 1;
        }
        let mut j: usize = 0;
        while j < n
            invariant
                n == ids@.len(),
                ids@ == self.config.identities@,
                j <= n,
                full_match_from(ids@, name@, email@, 0) is None,
                email_match_from(ids@, email@, j as int) == email_match_from(ids@, email@, 0),
            decreases n - j,
        {
            if str_eq(ids[j].email.as_str(), email) {
                assert(email_match_from(ids@, email@, j as int) == Some(ids@[j as int].id@));
                let id = ids[j].id.clone();
                assert(id@ == ids@[j as int].id@);
                return (true, Some(id));
            }
            j = j + 1;
        }
        (false, None)
    }
}

impl Auditor {
    pub fn new(config: Config) -> (r: Auditor)
        ensures
            r.config == config,
    {
        Auditor { config }
    }

    /// Classifies `commits` against the stored identities, `expected` being the
    /// identity the repository should use, if one was determined.
    pub fn audit_commits(&self, commits: &Vec<CommitInfo>, expected: Option<&str>) -> (r: (
        Vec<AuditIssue>,
        Vec<IdentityUsage>,
    ))
        ensures
            issues_view(r.0@) == audit_issues(
                self.config.identities@,
                match expected {
                    Some(e) => Some(e@),
                    None => None,
                },
                commits@,
            ),
            usages_view(r.1@) == usage_table(
                self.config.identities@,
                commits@,
                commits@.len() as int,
            ),
            forall|k: int| 0 <= k < r.1@.len() ==> #[trigger] r.1@[k].consistent(),
    {
        let ghost ids = self.config.identities@;
        let ghost exp = match expected {
            Some(e) => Some(e@),
            None => None,
        };
        let n = commits.len();
        let mut issues: Vec<AuditIssue> = Vec::new();
        let mut usages: Vec<IdentityUsage> = Vec::new();
        let mut i: usize = 0;
        while i < n
            invariant
                n == commits@.len(),
                i <= n,
                ids == self.config.identities@,
                exp == match expected {
                    Some(e) => Some(e@),
                    None => None,
                },
                usages_view(usages@) == usage_table(ids, commits@, i as int),
                issues_view(issues@) == commit_issues(ids, exp, commits@, i as int),
                forall|k: int| 0 <= k < usages@.len() ==> #[trigger] usages@[k].consistent(),
            decreases n - i,
        {
            let c = &commits[i];
            proof {
                lemma_usage_counts_bounded(ids, commits@, i as int);
            }
            let ghost t = usages_view(usages@);
            let pos = usage_position(&usages, c.author_name.as_str(), c.author_email.as_str());
            let k: usize;
            match pos {
                Some(p) => {
                    let ghost before = usages@;
                    assert(before[p as int].consistent());
                    proof {
                        lemma_usage_pos(t, c.author_name@, c.author_email@, 0);
                    }
                    let mut u = usages.remove(p);
                    assert(t[p as int] == u.view());
                    u.commit_count = u.commit_count + 1;
                    usages.insert(p, u);
                    assert(usages@ =~= before.update(p as int, u));
                    assert(usages_view(usages@) =~= t.update(
                        p as int,
                        UsageView { count: t[p as int].count + 1, ..t[p as int] },
                    ));
                    k = p;
                },
                None => {
                    let (is_known, identity_id) = self.find_matching_identity(
                        c.author_name.as_str(),
                        c.author_email.as_str(),
                    );
                    let u = IdentityUsage {
                        name: c.author_name.clone(),
                        email: c.author_email.clone(),
                        commit_count: 1,
                        is_known,
                        identity_id,
                    };
                    k = usages.len();
                    usages.push(u);
                    assert(usages_view(usages@) =~= t.push(u.view()));
                },
            }
            assert(usages@[k as int].consistent());
            proof {
                assert(usages_view(usages@) == usage_table(ids, commits@, i + 1));
                lemma_table_identity(ids, commits@, i + 1);
                assert(usages_view(usages@)[k as int].name == c.author_name@);
                assert(usages_view(usages@)[k as int].email == c.author_email@);
                assert(usages_view(usages@)[k as int] == usages@[k as int].view());
                assert(opt_view(usages@[k as int].identity_id) == known_as(
                    ids,
                    c.author_name@,
                    c.author_email@,
                ));
            }
            let u = &usages[k];
            if !u.is_known {
                push_issue(&mut issues, issue_of(IssueType::UnknownIdentity, c));
            } else {
                match expected {
                    Some(e) => {
                        let same = match &u.identity_id {
                            Some(id) => str_eq(id.as_str(), e),
                            None => false,
                        };
                        if !same {
                            push_issue(&mut issues, issue_of(IssueType::IdentityMismatch, c));
                        }
                    },
                    None => {},
                }
            }
            i = i + 1;
        }
        let ghost first_pass = issues_view(issues@);
        let ghost t = usages_view(usages@);
        match least_known(&usages) {
            Some(b) => {
                let name = usages[b].name.as_str();
                let email = usages[b].email.as_str();
                let mut j: usize = 0;
                while j < n
                    invariant
                        n == commits@.len(),
                        j <= n,
                        t == usages_view(usages@),
                        b < usages@.len(),
                        name@ == t[b as int].name,
                        email@ == t[b as int].email,
                        issues_view(issues@) == first_pass + mixed_issues(
                            commits@,
                            name@,
                            email@,
                            j as int,
                        ),
                    decreases n - j,
                {
                    let c = &commits[j];
                    if str_eq(c.author_name.as_str(), name) && str_eq(
                        c.author_email.as_str(),
                        email,
                    ) {
                        push_issue(&mut issues, issue_of(IssueType::MixedIdentities, c));
                    }
                    j = j + 1;
                }
            },
            None => {
                assert(issues_view(issues@) =~= first_pass + Seq::<IssueView>::empty());
            },
        }
        (issues, usages)
    }
}

proof fn lemma_usage_pos(t: Seq<UsageView>, name: Seq<char>, email: Seq<char>, i: int)
    requires
        0 <= i <= t.len(),
    ensures
        i <= usage_pos_from(t, name, email, i) <= t.len(),
        usage_pos_from(t, name, email, i) < t.len() ==> t[usage_pos_from(t, name, email, i)].name
            == name && t[usage_pos_from(t, name, email, i)].email == email,
    decreases t.len() - i,
{
    if i < t.len() && !(t[i].name == name && t[i].email == email) {
        lemma_usage_pos(t, name, email, i + 1);
    }
}

/// Every entry of the usage table holds the identity its pair is taken for.
proof fn lemma_table_identity(ids: Seq<Identity>, commits: Seq<CommitInfo>, n: int)
    requires
        0 <= n <= commits.len(),
    ensures
        forall|k: int|
            0 <= k < usage_table(ids, commits, n).len() ==> (#[trigger] usage_table(
                ids,
                commits,
                n,
            )[k]).identity == known_as(
                ids,
                usage_table(ids, commits, n)[k].name,
                usage_table(ids, commits, n)[k].email,
            ),
    decreases n,
{
    if n > 0 {
        lemma_table_identity(ids, commits, n - 1);
        let t = usage_table(ids, commits, n - 1);
        let c = commits[n - 1];
        lemma_usage_pos(t, c.author_name@, c.author_email@, 0);
    }
}

impl Auditor {
    /// The identity the repository at `path` is expected to use, `project_identity`
    /// being what its project file declares and `origin_url` its `origin` remote.
    pub fn expected_identity(
        &self,
        path: &str,
        project_identity: Option<&str>,
        origin_url: Option<String>,
        home: Option<String>,
    ) -> (r: Option<String>)
        ensures
            opt_view(r) == resolved_identity(
                match project_identity {
                    Some(p) => Some(p@),
                    None => None,
                },
                self.config.rules@,
                Some(path@),
                opt_view(origin_url),
                opt_view(home),
            ),
    {
        let context = MatchContext::new().with_path(path.to_owned());
        let context = match origin_url {
            Some(remote) => context.with_remote(remote),
            None => context,
        };
        let engine = RuleEngine::with_home(self.config.rules.as_slice(), home);
        resolve_identity(project_identity, &engine, &context)
    }

    /// Audits the repository at `path` from its history, most recent commit first; at
    /// most the first `MAX_AUDIT_COMMITS` commits are read.
    pub fn audit_repo(
        &self,
        path: &str,
        commits: Vec<CommitInfo>,
        project_identity: Option<&str>,
        origin_url: Option<String>,
        home: Option<String>,
    ) -> (r: AuditResult)
        ensures
            r.repo_path@ == path@,
            r.total_commits as int == if commits@.len() > MAX_AUDIT_COMMITS {
                MAX_AUDIT_COMMITS as int
            } else {
                commits@.len() as int
            },
            issues_view(r.issues@) == audit_issues(
                self.config.identities@,
                resolved_identity(
                    match project_identity {
                        Some(p) => Some(p@),
                        None => None,
                    },
                    self.config.rules@,
                    Some(path@),
                    opt_view(origin_url),
                    opt_view(home),
                ),
                commits@.take(r.total_commits as int),
            ),
            usages_view(r.identities_used@) == usage_table(
                self.config.identities@,
                commits@.take(r.total_commits as int),
                r.total_commits as int,
            ),
            forall|k: int|
                0 <= k < r.identities_used@.len() ==> #[trigger] r.identities_used@[k].consistent(),
    {
        let expected = self.expected_identity(path, project_identity, origin_url, home);
        let ghost all = commits@;
        let mut commits = commits;
        if commits.len() > MAX_AUDIT_COMMITS {
            commits.truncate(MAX_AUDIT_COMMITS);
        }
        let total = commits.len();
        assert(commits@ =~= all.take(total as int));
        let (issues, identities_used) = match &expected {
            Some(e) => self.audit_commits(&commits, Some(e.as_str())),
            None => self.audit_commits(&commits, None),
        };
        AuditResult { repo_path: path.to_owned(), total_commits: total, issues, identities_used }
    }
}

proof fn lemma_commit_issues_not_mixed(
    ids: Seq<Identity>,
    expected: Option<Seq<char>>,
    commits: Seq<CommitInfo>,
    n: int,
)
    ensures
        forall|k: int|
            0 <= k < commit_issues(ids, expected, commits, n).len() ==> (#[trigger] commit_issues(
                ids,
                expected,
                commits,
                n,
            )[k]).kind != IssueType::MixedIdentities,
    decreases n,
{
    if n > 0 {
        lemma_commit_issues_not_mixed(ids, expected, commits, n - 1);
    }
}

/// Two commits by one literal (name, email) pair that no stored identity matches are
/// both reported as unknown, nothing else is reported, and they are counted together
/// under one usage entry with a count of two.
pub proof fn lemma_unknown_pair_counted_once(
    ids: Seq<Identity>,
    expected: Option<Seq<char>>,
    c1: CommitInfo,
    c2: CommitInfo,
)
    requires
        c1.author_name@ == c2.author_name@,
        c1.author_email@ == c2.author_email@,
        known_as(ids, c1.author_name@, c1.author_email@) is None,
    ensures
        audit_issues(ids, expected, seq![c1, c2]) == seq![
            issue_for(IssueType::UnknownIdentity, c1),
            issue_for(IssueType::UnknownIdentity, c2),
        ],
        usage_table(ids, seq![c1, c2], 2) == seq![
            UsageView {
                name: c1.author_name@,
                email: c1.author_email@,
                count: 2,
                identity: None,
            },
        ],
{
    let cs = seq![c1, c2];
    assert(cs[0] == c1);
    assert(cs[1] == c2);
    assert(usage_table(ids, cs, 0) =~= Seq::<UsageView>::empty());
    assert(commit_issues(ids, expected, cs, 0) =~= Seq::<IssueView>::empty());
    let t1 = usage_table(ids, cs, 1);
    assert(usage_pos_from(Seq::<UsageView>::empty(), c1.author_name@, c1.author_email@, 0) == 0);
    assert(t1 =~= seq![
        UsageView { name: c1.author_name@, email: c1.author_email@, count: 1, identity: None },
    ]);
    assert(usage_pos_from(t1, c2.author_name@, c2.author_email@, 0) == 0);
    let t2 = usage_table(ids, cs, 2);
    assert(t2 =~= seq![
        UsageView { name: c1.author_name@, email: c1.author_email@, count: 2, identity: None },
    ]);
    assert(known_count_from(t2, 1) == 0);
    assert(known_count_from(t2, 0) == 0);
    assert(commit_issues(ids, expected, cs, 1) =~= seq![issue_for(IssueType::UnknownIdentity, c1)]);
    assert(commit_issues(ids, expected, cs, 2) =~= seq![
        issue_for(IssueType::UnknownIdentity, c1),
        issue_for(IssueType::UnknownIdentity, c2),
    ]);
    assert(audit_issues(ids, expected, cs) =~= seq![
        issue_for(IssueType::UnknownIdentity, c1),
        issue_for(IssueType::UnknownIdentity, c2),
    ]);
}


/// Whether two commits have the same literal author pair.
pub open spec fn same_author(a: CommitInfo, b: CommitInfo) -> bool {
    a.author_name@ == b.author_name@ && a.author_email@ == b.author_email@
}

/// Of three commits, two by one author pair and one by another, all taken for stored
/// identities, exactly the lone commit is reported as the use of mixed identities:
/// the findings are each commit's own (none of that kind) followed by that one.
pub proof fn lemma_minority_identity_flagged(
    ids: Seq<Identity>,
    expected: Option<Seq<char>>,
    commits: Seq<CommitInfo>,
    b: int,
)
    requires
        commits.len() == 3,
        0 <= b < 3,
        forall|i: int, j: int|
            0 <= i < 3 && 0 <= j < 3 && i != b && j != b ==> same_author(commits[i], commits[j]),
        forall|i: int| 0 <= i < 3 && i != b ==> !same_author(commits[i], commits[b]),
        forall|i: int|
            0 <= i < 3 ==> known_as(ids, commits[i].author_name@, commits[i].author_email@) is Some,
    ensures
        audit_issues(ids, expected, commits) == commit_issues(ids, expected, commits, 3) + seq![
            issue_for(IssueType::MixedIdentities, commits[b]),
        ],
        forall|k: int|
            0 <= k < commit_issues(ids, expected, commits, 3).len() ==> (#[trigger] commit_issues(
                ids,
                expected,
                commits,
                3,
            )[k]).kind != IssueType::MixedIdentities,
{
    lemma_commit_issues_not_mixed(ids, expected, commits, 3);
    let c0 = commits[0];
    let c1 = commits[1];
    let c2 = commits[2];
    let e = Seq::<UsageView>::empty();
    assert(usage_table(ids, commits, 0) =~= e);
    assert(usage_pos_from(e, c0.author_name@, c0.author_email@, 0) == 0);
    let u0 = UsageView {
        name: c0.author_name@,
        email: c0.author_email@,
        count: 1,
        identity: known_as(ids, c0.author_name@, c0.author_email@),
    };
    let t1 = usage_table(ids, commits, 1);
    assert(t1 =~= seq![u0]);
    let t2 = usage_table(ids, commits, 2);
    let t3 = usage_table(ids, commits, 3);
    let n = 3int;
    let mb = mixed_issues(commits, commits[b].author_name@, commits[b].author_email@, 3);
    assert(mixed_issues(commits, commits[b].author_name@, commits[b].author_email@, 0)
        =~= Seq::<IssueView>::empty());
    assert(known_as(ids, c0.author_name@, c0.author_email@) is Some);
    assert(known_as(ids, c1.author_name@, c1.author_email@) is Some);
    assert(known_as(ids, c2.author_name@, c2.author_email@) is Some);
    if b == 0 {
        assert(!same_author(c1, c0));
        assert(usage_pos_from(t1, c1.author_name@, c1.author_email@, 1) == 1);
        assert(usage_pos_from(t1, c1.author_name@, c1.author_email@, 0) == 1);
        let u1 = UsageView {
            name: c1.author_name@,
            email: c1.author_email@,
            count: 1,
            identity: known_as(ids, c1.author_name@, c1.author_email@),
        };
        assert(t2 =~= seq![u0, u1]);
        assert(same_author(c1, c2));
        assert(!same_author(c2, c0));
        assert(usage_pos_from(t2, c2.author_name@, c2.author_email@, 1) == 1);
        assert(usage_pos_from(t2, c2.author_name@, c2.author_email@, 0) == 1);
        assert(t3 =~= seq![u0, UsageView { count: 2, ..u1 }]);
        assert(known_count_from(t3, 2) == 0);
        assert(known_count_from(t3, 1) == 1);
        assert(known_count_from(t3, 0) == 2);
        assert(least_known_from(t3, 2, 0) == 0);
        assert(least_known_from(t3, 1, 0) == 0);
        assert(least_known_from(t3, 0, -1) == 0);
        let nb = commits[b].author_name@;
        let eb = commits[b].author_email@;
        assert(mixed_issues(commits, nb, eb, 1) =~= seq![issue_for(IssueType::MixedIdentities, c0)]);
        assert(mixed_issues(commits, nb, eb, 2) =~= seq![issue_for(IssueType::MixedIdentities, c0)]);
        assert(mb =~= seq![issue_for(IssueType::MixedIdentities, commits[b])]);
    } else if b == 1 {
        assert(!same_author(c0, c1));
        assert(usage_pos_from(t1, c1.author_name@, c1.author_email@, 1) == 1);
        assert(usage_pos_from(t1, c1.author_name@, c1.author_email@, 0) == 1);
        let u1 = UsageView {
            name: c1.author_name@,
            email: c1.author_email@,
            count: 1,
            identity: known_as(ids, c1.author_name@, c1.author_email@),
        };
        assert(t2 =~= seq![u0, u1]);
        assert(same_author(c0, c2));
        assert(usage_pos_from(t2, c2.author_name@, c2.author_email@, 0) == 0);
        assert(t3 =~= seq![UsageView { count: 2, ..u0 }, u1]);
        assert(known_count_from(t3, 2) == 0);
        assert(known_count_from(t3, 1) == 1);
        assert(known_count_from(t3, 0) == 2);
        assert(least_known_from(t3, 2, 1) == 1);
        assert(least_known_from(t3, 1, 0) == 1);
        assert(least_known_from(t3, 0, -1) == 1);
        let nb = commits[b].author_name@;
        let eb = commits[b].author_email@;
        assert(!same_author(c2, c1));
        assert(mixed_issues(commits, nb, eb, 1) =~= Seq::<IssueView>::empty());
        assert(mixed_issues(commits, nb, eb, 2) =~= seq![issue_for(IssueType::MixedIdentities, c1)]);
        assert(mb =~= seq![issue_for(IssueType::MixedIdentities, commits[b])]);
    } else {
        assert(same_author(c0, c1));
        assert(!same_author(c1, c2));
        assert(usage_pos_from(t1, c1.author_name@, c1.author_email@, 0) == 0);
        assert(t2 =~= seq![UsageView { count: 2, ..u0 }]);
        assert(!same_author(c0, c2));
        assert(usage_pos_from(t2, c2.author_name@, c2.author_email@, 1) == 1);
        assert(usage_pos_from(t2, c2.author_name@, c2.author_email@, 0) == 1);
        let u2 = UsageView {
            name: c2.author_name@,
            email: c2.author_email@,
            count: 1,
            identity: known_as(ids, c2.author_name@, c2.author_email@),
        };
        assert(t3 =~= seq![UsageView { count: 2, ..u0 }, u2]);
        assert(known_count_from(t3, 2) == 0);
        assert(known_count_from(t3, 1) == 1);
        assert(known_count_from(t3, 0) == 2);
        assert(least_known_from(t3, 2, 1) == 1);
        assert(least_known_from(t3, 1, 0) == 1);
        assert(least_known_from(t3, 0, -1) == 1);
        let nb = commits[b].author_name@;
        let eb = commits[b].author_email@;
        assert(mixed_issues(commits, nb, eb, 1) =~= Seq::<IssueView>::empty());
        assert(mixed_issues(commits, nb, eb, 2) =~= Seq::<IssueView>::empty());
        assert(mb =~= seq![issue_for(IssueType::MixedIdentities, commits[b])]);
    }
}


} // verus!
