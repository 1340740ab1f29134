use vstd::prelude::*;

use crate::config::{first_with_id, has_id, Config};
use crate::identity::Identity;
use crate::text::str_eq;

verus! {

/// Why a commit fix is refused.
#[derive(Clone, Copy, Debug, PartialEq, Eq, Structural)]
pub enum FixError {
    /// The working tree has changes that are not committed.
    UncommittedChanges,
    /// No identity was named and the current email is not set.
    CurrentEmailUnknown,
    /// No identity was named and none has the current email.
    CurrentIdentityNotConfigured,
    /// The named identity is not stored.
    IdentityNotFound,
    /// A single commit other than `HEAD` was named; that takes a range.
    NotHead,
    /// A range was expected and a single revision was given.
    NotARange,
}

/// What a commit fix is to do.
#[derive(Debug)]
pub enum FixPlan<'a> {
    /// Rewrite the author of `HEAD`.
    Head { identity: &'a Identity },
    /// Report what rewriting a range would touch; no commit is rewritten.
    Range { identity: &'a Identity, range: String },
}

/// The contents of a commit, as the fix sees them.
#[derive(Clone, Debug)]
pub struct CommitRecord {
    pub tree: String,
    pub parents: Vec<String>,
    pub author_name: String,
    pub author_email: String,
    pub committer_name: String,
    pub committer_email: String,
    pub message: String,
}

/// A commit's contents, as plain values.
pub struct CommitView {
    pub tree: Seq<char>,
    pub parents: Seq<Seq<char>>,
    pub author_name: Seq<char>,
    pub author_email: Seq<char>,
    pub committer_name: Seq<char>,
    pub committer_email: Seq<char>,
    pub message: Seq<char>,
}

impl CommitRecord {
    pub open spec fn view(self) -> CommitView {
        CommitView {
            tree: self.tree@,
            parents: self.parents@.map_values(|p: String| p@),
            author_name: self.author_name@,
            author_email: self.author_email@,
            committer_name: self.committer_name@,
            committer_email: self.committer_email@,
            message: self.message@,
        }
    }
}

/// Where `HEAD` points.
#[derive(Clone, Debug)]
pub enum HeadRef {
    /// On a branch, by its full reference name.
    Branch(String),
    Detached,
}

/// The reference moved to the new commit: the branch `HEAD` is on, or `HEAD` itself.
pub fn head_update(head: &HeadRef) -> (r: HeadRef)
    ensures
        match *head {
            HeadRef::Branch(b) => r matches HeadRef::Branch(c) && c@ == b@,
            HeadRef::Detached => r is Detached,
        },
{
    match head {
        HeadRef::Branch(b) => HeadRef::Branch(b.clone()),
        HeadRef::Detached => HeadRef::Detached,
    }
}

/// A commit with its author replaced by `identity`; all else is kept.
pub open spec fn rewritten(c: CommitView, identity: Identity) -> CommitView {
    CommitView { author_name: identity.name@, author_email: identity.email@, ..c }
}

/// After a fix of `HEAD` to an identity, the commit's author name and email are the
/// identity's, and its tree, parents, committer and message are the original's.
pub proof fn lemma_fix_effect(c: CommitView, identity: Identity)
    ensures
        rewritten(c, identity).author_name == identity.name@,
        rewritten(c, identity).author_email == identity.email@,
        rewritten(c, identity).tree == c.tree,
        rewritten(c, identity).parents == c.parents,
        rewritten(c, identity).committer_name == c.committer_name,
        rewritten(c, identity).committer_email == c.committer_email,
        rewritten(c, identity).message == c.message,
{
}

fn copy_strings(v: &Vec<String>) -> (r: Vec<String>)
    ensures
        r@.map_values(|p: String| p@) == v@.map_values(|p: String| p@),
{
    let n = v.len();
    let mut out: Vec<String> = Vec::new();
    let mut i: usize = 0;
    while i < n
        invariant
            n == v@.len(),
            i <= n,
            out@.len() == i,
            forall|k: int| 0 <= k < i ==> out@[k]@ == v@[k]@,
        decreases n - i,
    {
        out.push(v[i].clone());
        i = i + 1;
    }
    assert(out@.map_values(|p: String| p@) =~= v@.map_values(|p: String| p@));
    out
}

/// The commit that replaces `original`: same tree, parents, committer and message,
/// with `identity` as its author.
pub fn rewrite_author(original: &CommitRecord, identity: &Identity) -> (r: CommitRecord)
    ensures
        r.view() == rewritten(original.view(), *identity),
{
    CommitRecord {
        tree: original.tree.clone(),
        parents: copy_strings(&original.parents),
        author_name: identity.name.clone(),
        author_email: identity.email.clone(),
        committer_name: original.committer_name.clone(),
        committer_email: original.committer_email.clone(),
        message: original.message.clone(),
    }
}

/// Whether some identity has the email `email`.
pub open spec fn has_email(ids: Seq<Identity>, email: Seq<char>) -> bool {
    exists|i: int| 0 <= i < ids.len() && ids[i].email@ == email
}

/// Whether `ids[i]` is the first identity with the email `email`.
pub open spec fn first_with_email(ids: Seq<Identity>, email: Seq<char>, i: int) -> bool {
    0 <= i < ids.len() && ids[i].email@ == email && forall|j: int|
        0 <= j < i ==> ids[j].email@ != email
}

fn position_of_email(ids: &Vec<Identity>, email: &str) -> (r: Option<usize>)
    ensures
        match r {
            Some(i) => first_with_email(ids@, email@, i as int),
            None => !has_email(ids@, email@),
        },
{
    let n = ids.len();
    let mut i: usize = 0;
    while i < n
        invariant
            n == ids@.len(),
            i <= n,
            forall|j: int| 0 <= j < i ==> ids@[j].email@ != email@,
        decreases n - i,
    {
        if str_eq(ids[i].email.as_str(), email) {
            return Some(i);
        }
        i = i + 1;
    }
    None
}

/// The id the fix uses: the one named, else that of the first identity with the
/// current email.
pub open spec fn chosen_id(
    ids: Seq<Identity>,
    identity_id: Option<Seq<char>>,
    current_email: Option<Seq<char>>,
) -> Result<Seq<char>, FixError> {
    match identity_id {
        Some(id) => Ok(id),
        None => match current_email {
            None => Err(FixError::CurrentEmailUnknown),
            Some(e) => if has_email(ids, e) {
                Ok(ids[choose|i: int| first_with_email(ids, e, i)].id@)
            } else {
                Err(FixError::CurrentIdentityNotConfigured)
            },
        },
    }
}

proof fn lemma_first_with_email_unique(ids: Seq<Identity>, e: Seq<char>, i: int, j: int)
    requires
        first_with_email(ids, e, i),
        first_with_email(ids, e, j),
    ensures
        i == j,
{
    if i < j {
        assert(ids[i].email@ != e);
    }
    if j < i {
        assert(ids[j].email@ != e);
    }
}

/// Decides what a commit fix does, before anything is written: a dirty working tree
/// refuses it first; then the identity is chosen; then the target is checked. With
/// `range` given, `commit_ref` is not looked at.
pub fn plan_fix<'a>(
    config: &'a Config,
    has_uncommitted_changes: bool,
    identity_id: Option<&str>,
    current_email: Option<&str>,
    commit_ref: &str,
    range: Option<&str>,
) -> (r: Result<FixPlan<'a>, FixError>)
    ensures
        has_uncommitted_changes ==> r == Err::<FixPlan<'a>, FixError>(FixError::UncommittedChanges),
        !has_uncommitted_changes ==> match chosen_id(
            config.identities@,
            match identity_id {
                Some(i) => Some(i@),
                None => None,
            },
            match current_email {
                Some(e) => Some(e@),
                None => None,
            },
        ) {
            Err(e) => r == Err::<FixPlan<'a>, FixError>(e),
            Ok(id) => if !has_id(config.identities@, id) {
                r == Err::<FixPlan<'a>, FixError>(FixError::IdentityNotFound)
            } else {
                match range {
                    Some(rg) => r matches Ok(FixPlan::Range { identity, range: s }) && s@ == rg@
                        && exists|i: int|
                        first_with_id(config.identities@, id, i) && config.identities@[i]
                            == *identity,
                    None => if commit_ref@ != seq!['H', 'E', 'A', 'D'] {
                        r == Err::<FixPlan<'a>, FixError>(FixError::NotHead)
                    } else {
                        r matches Ok(FixPlan::Head { identity }) && exists|i: int|
                            first_with_id(config.identities@, id, i) && config.identities@[i]
                                == *identity
                    },
                }
            },
        },
{
    if has_uncommitted_changes {
        return Err(FixError::UncommittedChanges);
    }
    let id: String = match identity_id {
        Some(i) => i.to_owned(),
        None => match current_email {
            None => {
                return Err(FixError::CurrentEmailUnknown);
            },
            Some(e) => match position_of_email(&config.identities, e) {
                Some(k) => {
                    proof {
                        let j = choose|j: int| first_with_email(config.identities@, e@, j);
                        lemma_first_with_email_unique(config.identities@, e@, k as int, j);
                    }
                    config.identities[k].id.clone()
                },
                None => {
                    return Err(FixError::CurrentIdentityNotConfigured);
                },
            },
        },
    };
    let identity = match config.find_identity(id.as_str()) {
        Some(x) => x,
        None => {
            return Err(FixError::IdentityNotFound);
        },
    };
    match range {
        Some(rg) => Ok(FixPlan::Range { identity, range: rg.to_owned() }),
        None => {
            proof {
                reveal_strlit("HEAD");
                assert("HEAD"@ =~= seq!['H', 'E', 'A', 'D']);
            }
            if !str_eq(commit_ref, "HEAD") {
                return Err(FixError::NotHead);
            }
            Ok(FixPlan::Head { identity })
        },
    }
}

/// What the range path reports.
#[derive(Clone, Copy, Debug, PartialEq, Eq, Structural)]
pub enum RangeOutcome {
    /// The range holds no commit.
    NoCommits,
    /// The range holds `count` commits; rewriting them is not carried out.
    NotRewritten { count: usize },
}

/// Checks a range request and says what is reported: a single revision is refused,
/// and a range is never rewritten.
pub fn range_outcome(is_single_revision: bool, commit_count: usize) -> (r: Result<
    RangeOutcome,
    FixError,
>)
    ensures
        is_single_revision ==> r == Err::<RangeOutcome, FixError>(FixError::NotARange),
        !is_single_revision && commit_count == 0 ==> r == Ok::<RangeOutcome, FixError>(
            RangeOutcome::NoCommits,
        ),
        !is_single_revision && commit_count > 0 ==> r == Ok::<RangeOutcome, FixError>(
            RangeOutcome::NotRewritten { count: commit_count },
        ),
{
    if is_single_revision {
        return Err(FixError::NotARange);
    }
    if commit_count == 0 {
        Ok(RangeOutcome::NoCommits)
    } else {
        Ok(RangeOutcome::NotRewritten { count: commit_count })
    }
}

} // verus!
