use vstd::prelude::*;

use crate::identity::Identity;
use crate::rules::{sorted_by_priority, Rule};
use crate::text::str_eq;

verus! {

/// Preferences of the tool itself.
#[derive(Clone, Debug)]
pub struct Settings {
    pub verbose: bool,
    pub color: bool,
    pub auto_switch: bool,
    pub pre_commit_check: bool,
    pub strict_mode: bool,
    pub editor: Option<String>,
    pub hooks_path: Option<String>,
}

impl Default for Settings {
    fn default() -> (r: Settings)
        ensures
            r.verbose && r.color && !r.auto_switch && r.pre_commit_check && !r.strict_mode,
            r.editor is None && r.hooks_path is None,
    {
        Settings {
            verbose: true,
            color: true,
            auto_switch: false,
            pre_commit_check: true,
            strict_mode: false,
            editor: None,
            hooks_path: None,
        }
    }
}

/// Why a change to the store is refused.
#[derive(Clone, Copy, Debug, PartialEq, Eq, Structural)]
pub enum ConfigError {
    /// An identity with that id is already stored.
    DuplicateIdentity,
    /// No identity with that id is stored.
    IdentityNotFound,
    /// No rule stands at that index.
    RuleIndexOutOfRange,
}

/// The identity store: identities, rules in ascending priority, and settings.
#[derive(Clone, Debug)]
pub struct Config {
    pub identities: Vec<Identity>,
    pub rules: Vec<Rule>,
    pub settings: Settings,
}

/// `s` with `r` placed after every rule whose priority is at most its own, counting
/// from the end: in a sorted sequence, after all rules of equal priority.
pub open spec fn insert_by_priority(s: Seq<Rule>, r: Rule) -> Seq<Rule>
    decreases s.len(),
{
    if s.len() == 0 {
        seq![r]
    } else if s.last().priority <= r.priority {
        s.push(r)
    } else {
        insert_by_priority(s.drop_last(), r).push(s.last())
    }
}

/// Stable sort by priority: rules of equal priority keep their relative order.
pub open spec fn sort_by_priority(s: Seq<Rule>) -> Seq<Rule>
    decreases s.len(),
{
    if s.len() == 0 {
        s
    } else {
        insert_by_priority(sort_by_priority(s.drop_last()), s.last())
    }
}

/// Whether some identity in `ids` has the id `id`.
pub open spec fn has_id(ids: Seq<Identity>, id: Seq<char>) -> bool {
    exists|i: int| 0 <= i < ids.len() && ids[i].id@ == id
}

/// Whether `ids[i]` is the first identity with the id `id`.
pub open spec fn first_with_id(ids: Seq<Identity>, id: Seq<char>, i: int) -> bool {
    0 <= i < ids.len() && ids[i].id@ == id && forall|j: int| 0 <= j < i ==> ids[j].id@ != id
}

/// The identities of `base` followed by those of `incoming.take(n)` whose id is
/// not yet present, in order.
pub open spec fn merged_identities(base: Seq<Identity>, incoming: Seq<Identity>, n: int) -> Seq<
    Identity,
>
    decreases n,
{
    if n <= 0 {
        base
    } else {
        let m = merged_identities(base, incoming, n - 1);
        if has_id(m, incoming[n - 1].id@) {
            m
        } else {
            m.push(incoming[n - 1])
        }
    }
}

/// The rules of `base` after the rules of `incoming.take(n)` were added one by one.
pub open spec fn rules_after_adding(base: Seq<Rule>, incoming: Seq<Rule>, n: int) -> Seq<Rule>
    decreases n,
{
    if n <= 0 {
        base
    } else {
        sort_by_priority(rules_after_adding(base, incoming, n - 1).push(incoming[n - 1]))
    }
}

proof fn lemma_insert_len(s: Seq<Rule>, r: Rule)
    ensures
        insert_by_priority(s, r).len() == s.len() + 1,
    decreases s.len(),
{
    if s.len() > 0 && s.last().priority > r.priority {
        lemma_insert_len(s.drop_last(), r);
    }
}

proof fn lemma_insert_bounded(s: Seq<Rule>, r: Rule, b: u32)
    requires
        forall|i: int| 0 <= i < s.len() ==> s[i].priority <= b,
        r.priority <= b,
    ensures
        forall|i: int|
            0 <= i < insert_by_priority(s, r).len() ==> insert_by_priority(s, r)[i].priority <= b,
    decreases s.len(),
{
    if s.len() > 0 && s.last().priority > r.priority {
        lemma_insert_bounded(s.drop_last(), r, b);
    }
}

proof fn lemma_insert_sorted(s: Seq<Rule>, r: Rule)
    requires
        sorted_by_priority(s),
    ensures
        sorted_by_priority(insert_by_priority(s, r)),
    decreases s.len(),
{
    if s.len() > 0 && s.last().priority > r.priority {
        let t = s.drop_last();
        lemma_insert_sorted(t, r);
        lemma_insert_bounded(t, r, s.last().priority);
        lemma_insert_len(t, r);
    }
}

/// A stable sort by priority yields rules in ascending priority.
pub proof fn lemma_sort_sorted(s: Seq<Rule>)
    ensures
        sorted_by_priority(sort_by_priority(s)),
        sort_by_priority(s).len() == s.len(),
    decreases s.len(),
{
    if s.len() > 0 {
        lemma_sort_sorted(s.drop_last());
        lemma_insert_sorted(sort_by_priority(s.drop_last()), s.last());
        lemma_insert_len(sort_by_priority(s.drop_last()), s.last());
    }
}

/// Inserting at the position found by scanning back past higher priorities.
proof fn lemma_insert_split(s: Seq<Rule>, r: Rule, k: int)
    requires
        0 <= k <= s.len(),
        forall|j: int| k <= j < s.len() ==> s[j].priority > r.priority,
        k == 0 || s[k - 1].priority <= r.priority,
    ensures
        insert_by_priority(s, r) == s.take(k).push(r) + s.skip(k),
    decreases s.len(),
{
    if s.len() == k {
        if k == 0 {
            assert(s.take(k).push(r) + s.skip(k) =~= seq![r]);
        } else {
            assert(s.take(k).push(r) + s.skip(k) =~= s.push(r));
        }
    } else {
        let t = s.drop_last();
        lemma_insert_split(t, r, k);
        assert(t.take(k).push(r) + t.skip(k) + seq![s.last()] =~= s.take(k).push(r) + s.skip(k));
        assert((t.take(k).push(r) + t.skip(k)).push(s.last()) =~= t.take(k).push(r) + t.skip(k)
            + seq![s.last()]);
    }
}

/// Places `r` into `v` as `insert_by_priority` says.
fn insert_rule(v: &mut Vec<Rule>, r: Rule)
    ensures
        final(v)@ == insert_by_priority(old(v)@, r),
{
    let mut k: usize = v.len();
    while k > 0 && v[k - 1].priority > r.priority
        invariant
            k <= v@.len(),
            forall|j: int| k <= j < v@.len() ==> v@[j].priority > r.priority,
        decreases k,
    {
        k = k - 1;
    }
    proof {
        lemma_insert_split(v@, r, k as int);
    }
    let ghost before = v@;
    v.insert(k, r);
    assert(v@ =~= before.take(k as int).push(r) + before.skip(k as int));
}

impl Config {
    /// An empty store with default settings.
    pub fn new() -> (r: Config)
        ensures
            r.identities@.len() == 0,
            r.rules@.len() == 0,
            r.settings.verbose && r.settings.color && !r.settings.auto_switch
                && r.settings.pre_commit_check && !r.settings.strict_mode,
            r.settings.editor is None && r.settings.hooks_path is None,
    {
        Config { identities: Vec::new(), rules: Vec::new(), settings: Settings::default() }
    }

    fn position_of(&self, id: &str) -> (r: Option<usize>)
        ensures
            match r {
                Some(i) => first_with_id(self.identities@, id@, i as int),
                None => !has_id(self.identities@, id@),
            },
    {
        let n = self.identities.len();
        let mut i: usize = 0;
        while i < n
            invariant
                n == self.identities@.len(),
                i <= n,
                forall|j: int| 0 <= j < i ==> self.identities@[j].id@ != id@,
            decreases n - i,
        {
            if str_eq(self.identities[i].id.as_str(), id) {
                return Some(i);
            }
            i = i + 1;
        }
        None
    }

    /// The first identity with the id `id`.
    pub fn find_identity(&self, id: &str) -> (r: Option<&Identity>)
        ensures
            match r {
                Some(x) => exists|i: int|
                    first_with_id(self.identities@, id@, i) && self.identities@[i] == *x,
                None => !has_id(self.identities@, id@),
            },
    {
        match self.position_of(id) {
            Some(i) => Some(&self.identities[i]),
            None => None,
        }
    }

    /// Where the first identity with the id `id` stands, for changing it in place.
    pub fn find_identity_mut(&mut self, id: &str) -> (r: Option<usize>)
        ensures
            *final(self) == *old(self),
            match r {
                Some(i) => first_with_id(old(self).identities@, id@, i as int),
                None => !has_id(old(self).identities@, id@),
            },
    {
        self.position_of(id)
    }

    /// Adds an identity whose id is not yet stored.
    pub fn add_identity(&mut self, identity: Identity) -> (r: Result<(), ConfigError>)
        ensures
            r is Ok <==> !has_id(old(self).identities@, identity.id@),
            has_id(old(self).identities@, identity.id@) ==> r == Err::<(), ConfigError>(
                ConfigError::DuplicateIdentity,
            ),
            r is Ok ==> final(self).identities@ == old(self).identities@.push(identity),
            r is Err ==> final(self).identities@ == old(self).identities@,
            ids_unique(old(self).identities@) ==> ids_unique(final(self).identities@),
            final(self).rules@ == old(self).rules@,
            final(self).settings == old(self).settings,
    {
        if self.position_of(identity.id.as_str()).is_some() {
            return Err(ConfigError::DuplicateIdentity);
        }
        let ghost before = self.identities@;
        self.identities.push(identity);
        proof {
            assert forall|i: int, j: int|
                ids_unique(before) && 0 <= i < j < self.identities@.len() implies self.identities@[i].id@
                != self.identities@[j].id@ by {
                if j == before.len() {
                    assert(before[i].id@ != identity.id@);
                }
            }
        }
        Ok(())
    }

    /// Removes and returns the first identity with the id `id`.
    pub fn remove_identity(&mut self, id: &str) -> (r: Result<Identity, ConfigError>)
        ensures
            !has_id(old(self).identities@, id@) <==> r is Err,
            r is Err ==> r == Err::<Identity, ConfigError>(ConfigError::IdentityNotFound)
                && final(self).identities@ == old(self).identities@,
            r is Ok ==> exists|i: int|
                first_with_id(old(self).identities@, id@, i) && r == Ok::<Identity, ConfigError>(
                    old(self).identities@[i],
                ) && final(self).identities@ == old(self).identities@.remove(i),
            final(self).rules@ == old(self).rules@,
            final(self).settings == old(self).settings,
            ids_unique(old(self).identities@) ==> ids_unique(final(self).identities@),
    {
        match self.position_of(id) {
            Some(i) => Ok(self.identities.remove(i)),
            None => Err(ConfigError::IdentityNotFound),
        }
    }

    /// Adds a rule; the rules stay stably sorted by priority.
    pub fn add_rule(&mut self, rule: Rule)
        ensures
            final(self).rules@ == sort_by_priority(old(self).rules@.push(rule)),
            sorted_by_priority(final(self).rules@),
            final(self).identities@ == old(self).identities@,
            final(self).settings == old(self).settings,
    {
        self.rules.push(rule);
        let ghost all = self.rules@;
        let total = self.rules.len();
        let mut pending = self.rules.split_off(0);
        let mut i: usize = 0;
        while pending.len() > 0
            invariant
                i <= all.len(),
                total == all.len(),
                pending@ == all.skip(i as int),
                self.rules@ == sort_by_priority(all.take(i as int)),
                self.identities@ == old(self).identities@,
                self.settings == old(self).settings,
            decreases pending@.len(),
        {
            let r = pending.remove(0);
            insert_rule(&mut self.rules, r);
            proof {
                assert(all.take(i + 1).drop_last() =~= all.take(i as int));
                assert(all.take(i + 1).last() == r);
            }
            i = i + 1;
            assert(pending@ =~= all.skip(i as int));
        }
        proof {
            assert(all.take(i as int) =~= all);
            lemma_sort_sorted(all);
        }
    }

    /// Adds a rule whose identity is stored; the rules stay stably sorted by priority.
    pub fn add_checked_rule(&mut self, rule: Rule) -> (r: Result<(), ConfigError>)
        ensures
            r is Ok <==> has_id(old(self).identities@, rule.identity@),
            r is Err ==> r == Err::<(), ConfigError>(ConfigError::IdentityNotFound)
                && final(self).rules@ == old(self).rules@,
            r is Ok ==> final(self).rules@ == sort_by_priority(old(self).rules@.push(rule)),
            sorted_by_priority(old(self).rules@) ==> sorted_by_priority(final(self).rules@),
            final(self).identities@ == old(self).identities@,
            final(self).settings == old(self).settings,
    {
        if self.position_of(rule.identity.as_str()).is_none() {
            return Err(ConfigError::IdentityNotFound);
        }
        self.add_rule(rule);
        Ok(())
    }

    /// Removes and returns the rule at `index` of the current, sorted, list.
    pub fn remove_rule(&mut self, index: usize) -> (r: Result<Rule, ConfigError>)
        ensures
            index >= old(self).rules@.len() ==> r == Err::<Rule, ConfigError>(
                ConfigError::RuleIndexOutOfRange,
            ) && final(self).rules@ == old(self).rules@,
            index < old(self).rules@.len() ==> r == Ok::<Rule, ConfigError>(
                old(self).rules@[index as int],
            ) && final(self).rules@ == old(self).rules@.remove(index as int),
            final(self).identities@ == old(self).identities@,
            final(self).settings == old(self).settings,
    {
        if index >= self.rules.len() {
            return Err(ConfigError::RuleIndexOutOfRange);
        }
        Ok(self.rules.remove(index))
    }

    /// Merges another store into this one: its identities whose id is new are added,
    /// the others skipped, and each of its rules is added. Returns how many identities
    /// were added and how many skipped.
    pub fn merge(&mut self, other: Config) -> (r: (usize, usize))
        ensures
            final(self).identities@ == merged_identities(
                old(self).identities@,
                other.identities@,
                other.identities@.len() as int,
            ),
            final(self).rules@ == rules_after_adding(
                old(self).rules@,
                other.rules@,
                other.rules@.len() as int,
            ),
            r.0 + r.1 == other.identities@.len(),
            r.0 == final(self).identities@.len() - old(self).identities@.len(),
            final(self).settings == old(self).settings,
            ids_unique(old(self).identities@) ==> ids_unique(final(self).identities@),
    {
        let ghost inc = other.identities@;
        let ghost inc_rules = other.rules@;
        let mut other = other;
        let n_ids = other.identities.len();
        let n_rules = other.rules.len();
        let mut added: usize = 0;
        let mut skipped: usize = 0;
        let mut i: usize = 0;
        while other.identities.len() > 0
            invariant
                i <= inc.len(),
                n_ids == inc.len(),
                other.identities@ == inc.skip(i as int),
                other.rules@ == inc_rules,
                self.identities@ == merged_identities(old(self).identities@, inc, i as int),
                added + skipped == i,
                ids_unique(old(self).identities@) ==> ids_unique(self.identities@),
                self.identities@.len() == old(self).identities@.len() + added,
                self.rules@ == old(self).rules@,
                self.settings == old(self).settings,
            decreases other.identities@.len(),
        {
            let ident = other.identities.remove(0);
            assert(inc[i as int] == ident);
            if self.position_of(ident.id.as_str()).is_none() {
                let ghost before = self.identities@;
                self.identities.push(ident);
                proof {
                    assert forall|a: int, b: int|
                        ids_unique(before) && 0 <= a < b < self.identities@.len() implies self.identities@[a].id@
                        != self.identities@[b].id@ by {
                        if b == before.len() {
                            assert(before[a].id@ != ident.id@);
                        }
                    }
                }
                added = added + 1;
            } else {
                skipped = skipped + 1;
            }
            i = i + 1;
            assert(other.identities@ =~= inc.skip(i as int));
        }
        proof {
            assert(inc.skip(i as int).len() == 0);
        }
        let mut k: usize = 0;
        while other.rules.len() > 0
            invariant
                k <= inc_rules.len(),
                n_rules == inc_rules.len(),
                other.rules@ == inc_rules.skip(k as int),
                self.identities@ == merged_identities(old(self).identities@, inc, inc.len() as int),
                ids_unique(old(self).identities@) ==> ids_unique(self.identities@),
                self.rules@ == rules_after_adding(old(self).rules@, inc_rules, k as int),
                self.settings == old(self).settings,
            decreases other.rules@.len(),
        {
            let rule = other.rules.remove(0);
            assert(inc_rules[k as int] == rule);
            self.add_rule(rule);
            k = k + 1;
            assert(other.rules@ =~= inc_rules.skip(k as int));
        }
        (added, skipped)
    }
}

/// Whether no two identities share an id, as the store keeps them.
pub open spec fn ids_unique(ids: Seq<Identity>) -> bool {
    forall|i: int, j: int| 0 <= i < j < ids.len() ==> ids[i].id@ != ids[j].id@
}

/// Sorting rules already in ascending priority leaves them as they are.
pub proof fn lemma_sort_of_sorted(s: Seq<Rule>)
    requires
        sorted_by_priority(s),
    ensures
        sort_by_priority(s) == s,
    decreases s.len(),
{
    if s.len() > 0 {
        let t = s.drop_last();
        assert(sorted_by_priority(t));
        lemma_sort_of_sorted(t);
        if t.len() > 0 {
            assert(t.last() == s[s.len() - 2]);
        }
        assert(t.push(s.last()) =~= s);
    }
}

proof fn lemma_merge_into_empty_ids(incoming: Seq<Identity>, n: int)
    requires
        0 <= n <= incoming.len(),
        ids_unique(incoming),
    ensures
        merged_identities(Seq::empty(), incoming, n) == incoming.take(n),
    decreases n,
{
    if n > 0 {
        lemma_merge_into_empty_ids(incoming, n - 1);
        let m = incoming.take(n - 1);
        if has_id(m, incoming[n - 1].id@) {
            let i = choose|i: int| 0 <= i < m.len() && m[i].id@ == incoming[n - 1].id@;
            assert(incoming[i].id@ != incoming[n - 1].id@);
        }
        assert(m.push(incoming[n - 1]) =~= incoming.take(n));
    } else {
        assert(incoming.take(0) =~= Seq::<Identity>::empty());
    }
}

proof fn lemma_add_sorted_into_empty(incoming: Seq<Rule>, n: int)
    requires
        0 <= n <= incoming.len(),
        sorted_by_priority(incoming),
    ensures
        rules_after_adding(Seq::empty(), incoming, n) == incoming.take(n),
    decreases n,
{
    if n > 0 {
        lemma_add_sorted_into_empty(incoming, n - 1);
        assert(incoming.take(n - 1).push(incoming[n - 1]) =~= incoming.take(n));
        assert(sorted_by_priority(incoming.take(n)));
        lemma_sort_of_sorted(incoming.take(n));
    } else {
        assert(incoming.take(0) =~= Seq::<Rule>::empty());
    }
}

/// Importing a store as the store keeps it (unique ids, rules in ascending priority)
/// into an empty store yields the same identities and the same rules, in order.
pub proof fn lemma_import_into_empty(identities: Seq<Identity>, rules: Seq<Rule>)
    requires
        ids_unique(identities),
        sorted_by_priority(rules),
    ensures
        merged_identities(Seq::empty(), identities, identities.len() as int) == identities,
        rules_after_adding(Seq::empty(), rules, rules.len() as int) == rules,
{
    lemma_merge_into_empty_ids(identities, identities.len() as int);
    lemma_add_sorted_into_empty(rules, rules.len() as int);
    assert(identities.take(identities.len() as int) =~= identities);
    assert(rules.take(rules.len() as int) =~= rules);
}

} // verus!
