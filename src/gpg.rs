use vstd::prelude::*;

use crate::outside::{alphabetic, is_alphabetic};
use crate::rules::opt_view;
use crate::text::{
    has_prefix, is_whitespace, is_ws, lines_spec, skip_ws_from, split_lines, starts_with, str_eq,
    strings_view, strip_prefixes, trim, trim_spec, trim_start_matches,
};

verus! {

/// Reads the key listing of GnuPG.
#[derive(Clone, Copy, Debug)]
pub struct GpgManager;

/// A secret key of the listing.
#[derive(Clone, Debug)]
pub struct GpgKey {
    pub key_id: String,
    pub uid: String,
    pub email: Option<String>,
}

/// A key, as plain values.
pub struct KeyView {
    pub key_id: Seq<char>,
    pub uid: Seq<char>,
    pub email: Option<Seq<char>>,
}

impl GpgKey {
    pub open spec fn view(self) -> KeyView {
        KeyView { key_id: self.key_id@, uid: self.uid@, email: opt_view(self.email) }
    }
}

impl GpgKey {
    /// The key as `key_id - uid`.
    pub fn display_text(&self) -> (r: String)
        ensures
            r@ == self.key_id@ + " - "@ + self.uid@,
    {
        let mut out = self.key_id.clone();
        out.append(" - ");
        out.append(self.uid.as_str());
        out
    }
}

pub open spec fn keys_view(v: Seq<GpgKey>) -> Seq<KeyView> {
    v.map_values(|k: GpgKey| k.view())
}

/// First position at or after `i` that is white space.
pub open spec fn skip_word_from(s: Seq<char>, i: int) -> int
    decreases s.len() - i,
{
    if 0 <= i < s.len() && !is_ws(s[i]) {
        skip_word_from(s, i + 1)
    } else {
        i
    }
}

/// First position at or after `i` holding `c`, or the length.
pub open spec fn find_from(s: Seq<char>, c: char, i: int) -> int
    decreases s.len() - i,
{
    if i < 0 || i >= s.len() {
        s.len() as int
    } else if s[i] == c {
        i
    } else {
        find_from(s, c, i + 1)
    }
}

/// The key id of a `sec` line: in its second white-space separated field, what
/// follows the first `/`.
pub open spec fn key_id_spec(line: Seq<char>) -> Option<Seq<char>> {
    let s1 = skip_ws_from(line, 0);
    let e1 = skip_word_from(line, s1);
    let s2 = skip_ws_from(line, e1);
    let e2 = skip_word_from(line, s2);
    let field = line.subrange(s2, e2);
    let slash = find_from(field, '/', 0);
    if s2 < line.len() && slash < field.len() {
        Some(field.subrange(slash + 1, field.len() as int))
    } else {
        None
    }
}

/// The email of a user id: between its first `<` and its first `>`, when the latter
/// comes after the former.
pub open spec fn email_spec(uid: Seq<char>) -> Option<Seq<char>> {
    let start = find_from(uid, '<', 0);
    let end = find_from(uid, '>', 0);
    if start < uid.len() && end < uid.len() && start < end {
        Some(uid.subrange(start + 1, end))
    } else {
        None
    }
}

/// Characters dropped from the front of a user id: the trust mark and the name.
pub open spec fn uid_lead(c: char) -> bool {
    c == '[' || alphabetic(c) || c == ']' || is_ws(c)
}

pub open spec fn skip_lead_from(s: Seq<char>, i: int) -> int
    decreases s.len() - i,
{
    if 0 <= i < s.len() && uid_lead(s[i]) {
        skip_lead_from(s, i + 1)
    } else {
        i
    }
}

/// The user id that a `uid` line yields.
pub open spec fn uid_spec(line: Seq<char>) -> Seq<char> {
    let t = trim_spec(strip_prefixes(line, "uid"@));
    t.subrange(skip_lead_from(t, 0), t.len() as int)
}

/// The listing state after one line: (the key being read, the keys done).
pub open spec fn gpg_step(cur: Option<KeyView>, done: Seq<KeyView>, line: Seq<char>) -> (
    Option<KeyView>,
    Seq<KeyView>,
) {
    if has_prefix(line, "sec"@) {
        match key_id_spec(line) {
            Some(id) => (Some(KeyView { key_id: id, uid: Seq::empty(), email: None }), done),
            None => (cur, done),
        }
    } else if has_prefix(line, "uid"@) && cur is Some {
        let u = uid_spec(line);
        (Some(KeyView { uid: u, email: email_spec(u), ..cur->0 }), done)
    } else if line.len() == 0 && cur is Some {
        (None, done.push(cur->0))
    } else {
        (cur, done)
    }
}

pub open spec fn gpg_fold(lines: Seq<Seq<char>>, n: int) -> (Option<KeyView>, Seq<KeyView>)
    decreases n,
{
    if n <= 0 {
        (None, Seq::empty())
    } else {
        let (cur, done) = gpg_fold(lines, n - 1);
        gpg_step(cur, done, lines[n - 1])
    }
}

/// The keys of a listing: each `sec` line starts a key, its `uid` line names it, and
/// an empty line or the end closes it.
pub open spec fn keys_spec(output: Seq<char>) -> Seq<KeyView> {
    let lines = lines_spec(output);
    let (cur, done) = gpg_fold(lines, lines.len() as int);
    match cur {
        Some(k) => done.push(k),
        None => done,
    }
}

fn find_char(s: &str, c: char) -> (r: usize)
    ensures
        r == find_from(s@, c, 0),
        r <= s@.len(),
{
    let n = s.unicode_len();
    let mut i: usize = 0;
    while i < n
        invariant
            n == s@.len(),
            i <= n,
            find_from(s@, c, i as int) == find_from(s@, c, 0),
        decreases n - i,
    {
        if s.get_char(i) == c {
            return i;
        }
        i = i + 1;
    }
    n
}

fn skip_ws(s: &str, i: usize) -> (r: usize)
    requires
        i <= s@.len(),
    ensures
        r == skip_ws_from(s@, i as int),
        i <= r <= s@.len(),
{
    let n = s.unicode_len();
    let mut j = i;
    while j < n && is_whitespace(s.get_char(j))
        invariant
            n == s@.len(),
            i <= j <= n,
            skip_ws_from(s@, j as int) == skip_ws_from(s@, i as int),
        decreases n - j,
    {
        j = j + 1;
    }
    j
}

fn skip_word(s: &str, i: usize) -> (r: usize)
    requires
        i <= s@.len(),
    ensures
        r == skip_word_from(s@, i as int),
        i <= r <= s@.len(),
{
    let n = s.unicode_len();
    let mut j = i;
    while j < n && !is_whitespace(s.get_char(j))
        invariant
            n == s@.len(),
            i <= j <= n,
            skip_word_from(s@, j as int) == skip_word_from(s@, i as int),
        decreases n - j,
    {
        j = j + 1;
    }
    j
}

fn skip_lead(s: &str) -> (r: usize)
    ensures
        r == skip_lead_from(s@, 0),
        r <= s@.len(),
{
    let n = s.unicode_len();
    let mut j: usize = 0;
    while j < n
        invariant
            n == s@.len(),
            j <= n,
            skip_lead_from(s@, j as int) == skip_lead_from(s@, 0),
        decreases n - j,
    {
        let c = s.get_char(j);
        if !(c == '[' || is_alphabetic(c) || c == ']' || is_whitespace(c)) {
            return j;
        }
        j = j + 1;
    }
    n
}

impl GpgManager {
    pub fn new() -> (r: GpgManager) {
        GpgManager
    }

    /// The key id of a `sec` line.
    pub fn extract_key_id(&self, line: &str) -> (r: Option<String>)
        ensures
            opt_view(r) == key_id_spec(line@),
    {
        let n = line.unicode_len();
        let s1 = skip_ws(line, 0);
        let e1 = skip_word(line, s1);
        let s2 = skip_ws(line, e1);
        let e2 = skip_word(line, s2);
        if s2 >= n {
            return None;
        }
        let field = line.substring_char(s2, e2);
        let slash = find_char(field, '/');
        let m = field.unicode_len();
        if slash >= m {
            return None;
        }
        Some(field.substring_char(slash + 1, m).to_owned())
    }

    /// The email of a user id, between `<` and `>`.
    pub fn extract_email(&self, uid: &str) -> (r: Option<String>)
        ensures
            opt_view(r) == email_spec(uid@),
    {
        let n = uid.unicode_len();
        let start = find_char(uid, '<');
        let end = find_char(uid, '>');
        if start < n && end < n && start < end {
            Some(uid.substring_char(start + 1, end).to_owned())
        } else {
            None
        }
    }

    fn uid_of(&self, line: &str) -> (r: String)
        ensures
            r@ == uid_spec(line@),
    {
        proof {
            reveal_strlit("uid");
        }
        let t = trim(trim_start_matches(line, "uid"));
        let k = skip_lead(t);
        t.substring_char(k, t.unicode_len()).to_owned()
    }

    /// The secret keys of a listing of `gpg --list-secret-keys --keyid-format long`.
    pub fn parse_gpg_output(&self, output: &str) -> (r: Vec<GpgKey>)
        ensures
            keys_view(r@) == keys_spec(output@),
    {
        proof {
            reveal_strlit("sec");
            reveal_strlit("uid");
        }
        let lines = split_lines(output);
        let ghost ls = lines_spec(output@);
        let n = lines.len();
        let mut keys: Vec<GpgKey> = Vec::new();
        let mut current: Option<GpgKey> = None;
        let mut i: usize = 0;
        while i < n
            invariant
                n == lines@.len(),
                ls == strings_view(lines@),
                ls == lines_spec(output@),
                i <= n,
                gpg_fold(ls, i as int) == (
                    match current {
                        Some(k) => Some(k.view()),
                        None => None,
                    },
                    keys_view(keys@),
                ),
            decreases n - i,
        {
            let line = lines[i].as_str();
            assert(line@ == ls[i as int]);
            if starts_with(line, "sec") {
                match self.extract_key_id(line) {
                    Some(key_id) => {
                        current = Some(GpgKey { key_id, uid: String::new(), email: None });
                    },
                    None => {},
                }
            } else if starts_with(line, "uid") && current.is_some() {
                let uid = self.uid_of(line);
                let email = self.extract_email(uid.as_str());
                current = match current {
                    Some(k) => Some(GpgKey { key_id: k.key_id, uid, email }),
                    None => None,
                };
            } else if line.unicode_len() == 0 && current.is_some() {
                let ghost before = keys@;
                match current {
                    Some(k) => {
                        keys.push(k);
                        assert(keys_view(keys@) =~= keys_view(before).push(k.view()));
                    },
                    None => {},
                }
                current = None;
            }
            i = i + 1;
        }
        match current {
            Some(k) => {
                let ghost before = keys@;
                keys.push(k);
                assert(keys_view(keys@) =~= keys_view(before).push(k.view()));
            },
            None => {},
        }
        keys
    }

    /// The first key of a listing whose email is `email`.
    pub fn find_key_by_email(&self, output: &str, email: &str) -> (r: Option<GpgKey>)
        ensures
            match r {
                Some(k) => exists|i: int|
                    0 <= i < keys_spec(output@).len() && keys_spec(output@)[i] == k.view()
                        && k.view().email == Some(email@) && forall|j: int|
                        0 <= j < i ==> keys_spec(output@)[j].email != Some(email@),
                None => forall|i: int|
                    0 <= i < keys_spec(output@).len() ==> keys_spec(output@)[i].email != Some(
                        email@,
                    ),
            },
    {
        let keys = self.parse_gpg_output(output);
        let n = keys.len();
        let mut rest = keys;
        let ghost all = keys_view(rest@);
        let mut i: usize = 0;
        assert(all.skip(0) =~= all);
        while i < n
            invariant
                n == all.len(),
                i <= n,
                keys_view(rest@) == all.skip(i as int),
                rest@.len() == n - i,
                all == keys_spec(output@),
                forall|j: int| 0 <= j < i ==> all[j].email != Some(email@),
            decreases n - i,
        {
            let ghost before = rest@;
            assert(keys_view(before)[0] == before[0].view());
            assert(all.skip(i as int)[0] == all[i as int]);
            let k = rest.remove(0);
            assert(all[i as int] == k.view());
            assert(rest@ =~= before.skip(1));
            assert forall|j: int| 0 <= j < rest@.len() implies keys_view(rest@)[j] == all.skip(
                i + 1,
            )[j] by {
                assert(keys_view(before)[j + 1] == before[j + 1].view());
                assert(all.skip(i as int)[j + 1] == all[i + 1 + j]);
            }
            assert(keys_view(rest@) =~= all.skip(i + 1));
            let hit = match &k.email {
                Some(e) => str_eq(e.as_str(), email),
                None => false,
            };
            if hit {
                return Some(k);
            }
            i = i + 1;
        }
        None
    }
}

} // verus!
