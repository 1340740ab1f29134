use vstd::prelude::*;

use crate::identity::Identity;
use crate::rules::opt_view;

verus! {

/// The identity settings of one git configuration scope (repository or user).
#[derive(Clone, Debug)]
pub struct ScopeConfig {
    /// `user.name`
    pub user_name: Option<String>,
    /// `user.email`
    pub user_email: Option<String>,
    /// `user.signingkey`
    pub signing_key: Option<String>,
    /// `commit.gpgsign`
    pub gpg_sign: Option<bool>,
}

/// The repository's settings and the user's global settings.
#[derive(Clone, Debug)]
pub struct GitIdentityConfig {
    pub local: ScopeConfig,
    pub global: ScopeConfig,
}

/// One write of an identity setting.
#[derive(Clone, Debug)]
pub enum ConfigWrite {
    UserName(String),
    UserEmail(String),
    SigningKey(String),
    GpgSign(bool),
}

/// A scope's settings, as plain values.
pub struct ScopeView {
    pub user_name: Option<Seq<char>>,
    pub user_email: Option<Seq<char>>,
    pub signing_key: Option<Seq<char>>,
    pub gpg_sign: Option<bool>,
}

impl ScopeConfig {
    pub open spec fn view(self) -> ScopeView {
        ScopeView {
            user_name: opt_view(self.user_name),
            user_email: opt_view(self.user_email),
            signing_key: opt_view(self.signing_key),
            gpg_sign: self.gpg_sign,
        }
    }
}

/// The value in effect: the repository's when it has one, else the user's.
pub open spec fn effective<T>(local: Option<T>, global: Option<T>) -> Option<T> {
    if local is Some {
        local
    } else {
        global
    }
}

pub open spec fn apply_write(s: ScopeView, w: ConfigWrite) -> ScopeView {
    match w {
        ConfigWrite::UserName(v) => ScopeView { user_name: Some(v@), ..s },
        ConfigWrite::UserEmail(v) => ScopeView { user_email: Some(v@), ..s },
        ConfigWrite::SigningKey(v) => ScopeView { signing_key: Some(v@), ..s },
        ConfigWrite::GpgSign(b) => ScopeView { gpg_sign: Some(b), ..s },
    }
}

pub open spec fn apply_writes(s: ScopeView, ws: Seq<ConfigWrite>) -> ScopeView
    decreases ws.len(),
{
    if ws.len() == 0 {
        s
    } else {
        apply_write(apply_writes(s, ws.drop_last()), ws.last())
    }
}

/// A scope after switching to `identity`: name and email are set; the signing key and
/// the signing flag are set only when the identity has a key.
pub open spec fn switched_scope(s: ScopeView, identity: Identity) -> ScopeView {
    match identity.gpg_key {
        Some(k) => ScopeView {
            user_name: Some(identity.name@),
            user_email: Some(identity.email@),
            signing_key: Some(k@),
            gpg_sign: Some(identity.gpg_sign),
        },
        None => ScopeView { user_name: Some(identity.name@), user_email: Some(identity.email@), ..s },
    }
}

/// Both scopes, as plain values.
pub struct ConfigView {
    pub local: ScopeView,
    pub global: ScopeView,
}

impl GitIdentityConfig {
    pub open spec fn view(self) -> ConfigView {
        ConfigView { local: self.local.view(), global: self.global.view() }
    }
}

/// Settings after switching to `identity` in the user's scope or the repository's.
pub open spec fn switched(c: ConfigView, identity: Identity, global: bool) -> ConfigView {
    if global {
        ConfigView { global: switched_scope(c.global, identity), ..c }
    } else {
        ConfigView { local: switched_scope(c.local, identity), ..c }
    }
}

/// Switching to the same identity twice leaves the settings, and so every effective
/// value, as switching once does.
pub proof fn lemma_switch_idempotent(c: ConfigView, identity: Identity, global: bool)
    ensures
        switched(switched(c, identity, global), identity, global) == switched(c, identity, global),
        effective(
            switched(switched(c, identity, global), identity, global).local.user_name,
            switched(switched(c, identity, global), identity, global).global.user_name,
        ) == effective(
            switched(c, identity, global).local.user_name,
            switched(c, identity, global).global.user_name,
        ),
        effective(
            switched(switched(c, identity, global), identity, global).local.user_email,
            switched(switched(c, identity, global), identity, global).global.user_email,
        ) == effective(
            switched(c, identity, global).local.user_email,
            switched(c, identity, global).global.user_email,
        ),
{
}

fn copy_opt(o: &Option<String>) -> (r: Option<String>)
    ensures
        opt_view(r) == opt_view(*o),
{
    match o {
        Some(s) => Some(s.clone()),
        None => None,
    }
}

/// The value in effect: `local` when present, else `global`.
pub fn effective_value(local: &Option<String>, global: &Option<String>) -> (r: Option<String>)
    ensures
        opt_view(r) == effective(opt_view(*local), opt_view(*global)),
{
    if local.is_some() {
        copy_opt(local)
    } else {
        copy_opt(global)
    }
}

/// The writes that switching to `identity` makes in one scope.
pub fn switch_writes(identity: &Identity) -> (r: Vec<ConfigWrite>)
    ensures
        forall|s: ScopeView| apply_writes(s, r@) == switched_scope(s, *identity),
{
    let mut ws: Vec<ConfigWrite> = Vec::new();
    ws.push(ConfigWrite::UserName(identity.name.clone()));
    ws.push(ConfigWrite::UserEmail(identity.email.clone()));
    match &identity.gpg_key {
        Some(k) => {
            ws.push(ConfigWrite::SigningKey(k.clone()));
            ws.push(ConfigWrite::GpgSign(identity.gpg_sign));
        },
        None => {},
    }
    assert forall|s: ScopeView| apply_writes(s, ws@) == switched_scope(s, *identity) by {
        assert(ws@.take(1).drop_last() =~= Seq::<ConfigWrite>::empty());
        assert(apply_writes(s, Seq::<ConfigWrite>::empty()) == s);
        assert(ws@.take(1).last() == ws@[0]);
        assert(ws@.take(2).last() == ws@[1]);
        assert(ws@.take(2).drop_last() =~= ws@.take(1));
        if identity.gpg_key is Some {
            assert(ws@.drop_last() =~= ws@.take(3));
            assert(ws@.take(3).drop_last() =~= ws@.take(2));
            assert(apply_writes(s, ws@.take(1)) == apply_write(s, ws@[0]));
            assert(apply_writes(s, ws@.take(2)) == apply_write(apply_write(s, ws@[0]), ws@[1]));
            assert(ws@.take(3).last() == ws@[2]);
            assert(ws@.last() == ws@[3]);
            assert(apply_writes(s, ws@.take(3)) == apply_write(apply_writes(s, ws@.take(2)), ws@[2]));
            assert(apply_writes(s, ws@) == apply_write(apply_writes(s, ws@.take(3)), ws@[3]));
        } else {
            assert(ws@.drop_last() =~= ws@.take(1));
            assert(apply_writes(s, ws@.take(1)) == apply_write(s, ws@[0]));
            assert(ws@.last() == ws@[1]);
            assert(apply_writes(s, ws@) == apply_write(apply_writes(s, ws@.take(1)), ws@[1]));
        }
    }
    ws
}

impl ScopeConfig {
    /// A scope with nothing set.
    pub fn empty() -> (r: ScopeConfig)
        ensures
            r.user_name is None && r.user_email is None && r.signing_key is None && r.gpg_sign is None,
    {
        ScopeConfig { user_name: None, user_email: None, signing_key: None, gpg_sign: None }
    }

    /// Carries out one write.
    pub fn apply(&mut self, w: &ConfigWrite)
        ensures
            final(self).view() == apply_write(old(self).view(), *w),
    {
        match w {
            ConfigWrite::UserName(v) => {
                self.user_name = Some(v.clone());
            },
            ConfigWrite::UserEmail(v) => {
                self.user_email = Some(v.clone());
            },
            ConfigWrite::SigningKey(v) => {
                self.signing_key = Some(v.clone());
            },
            ConfigWrite::GpgSign(b) => {
                self.gpg_sign = Some(*b);
            },
        }
    }

    /// Carries out writes in order.
    pub fn apply_all(&mut self, ws: &Vec<ConfigWrite>)
        ensures
            final(self).view() == apply_writes(old(self).view(), ws@),
    {
        let n = ws.len();
        let mut i: usize = 0;
        while i < n
            invariant
                n == ws@.len(),
                i <= n,
                self.view() == apply_writes(old(self).view(), ws@.take(i as int)),
            decreases n - i,
        {
            self.apply(&ws[i]);
            assert(ws@.take(i + 1).drop_last() =~= ws@.take(i as int));
            i = i + 1;
        }
        assert(ws@.take(n as int) =~= ws@);
    }
}

impl GitIdentityConfig {
    /// Switches to `identity` in the user's scope (`global`) or the repository's.
    pub fn switch_to(&mut self, identity: &Identity, global: bool)
        ensures
            final(self).view() == switched(old(self).view(), *identity, global),
    {
        let ws = switch_writes(identity);
        if global {
            self.global.apply_all(&ws);
        } else {
            self.local.apply_all(&ws);
        }
    }

    /// `user.name` in effect.
    pub fn effective_user_name(&self) -> (r: Option<String>)
        ensures
            opt_view(r) == effective(self.view().local.user_name, self.view().global.user_name),
    {
        effective_value(&self.local.user_name, &self.global.user_name)
    }

    /// `user.email` in effect.
    pub fn effective_user_email(&self) -> (r: Option<String>)
        ensures
            opt_view(r) == effective(self.view().local.user_email, self.view().global.user_email),
    {
        effective_value(&self.local.user_email, &self.global.user_email)
    }
}

} // verus!
