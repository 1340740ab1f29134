use vstd::prelude::*;

use crate::outside::{file_name, home_dir, path_file_name, path_with_file_name, with_file_name};
use crate::text::{contains, has_prefix, has_substring, lines_spec, replace_char, replace_spec, split_lines, starts_with};

verus! {

/// Where the SSH directory and its client configuration live.
#[derive(Clone, Debug)]
pub struct SshManager {
    pub ssh_dir: String,
    pub config_path: String,
}

/// Why the SSH setup cannot be located.
#[derive(Clone, Copy, Debug, PartialEq, Eq, Structural)]
pub enum SshError {
    NoHomeDirectory,
}

/// `base` joined with the relative component `name`, as `Path::join` gives it.
pub open spec fn join_spec(base: Seq<char>, name: Seq<char>) -> Seq<char> {
    if base.len() == 0 {
        name
    } else if base.last() == '/' {
        base + name
    } else {
        base + seq!['/'] + name
    }
}

fn join(base: &str, name: &str) -> (r: String)
    ensures
        r@ == join_spec(base@, name@),
{
    let n = base.unicode_len();
    if n == 0 {
        return name.to_owned();
    }
    let mut out = base.to_owned();
    if base.get_char(n - 1) != '/' {
        out.append("/");
        proof {
            reveal_strlit("/");
            assert("/"@ =~= seq!['/']);
        }
    }
    out.append(name);
    out
}

/// The comment line that marks a managed entry.
pub open spec fn managed_marker() -> Seq<char> {
    "# gid managed"@
}

pub open spec fn host_keyword() -> Seq<char> {
    "Host "@
}

/// The state after one line of a configuration is read while removing `alias`:
/// (skipping an entry, skipping after a marker, what the line contributes).
pub open spec fn host_step(skip: bool, skip_comment: bool, line: Seq<char>, alias: Seq<char>) -> (
    bool,
    bool,
    Seq<char>,
) {
    if has_substring(line, managed_marker()) && has_substring(line, alias) {
        (skip, true, Seq::empty())
    } else {
        let is_host = has_prefix(line, host_keyword());
        if skip_comment && is_host && has_substring(line, alias) {
            (true, false, Seq::empty())
        } else {
            let sc = if skip_comment && is_host {
                false
            } else {
                skip_comment
            };
            if skip {
                if is_host {
                    (false, sc, line.push('\n'))
                } else {
                    (true, sc, Seq::empty())
                }
            } else if !sc {
                (false, sc, line.push('\n'))
            } else {
                (false, sc, Seq::empty())
            }
        }
    }
}

/// The state after the first `n` lines.
pub open spec fn host_fold(lines: Seq<Seq<char>>, alias: Seq<char>, n: int) -> (bool, bool, Seq<char>)
    decreases n,
{
    if n <= 0 {
        (false, false, Seq::empty())
    } else {
        let (skip, sc, out) = host_fold(lines, alias, n - 1);
        let (skip2, sc2, add) = host_step(skip, sc, lines[n - 1], alias);
        (skip2, sc2, out + add)
    }
}

/// A configuration without the managed entry for `alias`: its marker comment, its
/// `Host` line and the lines up to the next `Host` line.
pub open spec fn without_host(config: Seq<char>, alias: Seq<char>) -> Seq<char> {
    let lines = lines_spec(config);
    host_fold(lines, alias, lines.len() as int).2
}

/// The managed entry for a host alias.
pub open spec fn host_entry(alias: Seq<char>, hostname: Seq<char>, identity_file: Seq<char>, user: Seq<char>) -> Seq<char> {
    "\n# gid managed - "@ + alias + "\nHost "@ + alias + "\n    HostName "@ + hostname
        + "\n    User "@ + user + "\n    IdentityFile "@ + identity_file
        + "\n    IdentitiesOnly yes\n"@
}

/// A configuration with the entry for `alias` replaced by a new one at its end.
pub open spec fn with_host(
    config: Seq<char>,
    alias: Seq<char>,
    hostname: Seq<char>,
    identity_file: Seq<char>,
    user: Seq<char>,
) -> Seq<char> {
    let kept = if has_substring(config, host_keyword() + alias) {
        without_host(config, alias)
    } else {
        config
    };
    kept + host_entry(alias, hostname, identity_file, user)
}

/// The alias of a host for an identity: dots of the host name become dashes, and the
/// identity id follows a dash.
pub open spec fn alias_spec(identity_id: Seq<char>, hostname: Seq<char>) -> Seq<char> {
    replace_spec(hostname, '.', seq!['-']) + seq!['-'] + identity_id
}

/// The public key beside a private key: its file name with `.pub` added, or
/// `id_rsa.pub` when the path names no file.
pub open spec fn public_key_spec(private_key: Seq<char>) -> Seq<char> {
    match path_file_name(private_key) {
        Some(n) => path_with_file_name(private_key, n + ".pub"@),
        None => path_with_file_name(private_key, "id_rsa.pub"@),
    }
}

impl SshManager {
    /// The SSH directory under `home`.
    pub fn with_home(home: &str) -> (r: SshManager)
        ensures
            r.ssh_dir@ == join_spec(home@, ".ssh"@),
            r.config_path@ == join_spec(r.ssh_dir@, "config"@),
    {
        let ssh_dir = join(home, ".ssh");
        let config_path = join(ssh_dir.as_str(), "config");
        SshManager { ssh_dir, config_path }
    }

    /// The SSH directory under the user's home directory.
    pub fn new() -> (r: Result<SshManager, SshError>)
        ensures
            r is Ok ==> r->Ok_0.config_path@ == join_spec(r->Ok_0.ssh_dir@, "config"@),
    {
        match home_dir() {
            Some(h) => Ok(SshManager::with_home(h.as_str())),
            None => Err(SshError::NoHomeDirectory),
        }
    }

    pub fn get_public_key_path(&self, private_key: &str) -> (r: String)
        ensures
            r@ == public_key_spec(private_key@),
    {
        match file_name(private_key) {
            Some(n) => {
                let mut name = n;
                name.append(".pub");
                with_file_name(private_key, name.as_str())
            },
            None => with_file_name(private_key, "id_rsa.pub"),
        }
    }

    /// `config` without the managed entry for `host_alias`.
    pub fn remove_host_from_config(&self, config: &str, host_alias: &str) -> (r: String)
        ensures
            r@ == without_host(config@, host_alias@),
    {
        let lines = split_lines(config);
        let ghost ls = lines_spec(config@);
        let n = lines.len();
        let mut out = String::new();
        let mut skip = false;
        let mut skip_comment = false;
        let mut i: usize = 0;
        while i < n
            invariant
                n == lines@.len(),
                ls == crate::text::strings_view(lines@),
                ls == lines_spec(config@),
                i <= n,
                host_fold(ls, host_alias@, i as int) == (skip, skip_comment, out@),
            decreases n - i,
        {
            let line = lines[i].as_str();
            assert(line@ == ls[i as int]);
            let ghost before = out@;
            if contains(line, "# gid managed") && contains(line, host_alias) {
                skip_comment = true;
                assert(out@ =~= before + Seq::<char>::empty());
            } else {
                let is_host = starts_with(line, "Host ");
                if skip_comment && is_host && contains(line, host_alias) {
                    skip = true;
                    skip_comment = false;
                    assert(out@ =~= before + Seq::<char>::empty());
                } else {
                    if skip_comment && is_host {
                        skip_comment = false;
                    }
                    if skip {
                        if is_host {
                            skip = false;
                            out.append(line);
                            out.append("\n");
                            proof {
                                reveal_strlit("\n");
                                assert(out@ =~= before + line@.push('\n'));
                            }
                        } else {
                            assert(out@ =~= before + Seq::<char>::empty());
                        }
                    } else if !skip_comment {
                        out.append(line);
                        out.append("\n");
                        proof {
                            reveal_strlit("\n");
                            assert(out@ =~= before + line@.push('\n'));
                        }
                    } else {
                        assert(out@ =~= before + Seq::<char>::empty());
                    }
                }
            }
            i = i + 1;
        }
        out
    }

    /// `config` with the managed entry for `host_alias` (re)written at its end.
    pub fn host_config_text(
        &self,
        config: &str,
        host_alias: &str,
        hostname: &str,
        identity_file: &str,
        user: &str,
    ) -> (r: String)
        ensures
            r@ == with_host(config@, host_alias@, hostname@, identity_file@, user@),
    {
        let mut key = "Host ".to_owned();
        key.append(host_alias);
        let mut out = if contains(config, key.as_str()) {
            self.remove_host_from_config(config, host_alias)
        } else {
            config.to_owned()
        };
        out.append("\n# gid managed - ");
        out.append(host_alias);
        out.append("\nHost ");
        out.append(host_alias);
        out.append("\n    HostName ");
        out.append(hostname);
        out.append("\n    User ");
        out.append(user);
        out.append("\n    IdentityFile ");
        out.append(identity_file);
        out.append("\n    IdentitiesOnly yes\n");
        out
    }

    /// The alias for `hostname` under `identity_id`, and `config` with its entry, which
    /// uses `key_path` as the identity file and `git` as the user.
    pub fn configure_for_identity(
        &self,
        identity_id: &str,
        hostname: &str,
        key_path: &str,
        config: &str,
    ) -> (r: (String, String))
        ensures
            r.0@ == alias_spec(identity_id@, hostname@),
            r.1@ == with_host(config@, r.0@, hostname@, key_path@, "git"@),
    {
        let mut alias = replace_char(hostname, '.', "-");
        alias.append("-");
        alias.append(identity_id);
        proof {
            reveal_strlit("-");
            assert("-"@ =~= seq!['-']);
        }
        let text = self.host_config_text(config, alias.as_str(), hostname, key_path, "git");
        (alias, text)
    }
}

} // verus!
