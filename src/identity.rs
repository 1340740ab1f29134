use vstd::prelude::*;

use crate::text::contains_char;

verus! {

/// A named git identity.
#[derive(Clone, Debug)]
pub struct Identity {
    /// Unique key of the identity in the store: letters, digits, `_` and `-`.
    pub id: String,
    pub name: String,
    pub email: String,
    pub description: Option<String>,
    /// Path of the SSH private key, possibly starting with `~/`.
    pub ssh_key: Option<String>,
    pub gpg_key: Option<String>,
    /// Whether commits are signed with `gpg_key`.
    pub gpg_sign: bool,
}

/// Why an identity is refused.
#[derive(Clone, Copy, Debug, PartialEq, Eq, Structural)]
pub enum IdentityError {
    EmptyId,
    InvalidId,
    EmptyName,
    EmptyEmail,
    InvalidEmail,
}

/// Characters an identity id may hold.
pub open spec fn is_id_char(c: char) -> bool {
    ('a' <= c && c <= 'z') || ('A' <= c && c <= 'Z') || ('0' <= c && c <= '9') || c == '_' || c
        == '-'
}

/// Whether `s` is a well-formed identity id.
pub open spec fn is_valid_id(s: Seq<char>) -> bool {
    s.len() > 0 && forall|i: int| 0 <= i < s.len() ==> is_id_char(s[i])
}

pub fn id_char(c: char) -> (r: bool)
    ensures
        r == is_id_char(c),
{
    ('a' <= c && c <= 'z') || ('A' <= c && c <= 'Z') || ('0' <= c && c <= '9') || c == '_' || c
        == '-'
}

/// Whether every character of `s` may stand in an identity id.
pub fn all_id_chars(s: &str) -> (r: bool)
    ensures
        r == forall|i: int| 0 <= i < s@.len() ==> is_id_char(s@[i]),
{
    let n = s.unicode_len();
    let mut i: usize = 0;
    while i < n
        invariant
            n == s@.len(),
            i <= n,
            forall|j: int| 0 <= j < i ==> is_id_char(s@[j]),
        decreases n - i,
    {
        if !id_char(s.get_char(i)) {
            return false;
        }
        i = i + 1;
    }
    true
}

impl Identity {
    /// The outcome of validation, the checks taken in this order.
    pub open spec fn validation(self) -> Result<(), IdentityError> {
        if self.id@.len() == 0 {
            Err(IdentityError::EmptyId)
        } else if !is_valid_id(self.id@) {
            Err(IdentityError::InvalidId)
        } else if self.name@.len() == 0 {
            Err(IdentityError::EmptyName)
        } else if self.email@.len() == 0 {
            Err(IdentityError::EmptyEmail)
        } else if !self.email@.contains('@') || !self.email@.contains('.') {
            Err(IdentityError::InvalidEmail)
        } else {
            Ok(())
        }
    }

    /// `[id] name <email>`.
    pub open spec fn text_spec(self) -> Seq<char> {
        "["@ + self.id@ + "] "@ + self.name@ + " <"@ + self.email@ + ">"@
    }

    /// The identity as `[id] name <email>`.
    pub fn display_text(&self) -> (r: String)
        ensures
            r@ == self.text_spec(),
    {
        let mut out = "[".to_owned();
        out.append(self.id.as_str());
        out.append("] ");
        out.append(self.name.as_str());
        out.append(" <");
        out.append(self.email.as_str());
        out.append(">");
        out
    }

    /// An identity with no description, keys or signing.
    pub fn new(id: String, name: String, email: String) -> (r: Identity)
        ensures
            r.id == id,
            r.name == name,
            r.email == email,
            r.description is None,
            r.ssh_key is None,
            r.gpg_key is None,
            !r.gpg_sign,
    {
        Identity { id, name, email, description: None, ssh_key: None, gpg_key: None, gpg_sign: false }
    }

    pub fn with_description(self, description: Option<String>) -> (r: Identity)
        ensures
            r == (Identity { description, ..self }),
    {
        let mut s = self;
        s.description = description;
        s
    }

    pub fn with_ssh_key(self, ssh_key: Option<String>) -> (r: Identity)
        ensures
            r == (Identity { ssh_key, ..self }),
    {
        let mut s = self;
        s.ssh_key = ssh_key;
        s
    }

    /// Sets the signing key; a key turns signing on, its absence leaves the flag as it was.
    pub fn with_gpg_key(self, gpg_key: Option<String>) -> (r: Identity)
        ensures
            r == (Identity { gpg_key, gpg_sign: self.gpg_sign || gpg_key is Some, ..self }),
    {
        let mut s = self;
        if gpg_key.is_some() {
            s.gpg_sign = true;
        }
        s.gpg_key = gpg_key;
        s
    }

    /// Checks the id, the name and the email. Whether the SSH key file exists is a
    /// question for the file system, asked apart from this.
    pub fn validate(&self) -> (r: Result<(), IdentityError>)
        ensures
            r == self.validation(),
    {
        if self.id.as_str().unicode_len() == 0 {
            return Err(IdentityError::EmptyId);
        }
        if !all_id_chars(self.id.as_str()) {
            return Err(IdentityError::InvalidId);
        }
        if self.name.as_str().unicode_len() == 0 {
            return Err(IdentityError::EmptyName);
        }
        if self.email.as_str().unicode_len() == 0 {
            return Err(IdentityError::EmptyEmail);
        }
        if !contains_char(self.email.as_str(), '@') || !contains_char(self.email.as_str(), '.') {
            return Err(IdentityError::InvalidEmail);
        }
        Ok(())
    }
}

} // verus!
