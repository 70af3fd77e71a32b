use vstd::prelude::*;
use vstd::string::{StrSliceExecFns, StringExecFns};

verus! {

/// The identity of a caller: a registered user, or the anonymous guest.
#[derive(Clone, Debug, PartialEq, Eq)]
pub struct User {
    pub id: i64,
    pub username: String,
    pub anonymous: bool,
}

impl User {
    /// The guest identity: id -1, name "Guest", anonymous.
    pub open spec fn is_guest(&self) -> bool {
        &&& self.id == -1
        &&& self.username@ == "Guest"@
        &&& self.anonymous
    }

    pub fn is_anonymous(&self) -> (r: bool)
        ensures
            r == self.anonymous,
    {
        self.anonymous
    }

    pub fn is_authenticated(&self) -> (r: bool)
        ensures
            r == !self.anonymous,
    {
        !self.anonymous
    }

    /// The letter shown for a user: the first character of the name in ASCII
    /// upper case, or 'A' when the name is empty.
    pub open spec fn letter_spec(&self) -> char {
        let c = if self.username@.len() > 0 { self.username@[0] } else { 'A' };
        if 'a' <= c <= 'z' { ((c as u8) - 32) as char } else { c }
    }

    pub fn user_first_letter(&self) -> (r: char)
        ensures
            r == self.letter_spec(),
    {
        let c: char = if self.username.as_str().unicode_len() > 0 {
            self.username.as_str().get_char(0)
        } else {
            'A'
        };
        if 'a' <= c && c <= 'z' {
            ((c as u8) - 32) as char
        } else {
            c
        }
    }

    /// A copy equal to this user.
    pub fn snapshot(&self) -> (r: User)
        ensures
            r == *self,
    {
        User { id: self.id, username: self.username.clone(), anonymous: self.anonymous }
    }
}

impl Default for User {
    fn default() -> (r: Self)
        ensures
            r.is_guest(),
    {
        proof {
            reveal_strlit("Guest");
        }
        User { id: -1, username: String::from_str("Guest"), anonymous: true }
    }
}

} // verus!
