use vstd::prelude::*;
use vstd::string::StringExecFns;
use crate::auth::User;
use crate::errors::{RoadieAppError, RoadieResult};
use crate::text::{lowercase_text, lowered, trim_text, trimmed};

verus! {

#[verifier::external_type_specification]
#[verifier::external_body]
pub struct ExBcryptError(bcrypt::BcryptError);

/// What `bcrypt::verify` answers for a password and a stored hash: whether they
/// match, or `None` when the hash is malformed.
pub uninterp spec fn bcrypt_verdict(password: Seq<char>, hash: Seq<char>) -> Option<bool>;

/// Relies on `bcrypt::verify`: whether `password` hashes to `hash` with the cost
/// and salt that `hash` holds; an error when `hash` is malformed. The answer
/// depends on the two texts alone.
#[verifier::external_body]
fn verify_password(password: &str, hash: &str) -> (r: Result<bool, bcrypt::BcryptError>)
    ensures
        r is Ok <==> bcrypt_verdict(password@, hash@) is Some,
        r is Ok ==> r->Ok_0 == bcrypt_verdict(password@, hash@)->Some_0,
{
    bcrypt::verify(password, hash)
}

/// Relies on `bcrypt::hash` with `bcrypt::DEFAULT_COST`: a hash of `password`
/// under a random salt, so nothing is promised of the text.
#[verifier::external_body]
fn hash_password(password: &str) -> (r: Result<String, bcrypt::BcryptError>) {
    bcrypt::hash(password, bcrypt::DEFAULT_COST)
}

/// A registered account: its name in lower case and its password hash.
#[derive(Clone, Debug, PartialEq, Eq)]
pub struct SQLUser {
    pub id: i64,
    pub username: String,
    pub password: String,
}

impl SQLUser {
    pub fn snapshot(&self) -> (r: SQLUser)
        ensures
            r == *self,
    {
        SQLUser { id: self.id, username: self.username.clone(), password: self.password.clone() }
    }
}

/// The identity of a registered account.
pub open spec fn identity_of(u: SQLUser) -> User {
    User { id: u.id, username: u.username, anonymous: false }
}

impl From<SQLUser> for User {
    fn from(value: SQLUser) -> (r: User) {
        User { id: value.id, username: value.username, anonymous: false }
    }
}

impl vstd::std_specs::convert::FromSpecImpl<SQLUser> for User {
    open spec fn obeys_from_spec() -> bool {
        true
    }

    open spec fn from_spec(v: SQLUser) -> User {
        identity_of(v)
    }
}

/// The registered accounts, in order of creation, with identifiers from 1 up.
pub struct UserDirectory {
    users: Vec<SQLUser>,
    next_id: i64,
}

pub struct DirectoryView {
    pub users: Seq<SQLUser>,
    pub next_id: i64,
}

impl View for UserDirectory {
    type V = DirectoryView;

    closed spec fn view(&self) -> DirectoryView {
        DirectoryView { users: self.users@, next_id: self.next_id }
    }
}

impl DirectoryView {
    pub open spec fn wf(self) -> bool {
        &&& 1 <= self.next_id
        &&& forall|i: int, j: int| 0 <= i < j < self.users.len() ==> self.users[i].id < self.users[j].id
        &&& forall|i: int| 0 <= i < self.users.len() ==> 1 <= #[trigger] self.users[i].id < self.next_id
    }
}

/// The oldest account whose stored name is `name`.
pub open spec fn find_user(users: Seq<SQLUser>, name: Seq<char>) -> Option<SQLUser>
    decreases users.len(),
{
    if users.len() == 0 {
        None
    } else if users[0].username@ == name {
        Some(users[0])
    } else {
        find_user(users.drop_first(), name)
    }
}

/// The account with identifier `id`.
pub open spec fn find_user_id(users: Seq<SQLUser>, id: i64) -> Option<SQLUser>
    decreases users.len(),
{
    if users.len() == 0 {
        None
    } else if users[0].id == id {
        Some(users[0])
    } else {
        find_user_id(users.drop_first(), id)
    }
}

/// The error that names an invalid field.
pub open spec fn field_error(e: RoadieAppError, field: Seq<char>) -> bool {
    e is ValidationFailedForField && e->ValidationFailedForField_0@ == field
}

/// What refuses a signup, checked in this order: a blank name, a blank
/// password, a confirmation that differs, a name already taken.
pub open spec fn signup_refusal(
    trimmed_username: Seq<char>,
    trimmed_password: Seq<char>,
    password: Seq<char>,
    confirmation: Seq<char>,
    taken: bool,
) -> Option<Seq<char>> {
    if trimmed_username.len() == 0 {
        Some("username"@)
    } else if trimmed_password.len() == 0 {
        Some("password"@)
    } else if password != confirmation {
        Some("password"@)
    } else if taken {
        Some("username"@)
    } else {
        None
    }
}

/// The error that refuses a signup, if any, given the trimmed name and
/// password and whether the name is taken.
pub fn signup_problem(
    trimmed_username: &str,
    trimmed_password: &str,
    password: &str,
    confirmation: &str,
    taken: bool,
) -> (r: Option<RoadieAppError>)
    ensures
        signup_refusal(trimmed_username@, trimmed_password@, password@, confirmation@, taken) is None
            ==> r is None,
        signup_refusal(trimmed_username@, trimmed_password@, password@, confirmation@, taken) is Some
            ==> r is Some && field_error(
            r->Some_0,
            signup_refusal(trimmed_username@, trimmed_password@, password@, confirmation@, taken)->Some_0,
        ),
{
    if trimmed_username.is_empty() {
        return Some(RoadieAppError::ValidationFailedForField(String::from_str("username")));
    }
    if trimmed_password.is_empty() {
        return Some(RoadieAppError::ValidationFailedForField(String::from_str("password")));
    }
    let p = String::from_str(password);
    let c = String::from_str(confirmation);
    if p != c {
        return Some(RoadieAppError::ValidationFailedForField(String::from_str("password")));
    }
    if taken {
        return Some(RoadieAppError::ValidationFailedForField(String::from_str("username")));
    }
    None
}

/// The answer to a login attempt against an account, given what checking the
/// password against its hash gave (`None`: the hash could not be read).
pub fn login_outcome(user: &SQLUser, verdict: Option<bool>) -> (r: RoadieResult<User>)
    ensures
        verdict == Some(true) ==> r == Ok::<User, RoadieAppError>(identity_of(*user)),
        verdict == Some(false) ==> r == Err::<User, RoadieAppError>(RoadieAppError::BadUserPassword),
        verdict is None ==> r is Err && r->Err_0 is ServerError,
{
    match verdict {
        Some(true) => Ok(User { id: user.id, username: user.username.clone(), anonymous: false }),
        Some(false) => Err(RoadieAppError::BadUserPassword),
        None => Err(RoadieAppError::ServerError(String::from_str("BCrypt error"))),
    }
}

impl UserDirectory {
    pub open spec fn wf(&self) -> bool {
        self@.wf()
    }

    pub fn new() -> (r: UserDirectory)
        ensures
            r.wf(),
            r@.users.len() == 0,
    {
        UserDirectory { users: Vec::new(), next_id: 1 }
    }

    /// Registers an account under the name in lower case, with a hash of the
    /// password; answers its identifier. Changes nothing when it fails.
    pub fn create(&mut self, username: &str, password: &str) -> (r: RoadieResult<i64>)
        requires
            old(self).wf(),
        ensures
            final(self).wf(),
            r is Err ==> final(self)@ == old(self)@,
            old(self)@.next_id == i64::MAX ==> r is Err,
            r is Ok ==> ({
                let u = final(self)@.users.last();
                &&& r->Ok_0 == old(self)@.next_id
                &&& final(self)@.next_id == old(self)@.next_id + 1
                &&& final(self)@.users.drop_last() == old(self)@.users
                &&& final(self)@.users.len() == old(self)@.users.len() + 1
                &&& u.id == old(self)@.next_id
                &&& u.username@ == lowered(username@)
            }),
    {
        if self.next_id == i64::MAX {
            return Err(RoadieAppError::ServerError(String::from_str("user identifiers exhausted")));
        }
        let hashed = match hash_password(password) {
            Ok(h) => h,
            Err(_) => return Err(RoadieAppError::InternalServerError),
        };
        let id = self.next_id;
        let ghost before = self.users@;
        assert(before == old(self)@.users);
        assert(old(self)@.wf());
        self.users.push(SQLUser { id: id, username: lowercase_text(username), password: hashed });
        self.next_id = id + 1;
        assert(self.users@.drop_last() =~= before);
        assert forall|i: int| 0 <= i < self.users@.len() implies 1 <= #[trigger] self.users@[i].id
            < self.next_id by {
            if i < before.len() {
                assert(self.users@[i] == before[i]);
            }
        }
        assert forall|i: int, j: int|
            0 <= i < j < self.users@.len() implies self.users@[i].id < self.users@[j].id by {
            assert(self.users@[i] == before[i]);
            if j < before.len() {
                assert(self.users@[j] == before[j]);
            }
        }
        assert(self@.wf());
        Ok(id)
    }

    /// The oldest account whose stored name is exactly `name`.
    pub fn by_normalized_username(&self, name: &str) -> (r: Option<SQLUser>)
        ensures
            r == find_user(self@.users, name@),
    {
        let n: usize = self.users.len();
        let mut i: usize = 0;
        assert(self@.users.subrange(0, n as int) =~= self@.users);
        while i < n
            invariant
                n == self.users@.len(),
                i <= n,
                find_user(self@.users, name@) == find_user(self@.users.subrange(i as int, n as int), name@),
            decreases n - i,
        {
            let ghost s = self@.users.subrange(i as int, n as int);
            assert(s.drop_first() =~= self@.users.subrange(i + 1, n as int));
            if self.users[i].username == String::from_str(name) {
                return Some(self.users[i].snapshot());
            }
            i = i + 1;
        }
        None
    }

    /// The account whose name matches `uname` once trimmed and in lower case.
    pub fn by_username(&self, uname: &str) -> (r: Option<SQLUser>)
        ensures
            r == find_user(self@.users, lowered(trimmed(uname@))),
    {
        let key = lowercase_text(trim_text(uname));
        self.by_normalized_username(key.as_str())
    }

    /// The account `id`.
    pub fn by_id(&self, id: i64) -> (r: Option<SQLUser>)
        ensures
            r == find_user_id(self@.users, id),
    {
        let n: usize = self.users.len();
        let mut i: usize = 0;
        assert(self@.users.subrange(0, n as int) =~= self@.users);
        while i < n
            invariant
                n == self.users@.len(),
                i <= n,
                find_user_id(self@.users, id) == find_user_id(self@.users.subrange(i as int, n as int), id),
            decreases n - i,
        {
            let ghost s = self@.users.subrange(i as int, n as int);
            assert(s.drop_first() =~= self@.users.subrange(i + 1, n as int));
            if self.users[i].id == id {
                return Some(self.users[i].snapshot());
            }
            i = i + 1;
        }
        None
    }
}

/// Registers an account. Refused, changing nothing, when the name or the
/// password is blank, the confirmation differs or the name is taken.
pub fn signup(
    dir: &mut UserDirectory,
    username: &str,
    password: &str,
    password_confirmation: &str,
) -> (r: RoadieResult<()>)
    requires
        old(dir).wf(),
    ensures
        final(dir).wf(),
        ({
            let refusal = signup_refusal(
                trimmed(username@),
                trimmed(password@),
                password@,
                password_confirmation@,
                find_user(old(dir)@.users, lowered(trimmed(username@))) is Some,
            );
            &&& refusal is Some ==> r is Err && field_error(r->Err_0, refusal->Some_0)
                && final(dir)@ == old(dir)@
            &&& refusal is None && r is Ok ==> final(dir)@.users.len() == old(dir)@.users.len() + 1
                && final(dir)@.users.drop_last() == old(dir)@.users
                && final(dir)@.users.last().username@ == lowered(username@)
            &&& refusal is None && r is Err ==> final(dir)@ == old(dir)@
        }),
{
    let existing = dir.by_username(username);
    let problem = signup_problem(
        trim_text(username),
        trim_text(password),
        password,
        password_confirmation,
        existing.is_some(),
    );
    if let Some(e) = problem {
        return Err(e);
    }
    match dir.create(username, password) {
        Ok(_) => Ok(()),
        Err(e) => Err(e),
    }
}

/// Logs a caller in. A caller already logged in gets its own identity back.
pub fn login(dir: &UserDirectory, auth: &User, username: &str, password: &str) -> (r: RoadieResult<User>)
    ensures
        !auth.anonymous ==> r == Ok::<User, RoadieAppError>(*auth),
        auth.anonymous && find_user(dir@.users, lowered(trimmed(username@))) is None ==> r == Err::<
            User,
            RoadieAppError,
        >(RoadieAppError::BadUserPassword),
        auth.anonymous && find_user(dir@.users, lowered(trimmed(username@))) is Some ==> ({
            let u = find_user(dir@.users, lowered(trimmed(username@)))->Some_0;
            let v = bcrypt_verdict(password@, u.password@);
            &&& v == Some(true) ==> r == Ok::<User, RoadieAppError>(identity_of(u))
            &&& v == Some(false) ==> r == Err::<User, RoadieAppError>(RoadieAppError::BadUserPassword)
            &&& v is None ==> r is Err && r->Err_0 is ServerError
        }),
{
    if !auth.is_anonymous() {
        return Ok(auth.snapshot());
    }
    match dir.by_username(username) {
        Some(u) => {
            let verdict = match verify_password(password, u.password.as_str()) {
                Ok(b) => Some(b),
                Err(_) => None,
            };
            login_outcome(&u, verdict)
        },
        None => Err(RoadieAppError::BadUserPassword),
    }
}

/// The identity of account `userid`, or the guest when there is none.
pub fn load_user(dir: &UserDirectory, userid: i64) -> (r: User)
    ensures
        find_user_id(dir@.users, userid) is Some ==> r == identity_of(
            find_user_id(dir@.users, userid)->Some_0,
        ),
        find_user_id(dir@.users, userid) is None ==> r.is_guest(),
{
    match dir.by_id(userid) {
        Some(u) => User { id: u.id, username: u.username, anonymous: false },
        None => User::default(),
    }
}

/// The caller's identity: the session's user, or the guest.
pub fn get_user(current_user: Option<User>) -> (r: User)
    ensures
        current_user is Some ==> r == current_user->Some_0,
        current_user is None ==> r.is_guest(),
{
    match current_user {
        Some(u) => u,
        None => User::default(),
    }
}

} // verus!
