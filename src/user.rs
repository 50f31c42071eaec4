use crate::errors::APIError;
use crate::table::{KeyEq, Table};
use vstd::prelude::*;

verus! {

/// Relies on uuid's `Uuid::new_v4` and its `Display`: a random version-4 UUID,
/// written as 36 hyphenated lowercase hex characters.
#[verifier::external_body]
fn random_uuid_string() -> (r: String)
    ensures
        r@.len() == 36,
{
    uuid::Uuid::new_v4().to_string()
}

/// The identifier of an account: the key that joins tokens, messages and settings.
#[derive(Debug)]
pub struct UserID {
    id: String,
}

impl View for UserID {
    type V = Seq<char>;

    closed spec fn view(&self) -> Seq<char> {
        self.id@
    }
}

impl UserID {
    /// A fresh random identifier.
    pub fn new() -> (r: UserID)
        ensures
            r@.len() == 36,
    {
        UserID { id: random_uuid_string() }
    }

    pub fn as_str(&self) -> (r: &str)
        ensures
            r@ == self@,
    {
        self.id.as_str()
    }
}

impl Default for UserID {
    /// The identifier made of the all-zero UUID, as uuid writes `Uuid::nil()`.
    fn default() -> (r: UserID)
        ensures
            r@ == "00000000-0000-0000-0000-000000000000"@,
    {
        UserID { id: String::from_str("00000000-0000-0000-0000-000000000000") }
    }
}

impl From<String> for UserID {
    fn from(value: String) -> (r: UserID) {
        UserID { id: value }
    }
}

impl vstd::std_specs::convert::FromSpecImpl<String> for UserID {
    open spec fn obeys_from_spec() -> bool {
        true
    }

    closed spec fn from_spec(v: String) -> UserID {
        UserID { id: v }
    }
}

impl Clone for UserID {
    fn clone(&self) -> (r: UserID)
        ensures
            r == *self,
    {
        UserID { id: self.id.clone() }
    }
}

impl PartialEq for UserID {
    fn eq(&self, other: &UserID) -> (r: bool) {
        self.id == other.id
    }
}

impl vstd::std_specs::cmp::PartialEqSpecImpl for UserID {
    open spec fn obeys_eq_spec() -> bool {
        true
    }

    open spec fn eq_spec(&self, other: &UserID) -> bool {
        self@ == other@
    }
}

impl KeyEq for UserID {
    fn key_eq(&self, other: &Self) -> (r: bool) {
        self.id == other.id
    }
}

/// An account holder.
#[derive(Debug)]
pub struct User {
    pub user_id: UserID,
    pub email: String,
    pub password_hash: String,
}

impl Clone for User {
    fn clone(&self) -> (r: User)
        ensures
            r == *self,
    {
        User {
            user_id: self.user_id.clone(),
            email: self.email.clone(),
            password_hash: self.password_hash.clone(),
        }
    }
}

impl PartialEq for User {
    fn eq(&self, other: &User) -> (r: bool) {
        self.user_id == other.user_id && self.email == other.email && self.password_hash
            == other.password_hash
    }
}

impl vstd::std_specs::cmp::PartialEqSpecImpl for User {
    open spec fn obeys_eq_spec() -> bool {
        true
    }

    open spec fn eq_spec(&self, other: &User) -> bool {
        &&& self.user_id@ == other.user_id@
        &&& self.email@ == other.email@
        &&& self.password_hash@ == other.password_hash@
    }
}

impl User {
    /// A new account with a fresh identifier; the password arrives already hashed.
    pub fn new(email: String, password_hash: String) -> (r: User)
        ensures
            r.email == email,
            r.password_hash == password_hash,
            r.user_id@.len() == 36,
    {
        User { user_id: UserID::new(), email, password_hash }
    }

    /// An example account. Its password hash is a fixed stand-in text, not the hash
    /// of any password: no password verifies against it.
    pub fn example() -> (r: User)
        ensures
            r.email@ == "Peter"@,
            r.password_hash@ == "asdfasdfasdf"@,
    {
        User::new(String::from_str("Peter"), String::from_str("asdfasdfasdf"))
    }
}

/// What is shown of an account to its holder.
#[derive(Debug)]
pub struct UserResponse {
    pub email: String,
}

impl From<User> for UserResponse {
    fn from(user: User) -> (r: UserResponse) {
        UserResponse { email: user.email }
    }
}

impl vstd::std_specs::convert::FromSpecImpl<User> for UserResponse {
    open spec fn obeys_from_spec() -> bool {
        true
    }

    open spec fn from_spec(v: User) -> UserResponse {
        UserResponse { email: v.email }
    }
}

/// The registry of accounts, keyed by identifier.
pub struct Users {
    users: Table<UserID, User>,
}

impl Users {
    /// The accounts, by the view of their identifier.
    pub closed spec fn view(&self) -> Map<Seq<char>, User> {
        self.users.map()
    }

    pub closed spec fn wf(&self) -> bool {
        &&& self.users.wf()
        &&& forall|k: Seq<char>| #[trigger]
            self.users.map().contains_key(k) ==> self.users.map()[k].user_id@ == k
    }

    pub fn new() -> (r: Users)
        ensures
            r.wf(),
            r.view() == Map::<Seq<char>, User>::empty(),
    {
        Users { users: Table::new() }
    }

    /// Stores `user` under its identifier, replacing an account with the same identifier.
    pub fn add_user(&mut self, user: User) -> (r: User)
        requires
            old(self).wf(),
        ensures
            final(self).wf(),
            r == user,
            final(self).view() == old(self).view().insert(user.user_id@, user),
    {
        let key = user.user_id.clone();
        let r = user.clone();
        self.users.insert(key, user);
        r
    }

    /// Removes the account with identifier `user_id`; `NotFound` if there is none.
    pub fn delete_user(&mut self, user_id: UserID) -> (r: Result<User, APIError>)
        requires
            old(self).wf(),
        ensures
            final(self).wf(),
            match r {
                Ok(u) => old(self).view().contains_key(user_id@) && u == old(self).view()[user_id@]
                    && final(self).view() == old(self).view().remove(user_id@),
                Err(e) => !old(self).view().contains_key(user_id@) && e == APIError::NotFound
                    && final(self).view() == old(self).view(),
            },
    {
        match self.users.remove(&user_id) {
            Some(u) => Ok(u),
            None => {
                assert(self.users.map() == old(self).users.map());
                Err(APIError::NotFound)
            },
        }
    }

    /// Every account, each once.
    pub fn get_users(&self) -> (r: Vec<User>)
        requires
            self.wf(),
        ensures
            forall|i: int|
                0 <= i < r@.len() ==> self.view().contains_key(#[trigger] r@[i].user_id@)
                    && self.view()[r@[i].user_id@] == r@[i],
            forall|k: Seq<char>| #[trigger]
                self.view().contains_key(k) ==> exists|i: int|
                    0 <= i < r@.len() && #[trigger] r@[i].user_id@ == k,
            forall|i: int, j: int|
                0 <= i < r@.len() && 0 <= j < r@.len() && i != j ==> #[trigger] r@[i].user_id@
                    != #[trigger] r@[j].user_id@,
    {
        let n = self.users.len();
        let mut r: Vec<User> = Vec::new();
        let mut i: usize = 0;
        while i < n
            invariant
                self.wf(),
                n == self.users.keys@.len(),
                i <= n,
                r@ == self.users.vals@.take(i as int),
            decreases n - i,
        {
            let u = self.users.vals[i].clone();
            r.push(u);
            i = i + 1;
            assert(r@ =~= self.users.vals@.take(i as int));
        }
        assert(r@ =~= self.users.vals@);
        assert forall|i: int|
            0 <= i < r@.len() implies self.view().contains_key(#[trigger] r@[i].user_id@)
                && self.view()[r@[i].user_id@] == r@[i] by {
            assert(self.users.map().contains_key(self.users.key_view(i)));
        }
        assert forall|k: Seq<char>| #[trigger]
            self.view().contains_key(k) implies exists|i: int|
                0 <= i < r@.len() && #[trigger] r@[i].user_id@ == k by {
            let i = choose|i: int|
                0 <= i < self.users.keys@.len() && #[trigger] self.users.key_view(i) == k;
            assert(self.users.map().contains_key(self.users.key_view(i)));
            assert(r@[i].user_id@ == k);
        }
        assert forall|i: int, j: int|
            0 <= i < r@.len() && 0 <= j < r@.len() && i != j implies #[trigger] r@[i].user_id@
                != #[trigger] r@[j].user_id@ by {
            assert(self.users.map().contains_key(self.users.key_view(i)));
            assert(self.users.map().contains_key(self.users.key_view(j)));
            assert(self.users.key_view(i) != self.users.key_view(j));
        }
        r
    }

    /// The account with identifier `user_id`; `NotFound` if there is none.
    pub fn get_user_by_id(&self, user_id: UserID) -> (r: Result<User, APIError>)
        requires
            self.wf(),
        ensures
            match r {
                Ok(u) => self.view().contains_key(user_id@) && u == self.view()[user_id@],
                Err(e) => !self.view().contains_key(user_id@) && e == APIError::NotFound,
            },
    {
        match self.users.get(&user_id) {
            Some(u) => Ok(u.clone()),
            None => Err(APIError::NotFound),
        }
    }

    /// The account registered under the address `username`, when exactly one is.
    pub fn get_user_by_name(&self, username: &str) -> (r: Option<&User>)
        requires
            self.wf(),
        ensures
            match r {
                Some(u) => self.view().contains_key(u.user_id@) && self.view()[u.user_id@] == *u
                    && u.email@ == username@ && forall|k: Seq<char>| #[trigger]
                    self.view().contains_key(k) && self.view()[k].email@ == username@ ==> k
                        == u.user_id@,
                None => !(exists|k: Seq<char>| #[trigger]
                    self.view().contains_key(k) && self.view()[k].email@ == username@ && forall|
                        k2: Seq<char>,
                    | #[trigger]
                        self.view().contains_key(k2) && self.view()[k2].email@ == username@ ==> k2
                            == k),
            },
    {
        let name = username.to_owned();
        let n = self.users.len();
        let mut found: Option<usize> = None;
        let mut count: usize = 0;
        let mut i: usize = 0;
        while i < n
            invariant
                self.wf(),
                n == self.users.keys@.len(),
                i <= n,
                name@ == username@,
                count <= 2,
                count == 0 ==> found is None && forall|j: int|
                    0 <= j < i ==> #[trigger] self.users.vals@[j].email@ != username@,
                count >= 1 ==> found is Some && found->0 < i && self.users.vals@[found->0 as int].email@
                    == username@,
                count == 1 ==> forall|j: int|
                    0 <= j < i && j != found->0 ==> #[trigger] self.users.vals@[j].email@
                        != username@,
                count == 2 ==> exists|j: int|
                    0 <= j < i && j != found->0 && #[trigger] self.users.vals@[j].email@
                        == username@,
            decreases n - i,
        {
            if self.users.vals[i].email == name {
                if count == 0 {
                    found = Some(i);
                    count = 1;
                } else {
                    count = 2;
                }
            }
            i = i + 1;
        }
        if count == 1 {
            let f = found.unwrap();
            let u = &self.users.vals[f];
            proof {
                assert(self.users.map().contains_key(self.users.key_view(f as int)));
                assert forall|k: Seq<char>| #[trigger]
                    self.view().contains_key(k) && self.view()[k].email@ == username@ implies k
                        == u.user_id@ by {
                    let j = choose|j: int|
                        0 <= j < self.users.keys@.len() && #[trigger] self.users.key_view(j) == k;
                    assert(self.users.map().contains_key(self.users.key_view(j)));
                    assert(self.users.vals@[j].email@ == username@);
                }
            }
            Some(u)
        } else {
            proof {
                if count == 2 {
                    let f = found->0 as int;
                    let j = choose|j: int|
                        0 <= j < n && j != f && #[trigger] self.users.vals@[j].email@ == username@;
                    assert(self.users.map().contains_key(self.users.key_view(f)));
                    assert(self.users.map().contains_key(self.users.key_view(j)));
                    assert(self.users.key_view(f) != self.users.key_view(j));
                    assert forall|k: Seq<char>| #[trigger]
                        self.view().contains_key(k) && self.view()[k].email@ == username@ implies exists|
                            k2: Seq<char>,
                        | #[trigger]
                            self.view().contains_key(k2) && self.view()[k2].email@ == username@
                                && k2 != k by {
                        if k == self.users.key_view(f) {
                            assert(self.view().contains_key(self.users.key_view(j)));
                        } else {
                            assert(self.view().contains_key(self.users.key_view(f)));
                        }
                    }
                } else {
                    assert forall|k: Seq<char>| #[trigger]
                        self.view().contains_key(k) implies self.view()[k].email@ != username@ by {
                        let j = choose|j: int|
                            0 <= j < self.users.keys@.len() && #[trigger] self.users.key_view(j)
                                == k;
                        assert(self.users.map().contains_key(self.users.key_view(j)));
                    }
                }
            }
            None
        }
    }

    /// A registry that holds one example account.
    pub fn example() -> (r: Users)
        ensures
            r.wf(),
            r.view().len() == 1,
            forall|k: Seq<char>| #[trigger]
                r.view().contains_key(k) ==> r.view()[k].email@ == "xx"@
                    && r.view()[k].password_hash@ == "xx"@,
    {
        let mut users = Users::new();
        let test_user = User::new(String::from_str("xx"), String::from_str("xx"));
        let ghost k = test_user.user_id@;
        users.add_user(test_user);
        assert(users.view().dom() =~= set![k]);
        users
    }
}

} // verus!
