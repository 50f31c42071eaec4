use crate::errors::APIError;
use crate::table::Table;
use crate::user::UserID;
use vstd::prelude::*;

verus! {

/// Number of characters of a generated token.
pub const TOKEN_LENGTH: u32 = 32;

pub open spec fn is_alphanumeric(c: char) -> bool {
    ('a' <= c && c <= 'z') || ('A' <= c && c <= 'Z') || ('0' <= c && c <= '9')
}

/// Relies on rand 0.8: `Alphanumeric.sample_string` over `thread_rng` yields `length`
/// characters, each drawn from the ASCII letters and digits.
#[verifier::external_body]
pub fn random_alphanumeric_string(length: u32) -> (r: String)
    ensures
        r@.len() == length,
        forall|i: int| 0 <= i < r@.len() ==> is_alphanumeric(#[trigger] r@[i]),
{
    rand::distributions::DistString::sample_string(
        &rand::distributions::Alphanumeric,
        &mut rand::thread_rng(),
        length as usize,
    )
}

/// The views of a sequence of strings.
pub open spec fn string_views(s: Seq<String>) -> Seq<Seq<char>> {
    s.map_values(|x: String| x@)
}

/// The account that token `t` grants ingestion rights for, if any.
pub open spec fn account_of(m: Map<Seq<char>, UserID>, t: Seq<char>) -> Option<UserID> {
    if m.contains_key(t) {
        Some(m[t])
    } else {
        None
    }
}

/// The live tokens of account `a`.
pub open spec fn tokens_of(m: Map<Seq<char>, UserID>, a: Seq<char>) -> Set<Seq<char>> {
    Set::new(|t: Seq<char>| m.contains_key(t) && m[t]@ == a)
}

/// An operation on the token store, for stating what a run of them does.
pub ghost enum TokenOp {
    Create(Seq<char>, UserID),
    Revoke(Seq<char>),
}

/// One operation: a creation takes effect only for a token not yet in use.
pub open spec fn apply_token_op(m: Map<Seq<char>, UserID>, op: TokenOp) -> Map<Seq<char>, UserID> {
    match op {
        TokenOp::Create(t, a) => if m.contains_key(t) {
            m
        } else {
            m.insert(t, a)
        },
        TokenOp::Revoke(t) => m.remove(t),
    }
}

pub open spec fn apply_token_ops(m: Map<Seq<char>, UserID>, ops: Seq<TokenOp>) -> Map<
    Seq<char>,
    UserID,
>
    decreases ops.len(),
{
    if ops.len() == 0 {
        m
    } else {
        apply_token_op(apply_token_ops(m, ops.drop_last()), ops.last())
    }
}

/// A run of operations that never revokes `t` leaves `t` where it was: `Create`
/// takes no effect on a token in use, and removals of other tokens do not touch it.
proof fn lemma_ops_keep_token(m: Map<Seq<char>, UserID>, ops: Seq<TokenOp>, t: Seq<char>)
    requires
        m.contains_key(t),
        forall|i: int| 0 <= i < ops.len() ==> ops[i] != TokenOp::Revoke(t),
    ensures
        account_of(apply_token_ops(m, ops), t) == account_of(m, t),
    decreases ops.len(),
{
    if ops.len() > 0 {
        let prefix = ops.drop_last();
        assert forall|i: int| 0 <= i < prefix.len() implies prefix[i] != TokenOp::Revoke(t) by {
            assert(prefix[i] == ops[i]);
        }
        lemma_ops_keep_token(m, prefix, t);
        assert(ops.last() == ops[ops.len() - 1]);
    }
}

/// A token created for account `a` resolves to `a` through any run of operations
/// that does not revoke it, and resolves to nothing once it is revoked.
pub proof fn lemma_token_resolves_until_revoked(
    m: Map<Seq<char>, UserID>,
    t: Seq<char>,
    a: UserID,
    ops: Seq<TokenOp>,
)
    requires
        !m.contains_key(t),
    ensures
        (forall|i: int| 0 <= i < ops.len() ==> ops[i] != TokenOp::Revoke(t)) ==> account_of(
            apply_token_ops(apply_token_op(m, TokenOp::Create(t, a)), ops),
            t,
        ) == Some(a),
        account_of(
            apply_token_ops(
                apply_token_op(m, TokenOp::Create(t, a)),
                ops.push(TokenOp::Revoke(t)),
            ),
            t,
        ) is None,
{
    let created = apply_token_op(m, TokenOp::Create(t, a));
    assert(created.contains_key(t) && created[t] == a);
    if forall|i: int| 0 <= i < ops.len() ==> ops[i] != TokenOp::Revoke(t) {
        lemma_ops_keep_token(created, ops, t);
    }
    assert(ops.push(TokenOp::Revoke(t)).drop_last() == ops);
}

/// An account without tokens for which two tokens are created lists exactly those
/// two, whatever the order of the listing.
pub proof fn lemma_two_created_tokens_listed(
    m: Map<Seq<char>, UserID>,
    a: UserID,
    t1: Seq<char>,
    t2: Seq<char>,
    listed: Seq<Seq<char>>,
)
    requires
        tokens_of(m, a@).is_empty(),
        !m.contains_key(t1),
        !apply_token_op(m, TokenOp::Create(t1, a)).contains_key(t2),
        listed.no_duplicates(),
        listed.to_set() == tokens_of(
            apply_token_op(apply_token_op(m, TokenOp::Create(t1, a)), TokenOp::Create(t2, a)),
            a@,
        ),
    ensures
        listed.len() == 2,
        listed.contains(t1),
        listed.contains(t2),
{
    let after = apply_token_op(apply_token_op(m, TokenOp::Create(t1, a)), TokenOp::Create(t2, a));
    assert(t1 != t2);
    assert forall|t: Seq<char>| tokens_of(after, a@).contains(t) <==> t == t1 || t == t2 by {
        if t != t1 && t != t2 && after.contains_key(t) && after[t]@ == a@ {
            assert(tokens_of(m, a@).contains(t));
        }
    }
    assert(tokens_of(after, a@) =~= set![t1, t2]);
    listed.unique_seq_to_set();
    assert(listed.to_set().contains(t1));
    assert(listed.to_set().contains(t2));
}

/// Capability tokens and the accounts they belong to. Each token belongs to one
/// account; an account may hold any number of tokens.
pub struct TokenStore {
    tokens: Table<String, UserID>,
}

impl TokenStore {
    /// Token to owning account.
    pub closed spec fn view(&self) -> Map<Seq<char>, UserID> {
        self.tokens.map()
    }

    pub closed spec fn wf(&self) -> bool {
        self.tokens.wf()
    }

    pub fn new() -> (r: TokenStore)
        ensures
            r.wf(),
            r.view() == Map::<Seq<char>, UserID>::empty(),
    {
        TokenStore { tokens: Table::new() }
    }

    /// Records `token` for `user_id` unless the token is already in use; says whether it did.
    pub fn insert_token(&mut self, user_id: &UserID, token: String) -> (r: bool)
        requires
            old(self).wf(),
        ensures
            final(self).wf(),
            r == !old(self).view().contains_key(token@),
            final(self).view() == apply_token_op(old(self).view(), TokenOp::Create(token@, *user_id)),
    {
        if self.tokens.find(&token).is_some() {
            return false;
        }
        self.tokens.insert(token, user_id.clone());
        true
    }

    /// Creates a fresh random token for `user_id`. It fails, leaving the store as it
    /// was, only when the drawn token is already in use.
    pub fn create_token_for_user_id(&mut self, user_id: &UserID) -> (r: Result<String, APIError>)
        requires
            old(self).wf(),
        ensures
            final(self).wf(),
            match r {
                Ok(t) => {
                    &&& !old(self).view().contains_key(t@)
                    &&& final(self).view() == old(self).view().insert(t@, *user_id)
                    &&& t@.len() == TOKEN_LENGTH
                    &&& forall|i: int| 0 <= i < t@.len() ==> is_alphanumeric(#[trigger] t@[i])
                },
                Err(e) => {
                    &&& e == APIError::InternalServerError
                    &&& final(self).view() == old(self).view()
                    &&& exists|t: Seq<char>|
                        old(self).view().contains_key(t) && t.len() == TOKEN_LENGTH
                }
            },
    {
        let token = random_alphanumeric_string(TOKEN_LENGTH);
        let copy = token.clone();
        if self.insert_token(user_id, token) {
            Ok(copy)
        } else {
            Err(APIError::InternalServerError)
        }
    }

    /// The live tokens of `user_id`, each once; empty for an account without tokens.
    pub fn get_token_of_user_id(&self, user_id: &UserID) -> (r: Vec<String>)
        requires
            self.wf(),
        ensures
            string_views(r@).no_duplicates(),
            string_views(r@).to_set() == tokens_of(self.view(), user_id@),
    {
        let n = self.tokens.len();
        let mut r: Vec<String> = Vec::new();
        let mut i: usize = 0;
        while i < n
            invariant
                self.wf(),
                n == self.tokens.keys@.len(),
                i <= n,
                string_views(r@).no_duplicates(),
                forall|t: Seq<char>|
                    #[trigger] string_views(r@).contains(t) <==> exists|j: int|
                        0 <= j < i && #[trigger] self.tokens.key_view(j) == t
                            && self.tokens.vals@[j]@ == user_id@,
            decreases n - i,
        {
            let ghost before = string_views(r@);
            if self.tokens.vals[i] == *user_id {
                let t = self.tokens.keys[i].clone();
                r.push(t);
                proof {
                    let now = string_views(r@);
                    assert(now =~= before.push(self.tokens.key_view(i as int)));
                    assert forall|a: int, b: int|
                        0 <= a < now.len() && 0 <= b < now.len() && a != b implies now[a]
                            != now[b] by {
                        if a == now.len() - 1 || b == now.len() - 1 {
                            let o = if a == now.len() - 1 { b } else { a };
                            if now[o] == self.tokens.key_view(i as int) {
                                assert(before.contains(now[o]));
                                let j = choose|j: int|
                                    0 <= j < i && #[trigger] self.tokens.key_view(j) == now[o]
                                        && self.tokens.vals@[j]@ == user_id@;
                                assert(self.tokens.key_view(j) != self.tokens.key_view(i as int));
                            }
                        }
                    }
                    assert forall|t: Seq<char>|
                        #[trigger] now.contains(t) <==> exists|j: int|
                            0 <= j < i + 1 && #[trigger] self.tokens.key_view(j) == t
                                && self.tokens.vals@[j]@ == user_id@ by {
                        if now.contains(t) && t != self.tokens.key_view(i as int) {
                            let k = choose|k: int| 0 <= k < now.len() && now[k] == t;
                            assert(before[k] == t);
                            assert(before.contains(t));
                        }
                        if exists|j: int|
                            0 <= j < i + 1 && #[trigger] self.tokens.key_view(j) == t
                                && self.tokens.vals@[j]@ == user_id@ {
                            let j = choose|j: int|
                                0 <= j < i + 1 && #[trigger] self.tokens.key_view(j) == t
                                    && self.tokens.vals@[j]@ == user_id@;
                            if j < i {
                                assert(before.contains(t));
                                let k = choose|k: int| 0 <= k < before.len() && before[k] == t;
                                assert(now[k] == t);
                            } else {
                                assert(now[now.len() - 1] == t);
                            }
                        }
                    }
                }
            } else {
                proof {
                    assert forall|t: Seq<char>|
                        #[trigger] before.contains(t) <==> exists|j: int|
                            0 <= j < i + 1 && #[trigger] self.tokens.key_view(j) == t
                                && self.tokens.vals@[j]@ == user_id@ by {
                        if exists|j: int|
                            0 <= j < i + 1 && #[trigger] self.tokens.key_view(j) == t
                                && self.tokens.vals@[j]@ == user_id@ {
                            let j = choose|j: int|
                                0 <= j < i + 1 && #[trigger] self.tokens.key_view(j) == t
                                    && self.tokens.vals@[j]@ == user_id@;
                            assert(j != i);
                        }
                    }
                }
            }
            i = i + 1;
        }
        proof {
            let seen = string_views(r@);
            assert forall|t: Seq<char>|
                seen.to_set().contains(t) <==> tokens_of(self.view(), user_id@).contains(t) by {
                if seen.contains(t) {
                    let j = choose|j: int|
                        0 <= j < n && #[trigger] self.tokens.key_view(j) == t
                            && self.tokens.vals@[j]@ == user_id@;
                    assert(self.tokens.map().contains_key(self.tokens.key_view(j)));
                }
                if tokens_of(self.view(), user_id@).contains(t) {
                    let j = choose|j: int|
                        0 <= j < self.tokens.keys@.len() && #[trigger] self.tokens.key_view(j)
                            == t;
                    assert(self.tokens.map().contains_key(self.tokens.key_view(j)));
                }
            }
            assert(seen.to_set() =~= tokens_of(self.view(), user_id@));
        }
        r
    }

    /// The account that `token` belongs to, if it is live.
    pub fn get_user_id_of_token(&self, token: &String) -> (r: Option<UserID>)
        requires
            self.wf(),
        ensures
            r == account_of(self.view(), token@),
    {
        match self.tokens.get(token) {
            Some(u) => Some(u.clone()),
            None => None,
        }
    }

    /// Revokes `token`, removing it and its owner's claim on it at once; `NotFound`
    /// if it is not live.
    pub fn delete_token(&mut self, token: &String) -> (r: Result<(), APIError>)
        requires
            old(self).wf(),
        ensures
            final(self).wf(),
            r is Ok <==> old(self).view().contains_key(token@),
            r is Err ==> r == Err::<(), APIError>(APIError::NotFound),
            final(self).view() == apply_token_op(old(self).view(), TokenOp::Revoke(token@)),
    {
        match self.tokens.remove(token) {
            Some(_) => Ok(()),
            None => Err(APIError::NotFound),
        }
    }
}

} // verus!
