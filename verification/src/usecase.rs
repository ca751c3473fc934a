//! The application layer: one use case per business action, written
//! against any context that can provide a user repository, translating
//! repository failures and missing identifiers into the error taxonomy.

use vstd::prelude::*;

use crate::error::AppError;
use crate::repository::{found_users_match, ProvideUserRepository, UserRepository};
use crate::user::{hyphenated_of, vec_contains_id, User, UserId, UserName};

verus! {

/// The command for creating a user: it carries an already-validated
/// name, so building one from raw input forces validation first.
pub struct CreateUserCommand {
    pub name: UserName,
}

/// First stage of the command builder: no name supplied yet.
pub struct CreateUserCommandBuilder;

/// Second stage of the command builder: the name is set.
pub struct CreateUserCommandNamed {
    pub name: UserName,
}

impl CreateUserCommand {
    /// Start building a command.
    pub fn builder() -> (r: CreateUserCommandBuilder) {
        CreateUserCommandBuilder
    }
}

impl CreateUserCommandBuilder {
    /// Supply the validated name.
    pub fn name(self, name: UserName) -> (r: CreateUserCommandNamed)
        ensures
            r.name == name,
    {
        CreateUserCommandNamed { name }
    }
}

impl CreateUserCommandNamed {
    /// Finish the command.
    pub fn build(self) -> (r: CreateUserCommand)
        ensures
            r.name == self.name,
    {
        CreateUserCommand { name: self.name }
    }
}

/// Create a user under a fresh identifier and persist it with exactly
/// one save: a store that does not refuse writes makes this succeed.
/// A repository failure is surfaced as an internal error; its cause is
/// not leaked.
pub fn create_user<T: ProvideUserRepository>(ctx: &mut T, cmd: CreateUserCommand) -> (r: Result<
    User,
    AppError,
>)
    ensures
        !old(ctx).repository().saves_refused() ==> r is Ok,
        final(ctx).repository().saves_refused() == old(ctx).repository().saves_refused(),
        final(ctx).repository().gets_refused() == old(ctx).repository().gets_refused(),
        match r {
            Ok(u) => {
                &&& u.name == cmd.name
                &&& final(ctx).repository().users() == old(ctx).repository().users().insert(
                    u.id@,
                    u.name@,
                )
            },
            Err(e) => {
                &&& e matches AppError::Internal(m) && m@ == "failed to create user"@
                &&& final(ctx).repository().users() == old(ctx).repository().users()
            },
        },
{
    let user = User::new(cmd.name);
    let user_repository = ctx.provide_mut();
    match user_repository.save(&user) {
        Ok(()) => Ok(user),
        Err(_) => Err(AppError::Internal(String::from_str("failed to create user"))),
    }
}

/// The elements of `s1` that do not occur in `s2`, first occurrences
/// only, in the order of `s1`.
pub open spec fn seq_diff(s1: Seq<UserId>, s2: Seq<UserId>) -> Seq<UserId>
    decreases s1.len(),
{
    if s1.len() == 0 {
        Seq::empty()
    } else {
        let rest = seq_diff(s1.drop_last(), s2);
        if s2.contains(s1.last()) || s1.drop_last().contains(s1.last()) {
            rest
        } else {
            rest.push(s1.last())
        }
    }
}

/// Membership in the difference: exactly the elements of `s1` that
/// are not in `s2`.
proof fn lemma_seq_diff_contains(s1: Seq<UserId>, s2: Seq<UserId>, x: UserId)
    ensures
        seq_diff(s1, s2).contains(x) <==> (s1.contains(x) && !s2.contains(x)),
    decreases s1.len(),
{
    if s1.len() > 0 {
        lemma_seq_diff_contains(s1.drop_last(), s2, x);
        let last = s1.last();
        assert(s1.contains(x) <==> (s1.drop_last().contains(x) || last == x)) by {
            if s1.contains(x) {
                let i = choose|i: int| 0 <= i < s1.len() && s1[i] == x;
                if i < s1.len() - 1 {
                    assert(s1.drop_last()[i] == x);
                }
            }
            if s1.drop_last().contains(x) {
                let i = choose|i: int| 0 <= i < s1.drop_last().len() && s1.drop_last()[i] == x;
                assert(s1[i] == x);
            }
        }
        let rest = seq_diff(s1.drop_last(), s2);
        if !(s2.contains(last) || s1.drop_last().contains(last)) {
            assert(rest.push(last).contains(x) <==> (rest.contains(x) || last == x)) by {
                if rest.contains(x) {
                    let i = choose|i: int| 0 <= i < rest.len() && rest[i] == x;
                    assert(rest.push(last)[i] == x);
                }
                assert(rest.push(last)[rest.len() as int] == last);
                if rest.push(last).contains(x) {
                    let i = choose|i: int| 0 <= i < rest.push(last).len() && rest.push(last)[i]
                        == x;
                    if i < rest.len() {
                        assert(rest[i] == x);
                    }
                }
            }
        }
    }
}

/// The requested identifiers that the store does not hold, first
/// occurrences only, in request order.
pub open spec fn missing_from(ids: Seq<UserId>, users: Map<u128, Seq<char>>) -> Seq<UserId>
    decreases ids.len(),
{
    if ids.len() == 0 {
        Seq::empty()
    } else {
        let rest = missing_from(ids.drop_last(), users);
        if users.contains_key(ids.last()@) || ids.drop_last().contains(ids.last()) {
            rest
        } else {
            rest.push(ids.last())
        }
    }
}

/// When membership in `s2` coincides with being stored, the vector
/// difference is exactly the missing identifiers.
proof fn lemma_seq_diff_is_missing(ids: Seq<UserId>, s2: Seq<UserId>, users: Map<u128, Seq<char>>)
    requires
        forall|x: UserId| #[trigger] ids.contains(x) ==> (s2.contains(x) <==> users.contains_key(x@)),
    ensures
        seq_diff(ids, s2) == missing_from(ids, users),
    decreases ids.len(),
{
    if ids.len() > 0 {
        assert forall|x: UserId| #[trigger]
            ids.drop_last().contains(x) implies (s2.contains(x) <==> users.contains_key(x@)) by {
            let i = choose|i: int| 0 <= i < ids.drop_last().len() && ids.drop_last()[i] == x;
            assert(ids[i] == x);
            assert(ids.contains(x));
        }
        lemma_seq_diff_is_missing(ids.drop_last(), s2, users);
        assert(ids[ids.len() - 1] == ids.last());
        assert(ids.contains(ids.last()));
    }
}

/// The set difference of two identifier vectors, each element of the
/// first kept once, in order.
pub fn diff_vec(vec1: Vec<UserId>, vec2: Vec<UserId>) -> (r: Vec<UserId>)
    ensures
        r@ == seq_diff(vec1@, vec2@),
{
    let mut r: Vec<UserId> = Vec::new();
    let n = vec1.len();
    let mut t: usize = 0;
    while t < n
        invariant
            t <= n,
            n == vec1@.len(),
            r@ == seq_diff(vec1@.subrange(0, t as int), vec2@),
        decreases n - t,
    {
        let ghost prefix = vec1@.subrange(0, t as int);
        let x = vec1[t];
        proof {
            assert(vec1@.subrange(0, t + 1).drop_last() =~= prefix);
            assert(vec1@.subrange(0, t + 1).last() == x);
            lemma_seq_diff_contains(prefix, vec2@, x);
        }
        if !vec_contains_id(&vec2, x) && !vec_contains_id(&r, x) {
            r.push(x);
        }
        t += 1;
    }
    proof {
        assert(vec1@.subrange(0, n as int) =~= vec1@);
    }
    r
}

/// The separated listing of identifiers inside the missing-ids
/// message, each in its hyphenated form.
pub open spec fn ids_listing(ids: Seq<UserId>) -> Seq<char>
    decreases ids.len(),
{
    if ids.len() == 0 {
        Seq::empty()
    } else if ids.len() == 1 {
        hyphenated_of(ids[0]@)
    } else {
        ids_listing(ids.drop_last()) + ", "@ + hyphenated_of(ids.last()@)
    }
}

/// The message reported when requested identifiers are not stored.
pub open spec fn not_found_message(ids: Seq<UserId>) -> Seq<char> {
    "user_ids: ["@ + ids_listing(ids) + "] is/are not found"@
}

/// Build the missing-ids message for the given identifiers.
fn build_not_found_message(ids: &Vec<UserId>) -> (r: String)
    ensures
        r@ == not_found_message(ids@),
{
    let mut s = String::from_str("user_ids: [");
    let n = ids.len();
    let mut t: usize = 0;
    while t < n
        invariant
            t <= n,
            n == ids@.len(),
            s@ == "user_ids: ["@ + ids_listing(ids@.subrange(0, t as int)),
        decreases n - t,
    {
        if t > 0 {
            s.append(", ");
        }
        let part = ids[t].to_string();
        s.append(part.as_str());
        proof {
            assert(ids@.subrange(0, t + 1).drop_last() =~= ids@.subrange(0, t as int));
            assert(ids@.subrange(0, t + 1).last() == ids@[t as int]);
            if t == 0 {
                assert(ids@.subrange(0, 1)[0] == ids@[0]);
                assert(s@ =~= "user_ids: ["@ + ids_listing(ids@.subrange(0, 1)));
            } else {
                assert(s@ =~= "user_ids: ["@ + ids_listing(ids@.subrange(0, t + 1)));
            }
        }
        t += 1;
    }
    s.append("] is/are not found");
    proof {
        assert(ids@.subrange(0, n as int) =~= ids@);
        assert(s@ =~= not_found_message(ids@));
    }
    s
}

/// Fetch the users behind the requested identifiers. Every requested
/// identifier must exist: if any is not stored, the whole request
/// fails as an invalid argument naming the missing identifiers; if all
/// are stored and the store does not refuse reads, it succeeds. The
/// returned order is the store's, not the request's.
pub fn get_users_by_ids<T: ProvideUserRepository>(ctx: &T, ids: Vec<UserId>) -> (r: Result<
    Vec<User>,
    AppError,
>)
    ensures
        !ctx.repository().gets_refused() && missing_from(ids@, ctx.repository().users()).len()
            == 0 ==> r is Ok,
        match r {
            Ok(users) => {
                &&& found_users_match(ctx.repository().users(), ids@, users@)
                &&& forall|j: int|
                    0 <= j < ids@.len() ==> ctx.repository().users().contains_key(
                        (#[trigger] ids@[j])@,
                    )
            },
            Err(e) => match e {
                AppError::Internal(m) => m@ == "failed to get users"@,
                AppError::InvalidArgument(m) => {
                    &&& missing_from(ids@, ctx.repository().users()).len() > 0
                    &&& m@ == not_found_message(missing_from(ids@, ctx.repository().users()))
                },
                AppError::NotFound(_) => false,
            },
        },
{
    let ghost ids_v = ids@;
    let user_repository = ctx.provide();
    let users = match user_repository.get_by_ids(&ids) {
        Ok(us) => us,
        Err(_) => {
            return Err(AppError::Internal(String::from_str("failed to get users")));
        },
    };
    let mut found_ids: Vec<UserId> = Vec::new();
    let m = users.len();
    let mut i: usize = 0;
    while i < m
        invariant
            i <= m,
            m == users@.len(),
            found_ids@.len() == i,
            forall|q: int| 0 <= q < i ==> found_ids@[q] == users@[q].id,
        decreases m - i,
    {
        found_ids.push(users[i].id().clone());
        i += 1;
    }
    let ghost repo_users = ctx.repository().users();
    proof {
        assert forall|x: UserId| #[trigger]
            ids_v.contains(x) implies (found_ids@.contains(x) <==> repo_users.contains_key(
            x@,
        )) by {
            if found_ids@.contains(x) {
                let q = choose|q: int| 0 <= q < found_ids@.len() && found_ids@[q] == x;
                assert(users@[q].id == x);
            }
            if repo_users.contains_key(x@) {
                let j = choose|j: int| 0 <= j < ids_v.len() && ids_v[j] == x;
                assert(repo_users.contains_key(ids_v[j]@));
                let q = choose|q: int|
                    0 <= q < users@.len() && (#[trigger] users@[q]).id == ids_v[j];
                assert(found_ids@[q] == x);
            }
        }
        lemma_seq_diff_is_missing(ids_v, found_ids@, repo_users);
    }
    let not_found_ids = diff_vec(ids, found_ids);
    if not_found_ids.len() > 0 {
        let msg = build_not_found_message(&not_found_ids);
        Err(AppError::InvalidArgument(msg))
    } else {
        proof {
            assert forall|j: int|
                0 <= j < ids_v.len() implies repo_users.contains_key((#[trigger] ids_v[j])@) by {
                assert(ids_v.contains(ids_v[j]));
                if !found_ids@.contains(ids_v[j]) {
                    lemma_seq_diff_contains(ids_v, found_ids@, ids_v[j]);
                    assert(seq_diff(ids_v, found_ids@).contains(ids_v[j]));
                }
            }
        }
        Ok(users)
    }
}

} // verus!
