//! The repository capability contract and the capability-provision
//! pattern: a use case asks any context for "something that can store
//! users" without knowing the concrete store.

use vstd::prelude::*;

use crate::user::{User, UserId};

verus! {

/// Failure reported by a repository implementation. Its cause stays on
/// the repository side; use cases re-classify it as internal.
#[derive(Debug)]
pub struct RepositoryError {
    pub message: String,
}

/// What a successful fetch returns, relative to the stored contents:
/// each returned user was requested and carries its stored name, every
/// requested identifier that is stored is returned, and no identifier
/// is returned twice — the result is the subset of requested
/// identifiers that exist.
pub open spec fn found_users_match(
    users: Map<u128, Seq<char>>,
    ids: Seq<UserId>,
    found: Seq<User>,
) -> bool {
    &&& forall|i: int|
        0 <= i < found.len() ==> {
            &&& ids.contains(#[trigger] found[i].id)
            &&& users.contains_key(found[i].id@)
            &&& found[i].name@ == users[found[i].id@]
        }
    &&& forall|j: int|
        0 <= j < ids.len() && users.contains_key(#[trigger] ids[j]@) ==> exists|i: int|
            0 <= i < found.len() && (#[trigger] found[i]).id == ids[j]
    &&& forall|i: int, j: int| 0 <= i < j < found.len() ==> found[i].id != found[j].id
}

/// The persistence operations a user store must support. Its abstract
/// state is a map from identifier value to stored name characters.
pub trait UserRepository: Sized {
    /// The stored contents: identifier value to name.
    spec fn users(&self) -> Map<u128, Seq<char>>;

    /// Whether the store currently refuses writes. A store whose
    /// failures cannot be foreseen may let this hold of every state;
    /// the in-memory stub refuses only when told to.
    spec fn saves_refused(&self) -> bool;

    /// Whether the store currently refuses reads.
    spec fn gets_refused(&self) -> bool;

    /// Persist one user. On success the store holds the user's name
    /// under its identifier; on failure the contents are unchanged.
    /// A store that does not refuse writes succeeds, and a save never
    /// changes whether the store refuses.
    fn save(&mut self, user: &User) -> (r: Result<(), RepositoryError>)
        ensures
            r is Ok ==> final(self).users() == old(self).users().insert(
                user.id@,
                user.name@,
            ),
            r is Err ==> final(self).users() == old(self).users(),
            !old(self).saves_refused() ==> r is Ok,
            final(self).saves_refused() == old(self).saves_refused(),
            final(self).gets_refused() == old(self).gets_refused(),
    ;

    /// Fetch the stored users among the requested identifiers. An
    /// identifier that is not stored is omitted, never an error: each
    /// returned user was requested and carries its stored name, and
    /// every requested identifier that is stored is returned. A store
    /// that does not refuse reads succeeds.
    fn get_by_ids(&self, ids: &Vec<UserId>) -> (r: Result<Vec<User>, RepositoryError>)
        ensures
            r matches Ok(found) ==> found_users_match(self.users(), ids@, found@),
            !self.gets_refused() ==> r is Ok,
    ;
}

/// Capability provision: a context owns one repository and lends it
/// out; use cases stay generic over the context.
pub trait ProvideUserRepository: Sized {
    type Repository: UserRepository;

    /// The repository the context holds.
    spec fn repository(&self) -> Self::Repository;

    /// Borrow the repository for reading.
    fn provide(&self) -> (r: &Self::Repository)
        ensures
            *r == self.repository(),
    ;

    /// Borrow the repository for writing.
    fn provide_mut(&mut self) -> (r: &mut Self::Repository)
        ensures
            *r == old(self).repository(),
            final(self).repository() == *final(r),
    ;
}

} // verus!
