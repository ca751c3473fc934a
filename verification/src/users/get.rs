//! Handling of `GET /users`: parse the requested identifiers, fetch
//! the users behind them, and shape the response.

use vstd::prelude::*;

use crate::error_handler::{handle_error, ErrorResponse};
use crate::repository::{found_users_match, ProvideUserRepository, UserRepository};
use crate::usecase::{missing_from, not_found_message};
use crate::user::{
    hyphenated_of, lemma_user_id_determined, lemma_user_id_of, user_id_of, uuid_value,
    valid_uuid_string, User, UserId,
};

verus! {

/// One requested identifier, as it arrives in the query string.
#[derive(Debug)]
pub struct UserIdReq(pub String);

impl View for UserIdReq {
    type V = Seq<char>;

    open spec fn view(&self) -> Seq<char> {
        self.0@
    }
}

/// The decoded query of a batch lookup.
#[derive(Debug)]
pub struct GetUsersByIdsRequest {
    pub user_ids: Vec<UserIdReq>,
}

/// Every requested identifier string is well formed.
pub open spec fn all_ids_valid(reqs: Seq<UserIdReq>) -> bool {
    forall|k: int| 0 <= k < reqs.len() ==> valid_uuid_string((#[trigger] reqs[k])@)
}

/// The identifier values a well-formed request denotes.
pub open spec fn requested_ids(reqs: Seq<UserIdReq>) -> Seq<UserId> {
    Seq::new(reqs.len(), |k: int| user_id_of(uuid_value(reqs[k]@) as u128))
}

/// One user in the response body.
#[derive(Debug)]
pub struct UserRes {
    pub name: String,
    pub id: String,
}

impl UserRes {
    /// Shape one response entry from a fetched user.
    pub fn from(user: User) -> (r: UserRes)
        ensures
            r.name@ == user.name@,
            r.id@ == hyphenated_of(user.id@),
    {
        UserRes { name: user.name.to_string(), id: user.id.to_string() }
    }
}

/// Body of the batch-lookup response.
#[derive(Debug)]
pub struct GetUsersByIdsResponse {
    pub users: Vec<UserRes>,
}

/// Handle `GET /users`: well-formed identifiers that are all stored,
/// against a store that does not refuse reads, succeed with 200 and
/// exactly the stored users behind them; a malformed identifier or
/// one that is not stored answers 400, a failed fetch 500.
pub fn get_users_by_ids<T: ProvideUserRepository>(req: GetUsersByIdsRequest, ctx: &T) -> (r:
    Result<(u16, GetUsersByIdsResponse), ErrorResponse>)
    ensures
        all_ids_valid(req.user_ids@) && !ctx.repository().gets_refused() && missing_from(
            requested_ids(req.user_ids@),
            ctx.repository().users(),
        ).len() == 0 ==> r is Ok,
        match r {
            Ok((code, resp)) => {
                &&& code == 200
                &&& all_ids_valid(req.user_ids@)
                &&& forall|j: int|
                    0 <= j < req.user_ids@.len() ==> ctx.repository().users().contains_key(
                        (#[trigger] requested_ids(req.user_ids@)[j])@,
                    )
                &&& exists|found: Seq<User>|
                    {
                        &&& #[trigger] found_users_match(
                            ctx.repository().users(),
                            requested_ids(req.user_ids@),
                            found,
                        )
                        &&& resp.users@.len() == found.len()
                        &&& forall|i: int|
                            0 <= i < found.len() ==> (#[trigger] resp.users@[i]).name@
                                == found[i].name@ && resp.users@[i].id@ == hyphenated_of(
                                found[i].id@,
                            )
                    }
            },
            Err(er) => {
                &&& if !all_ids_valid(req.user_ids@) {
                    er.code == 400 && er.body.code@ == "400 Bad Request"@ && er.body.message@
                        == "invalid user id"@
                } else if er.code == 400 {
                    &&& er.body.code@ == "400 Bad Request"@
                    &&& missing_from(
                        requested_ids(req.user_ids@),
                        ctx.repository().users(),
                    ).len() > 0
                    &&& er.body.message@ == not_found_message(
                        missing_from(requested_ids(req.user_ids@), ctx.repository().users()),
                    )
                } else {
                    er.code == 500 && er.body.code@ == "500 Internal Server Error"@
                        && er.body.message@ == "failed to get users"@
                }
            },
        },
{
    let ghost reqs = req.user_ids@;
    let n = req.user_ids.len();
    let mut ids: Vec<UserId> = Vec::new();
    let mut k: usize = 0;
    while k < n
        invariant
            k <= n,
            n == reqs.len(),
            req.user_ids@ == reqs,
            ids@.len() == k,
            forall|q: int|
                0 <= q < k ==> valid_uuid_string((#[trigger] reqs[q])@) && ids@[q]@ as int
                    == uuid_value(reqs[q]@),
        decreases n - k,
    {
        let s = req.user_ids[k].0.clone();
        match UserId::try_from(s) {
            Ok(u) => {
                ids.push(u);
            },
            Err(e) => {
                return Err(handle_error(e));
            },
        }
        k += 1;
    }
    proof {
        assert forall|q: int| 0 <= q < n implies ids@[q] == requested_ids(reqs)[q] by {
            lemma_user_id_of(uuid_value(reqs[q]@) as u128);
            lemma_user_id_determined(ids@[q], user_id_of(uuid_value(reqs[q]@) as u128));
        }
        assert(ids@ =~= requested_ids(reqs));
    }
    let users = match crate::usecase::get_users_by_ids(ctx, ids) {
        Ok(us) => us,
        Err(e) => {
            return Err(handle_error(e));
        },
    };
    let m = users.len();
    let mut out: Vec<UserRes> = Vec::new();
    let mut i: usize = 0;
    while i < m
        invariant
            i <= m,
            m == users@.len(),
            out@.len() == i,
            forall|q: int|
                0 <= q < i ==> (#[trigger] out@[q]).name@ == users@[q].name@ && out@[q].id@
                    == hyphenated_of(users@[q].id@),
        decreases m - i,
    {
        let entry = UserRes::from(users[i].clone());
        proof {
            assert(users@[i as int].id == users[i as int].id);
        }
        out.push(entry);
        i += 1;
    }
    proof {
        assert(found_users_match(ctx.repository().users(), requested_ids(reqs), users@));
    }
    Ok((200, GetUsersByIdsResponse { users: out }))
}

} // verus!
