//! Handling of `POST /users`: validate the submitted name, create and
//! persist the user, and shape the response.

use vstd::prelude::*;

use crate::error::AppError;
use crate::error_handler::{handle_error, ErrorResponse};
use crate::repository::{ProvideUserRepository, UserRepository};
use crate::usecase::CreateUserCommand;
use crate::user::{
    characters_error_message, hyphenated_of, length_error_message, valid_name_length,
    valid_user_name, User, UserName,
};

verus! {

/// Body of the user-creation request.
#[derive(Debug)]
pub struct CreateUserRequest {
    pub name: String,
}

impl CreateUserCommand {
    /// Build the command from the raw request; the name is validated
    /// here, so a command always carries a valid name.
    pub fn try_from(req: CreateUserRequest) -> (r: Result<CreateUserCommand, AppError>)
        ensures
            match r {
                Ok(cmd) => valid_user_name(req.name@) && cmd.name@ == req.name@,
                Err(e) => {
                    &&& !valid_user_name(req.name@)
                    &&& e matches AppError::InvalidArgument(m) && m@ == (
                        if !valid_name_length(req.name@) {
                            length_error_message(req.name@)
                        } else {
                            characters_error_message(req.name@)
                        }
                    )
                },
            },
    {
        let name = match UserName::try_from(req.name) {
            Ok(n) => n,
            Err(e) => {
                return Err(e);
            },
        };
        Ok(CreateUserCommand::builder().name(name).build())
    }
}

/// Body of the user-creation response.
#[derive(Debug)]
pub struct CreateUserResponse {
    pub name: String,
    pub id: String,
}

impl CreateUserResponse {
    /// Shape the response from the created user.
    pub fn from(user: User) -> (r: CreateUserResponse)
        ensures
            r.name@ == user.name@,
            r.id@ == hyphenated_of(user.id@),
    {
        CreateUserResponse { name: user.name.to_string(), id: user.id.to_string() }
    }
}

/// Handle `POST /users`: a valid name against a store that does not
/// refuse writes succeeds with 201, the created user's name and
/// identifier, and the store holding exactly that user in addition;
/// a bad name answers 400 and a failed save 500, both leaving the
/// store unchanged.
pub fn create_user<T: ProvideUserRepository>(req: CreateUserRequest, ctx: &mut T) -> (r: Result<
    (u16, CreateUserResponse),
    ErrorResponse,
>)
    ensures
        valid_user_name(req.name@) && !old(ctx).repository().saves_refused() ==> r is Ok,
        final(ctx).repository().saves_refused() == old(ctx).repository().saves_refused(),
        final(ctx).repository().gets_refused() == old(ctx).repository().gets_refused(),
        match r {
            Ok((code, res)) => {
                &&& code == 201
                &&& valid_user_name(req.name@)
                &&& res.name@ == req.name@
                &&& exists|v: u128|
                    res.id@ == #[trigger] hyphenated_of(v) && final(ctx).repository().users()
                        == old(ctx).repository().users().insert(v, req.name@)
            },
            Err(er) => {
                &&& final(ctx).repository().users() == old(ctx).repository().users()
                &&& if valid_user_name(req.name@) {
                    er.code == 500 && er.body.code@ == "500 Internal Server Error"@
                        && er.body.message@ == "failed to create user"@
                } else {
                    er.code == 400 && er.body.code@ == "400 Bad Request"@ && er.body.message@
                        == (if !valid_name_length(req.name@) {
                        length_error_message(req.name@)
                    } else {
                        characters_error_message(req.name@)
                    })
                }
            },
        },
{
    let cmd = match CreateUserCommand::try_from(req) {
        Ok(c) => c,
        Err(e) => {
            return Err(handle_error(e));
        },
    };
    let user = match crate::usecase::create_user(ctx, cmd) {
        Ok(u) => u,
        Err(e) => {
            return Err(handle_error(e));
        },
    };
    let ghost v = user.id@;
    let res = CreateUserResponse::from(user);
    proof {
        assert(res.id@ == hyphenated_of(v));
    }
    Ok((201, res))
}

} // verus!
