use taska_api::error::AppError;
use taska_api::error_handler::handle_error;
use taska_api::extracter::QueryString;
use taska_api::mock_context::{MockContext, MockUserRepository};
use taska_api::repository::UserRepository;
use taska_api::user::{User, UserId, UserName};
use taska_api::users::create::{create_user, CreateUserRequest};
use taska_api::users::get::{get_users_by_ids, GetUsersByIdsRequest, UserIdReq};

const SAVED_ID: &str = "0123456789abcdefffffffffffffffff";

fn empty_context() -> MockContext {
    MockContext {
        user_repository: MockUserRepository::new(),
    }
}

fn context_with_saved_user() -> MockContext {
    let mut user_repository = MockUserRepository::new();
    let saved = User {
        id: UserId::try_from(SAVED_ID.to_string()).unwrap(),
        name: UserName::new("TestUser".to_string()).unwrap(),
    };
    user_repository.save(&saved).unwrap();
    MockContext { user_repository }
}

fn get_request(ids: &[&str]) -> GetUsersByIdsRequest {
    GetUsersByIdsRequest {
        user_ids: ids.iter().map(|s| UserIdReq(s.to_string())).collect(),
    }
}

#[test]
fn post_users_with_valid_name_answers_201() {
    let mut ctx = empty_context();
    let req = CreateUserRequest {
        name: "Alice".to_string(),
    };
    let (code, res) = create_user(req, &mut ctx).unwrap();
    assert_eq!(code, 201);
    assert_eq!(res.name, "Alice");
    // The reported identifier is a well-formed hyphenated one.
    assert_eq!(res.id.len(), 36);
    UserId::try_from(res.id.clone()).unwrap();
    // The created user is then served back.
    let (code, got) = get_users_by_ids(get_request(&[&res.id]), &ctx).unwrap();
    assert_eq!(code, 200);
    assert_eq!(got.users.len(), 1);
    assert_eq!(got.users[0].name, "Alice");
    assert_eq!(got.users[0].id, res.id);
}

#[test]
fn post_users_with_short_name_answers_400() {
    let mut ctx = empty_context();
    let req = CreateUserRequest {
        name: "a".to_string(),
    };
    let er = create_user(req, &mut ctx).unwrap_err();
    assert_eq!(er.code, 400);
    assert_eq!(er.body.code, "400 Bad Request");
    assert_eq!(
        er.body.message,
        "name: a is too short or long. Use a name between 2 and 20 characters."
    );
}

#[test]
fn post_users_with_bad_character_answers_400() {
    let mut ctx = empty_context();
    let req = CreateUserRequest {
        name: "bad name".to_string(),
    };
    let er = create_user(req, &mut ctx).unwrap_err();
    assert_eq!(er.code, 400);
    assert_eq!(er.body.code, "400 Bad Request");
    assert_eq!(
        er.body.message,
        "name: bad name should consist of ascii alphanumerics."
    );
}

#[test]
fn post_users_with_failing_store_answers_500() {
    let mut user_repository = MockUserRepository::new();
    user_repository.refuse_saves();
    let mut ctx = MockContext { user_repository };
    let req = CreateUserRequest {
        name: "Alice".to_string(),
    };
    let er = create_user(req, &mut ctx).unwrap_err();
    assert_eq!(er.code, 500);
    assert_eq!(er.body.code, "500 Internal Server Error");
    assert_eq!(er.body.message, "failed to create user");
}

#[test]
fn get_users_with_existing_id_answers_200() {
    let ctx = context_with_saved_user();
    let (code, resp) = get_users_by_ids(get_request(&[SAVED_ID]), &ctx).unwrap();
    assert_eq!(code, 200);
    assert_eq!(resp.users.len(), 1);
    assert_eq!(resp.users[0].name, "TestUser");
    assert_eq!(resp.users[0].id, "01234567-89ab-cdef-ffff-ffffffffffff");
}

#[test]
fn get_users_with_nonexistent_id_answers_400() {
    let ctx = context_with_saved_user();
    let missing = "0123456789abcdef0000000000000000";
    let er = get_users_by_ids(get_request(&[missing]), &ctx).unwrap_err();
    assert_eq!(er.code, 400);
    assert_eq!(er.body.code, "400 Bad Request");
    assert_eq!(
        er.body.message,
        "user_ids: [01234567-89ab-cdef-0000-000000000000] is/are not found"
    );
}

#[test]
fn get_users_with_malformed_id_answers_400() {
    let ctx = context_with_saved_user();
    let er = get_users_by_ids(get_request(&["not-an-id"]), &ctx).unwrap_err();
    assert_eq!(er.code, 400);
    assert_eq!(er.body.code, "400 Bad Request");
    assert_eq!(er.body.message, "invalid user id");
}

#[test]
fn get_users_with_failing_store_answers_500() {
    let mut user_repository = MockUserRepository::new();
    user_repository.refuse_gets();
    let ctx = MockContext { user_repository };
    let er = get_users_by_ids(get_request(&[SAVED_ID]), &ctx).unwrap_err();
    assert_eq!(er.code, 500);
    assert_eq!(er.body.code, "500 Internal Server Error");
    assert_eq!(er.body.message, "failed to get users");
}

#[test]
fn handle_error_maps_each_kind() {
    let r = handle_error(AppError::InvalidArgument("bad".to_string()));
    assert_eq!(r.code, 400);
    assert_eq!(r.body.code, "400 Bad Request");
    assert_eq!(r.body.message, "bad");
    let r = handle_error(AppError::NotFound("gone".to_string()));
    assert_eq!(r.code, 404);
    assert_eq!(r.body.code, "404 Not Found");
    assert_eq!(r.body.message, "gone");
    let r = handle_error(AppError::Internal("boom".to_string()));
    assert_eq!(r.code, 500);
    assert_eq!(r.body.code, "500 Internal Server Error");
    assert_eq!(r.body.message, "boom");
}

#[test]
fn query_string_carries_its_value() {
    let QueryString(inner) = QueryString(get_request(&[SAVED_ID]));
    assert_eq!(inner.user_ids.len(), 1);
    assert_eq!(inner.user_ids[0].0, SAVED_ID);
}
