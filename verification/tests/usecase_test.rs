use taska_api::error::AppError;
use taska_api::mock_context::{MockContext, MockUserRepository};
use taska_api::repository::UserRepository;
use taska_api::usecase::{create_user, diff_vec, get_users_by_ids, CreateUserCommand};
use taska_api::user::{User, UserId, UserName};

const SAVED_ID: &str = "0123456789abcdefffffffffffffffff";

fn user_id(s: &str) -> UserId {
    UserId::try_from(s.to_string()).unwrap()
}

fn context_with_saved_user() -> MockContext {
    let mut user_repository = MockUserRepository::new();
    let saved = User {
        id: user_id(SAVED_ID),
        name: UserName::new("TestUser".to_string()).unwrap(),
    };
    user_repository.save(&saved).unwrap();
    MockContext { user_repository }
}

#[test]
fn test_create_user() {
    let user_repository = MockUserRepository::new();
    let mut ctx = MockContext { user_repository };

    let cmd = CreateUserCommand::builder()
        .name(UserName::new("TestUser".to_string()).unwrap())
        .build();

    let user = create_user(&mut ctx, cmd).unwrap();
    assert_eq!(user.name().to_string(), "TestUser");
    // Exactly one save reached the repository, with the created user.
    assert_eq!(ctx.user_repository.save_calls(), 1);
    let got = get_users_by_ids(&ctx, vec![user.id().clone()]).unwrap();
    assert_eq!(got, vec![user]);
}

#[test]
#[should_panic]
fn test_get_by_ids() {
    let ctx = context_with_saved_user();
    let request_user_ids = vec![user_id("0123456789abcdef0000000000000000")];
    get_users_by_ids(&ctx, request_user_ids).unwrap();
}

#[test]
fn test_get_by_ids_found() {
    let ctx = context_with_saved_user();
    let users = get_users_by_ids(&ctx, vec![user_id(SAVED_ID)]).unwrap();
    assert_eq!(users.len(), 1);
    assert_eq!(users[0].id(), &user_id(SAVED_ID));
    assert_eq!(users[0].name().to_string(), "TestUser");
}

#[test]
fn get_by_ids_lists_missing_ids() {
    let ctx = context_with_saved_user();
    let missing = "0123456789abcdef0000000000000000";
    match get_users_by_ids(&ctx, vec![user_id(SAVED_ID), user_id(missing)]) {
        Err(AppError::InvalidArgument(m)) => {
            assert_eq!(
                m,
                "user_ids: [01234567-89ab-cdef-0000-000000000000] is/are not found"
            );
        }
        other => panic!("unexpected: {other:?}"),
    }
}

#[test]
fn get_by_ids_lists_two_missing_ids() {
    let ctx = context_with_saved_user();
    let a = "0123456789abcdef0000000000000000";
    let b = "0123456789abcdef1111111111111111";
    match get_users_by_ids(&ctx, vec![user_id(a), user_id(b), user_id(a)]) {
        Err(AppError::InvalidArgument(m)) => {
            assert_eq!(
                m,
                "user_ids: [01234567-89ab-cdef-0000-000000000000, \
                 01234567-89ab-cdef-1111-111111111111] is/are not found"
            );
        }
        other => panic!("unexpected: {other:?}"),
    }
}

#[test]
fn create_user_reports_save_failure_as_internal() {
    let mut user_repository = MockUserRepository::new();
    user_repository.refuse_saves();
    let mut ctx = MockContext { user_repository };
    let cmd = CreateUserCommand::builder()
        .name(UserName::new("TestUser".to_string()).unwrap())
        .build();
    match create_user(&mut ctx, cmd) {
        Err(AppError::Internal(m)) => assert_eq!(m, "failed to create user"),
        other => panic!("unexpected: {other:?}"),
    }
    // The failed save was still attempted exactly once.
    assert_eq!(ctx.user_repository.save_calls(), 1);
}

#[test]
fn get_users_reports_fetch_failure_as_internal() {
    let mut user_repository = MockUserRepository::new();
    user_repository.refuse_gets();
    let ctx = MockContext { user_repository };
    match get_users_by_ids(&ctx, vec![user_id(SAVED_ID)]) {
        Err(AppError::Internal(m)) => assert_eq!(m, "failed to get users"),
        other => panic!("unexpected: {other:?}"),
    }
}

#[test]
fn saving_twice_under_one_id_keeps_one_user() {
    let mut user_repository = MockUserRepository::new();
    let first = User {
        id: user_id(SAVED_ID),
        name: UserName::new("OldName".to_string()).unwrap(),
    };
    let second = User {
        id: user_id(SAVED_ID),
        name: UserName::new("NewName".to_string()).unwrap(),
    };
    user_repository.save(&first).unwrap();
    user_repository.save(&second).unwrap();
    let ctx = MockContext { user_repository };
    let users = get_users_by_ids(&ctx, vec![user_id(SAVED_ID)]).unwrap();
    assert_eq!(users.len(), 1);
    assert_eq!(users[0].name().to_string(), "NewName");
}

#[test]
fn diff_vec_keeps_first_occurrences_in_order() {
    let a = user_id("00000000000000000000000000000001");
    let b = user_id("00000000000000000000000000000002");
    let c = user_id("00000000000000000000000000000003");
    let r = diff_vec(vec![a, b, a, c], vec![b]);
    assert_eq!(r, vec![a, c]);
    let r = diff_vec(vec![a, b], vec![a, b, c]);
    assert_eq!(r, Vec::<UserId>::new());
    let r = diff_vec(Vec::new(), vec![a]);
    assert_eq!(r, Vec::<UserId>::new());
}
