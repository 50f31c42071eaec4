use snitch::auth::Authentication;
use snitch::errors::APIError;
use snitch::user::{User, UserID, UserResponse, Users};

#[test]
fn users_test_user_response() {
    let _ = UserResponse::from(User::example());
}

#[test]
fn user_response_keeps_email() {
    let response = UserResponse::from(User::new("a@b.c".to_string(), "hash".to_string()));
    assert_eq!(response.email, "a@b.c");
}

#[test]
fn user_id_new_is_a_uuid() {
    let a = UserID::new();
    let b = UserID::new();
    assert_eq!(a.as_str().len(), 36);
    assert_ne!(a, b);
}

#[test]
fn user_id_default_is_nil_uuid() {
    assert_eq!(UserID::default().as_str(), "00000000-0000-0000-0000-000000000000");
}

#[test]
fn user_id_from_string() {
    let id = UserID::from("abc".to_string());
    assert_eq!(id.as_str(), "abc");
    assert_eq!(id, UserID::from("abc".to_string()));
}

#[test]
fn users_add_get_delete() {
    let mut users = Users::new();
    let user = User::new("x@y.z".to_string(), "h".to_string());
    let id = user.user_id.clone();
    let added = users.add_user(user.clone());
    assert_eq!(added, user);
    assert_eq!(users.get_user_by_id(id.clone()), Ok(user.clone()));
    assert_eq!(users.get_users(), vec![user.clone()]);
    assert_eq!(users.delete_user(id.clone()), Ok(user));
    assert_eq!(users.get_user_by_id(id.clone()), Err(APIError::NotFound));
    assert_eq!(users.delete_user(id), Err(APIError::NotFound));
    assert!(users.get_users().is_empty());
}

#[test]
fn users_add_replaces_same_id() {
    let mut users = Users::new();
    let first = User::new("old@y.z".to_string(), "h".to_string());
    let mut second = first.clone();
    second.email = "new@y.z".to_string();
    users.add_user(first.clone());
    users.add_user(second.clone());
    assert_eq!(users.get_users(), vec![second.clone()]);
    assert_eq!(users.get_user_by_id(first.user_id.clone()), Ok(second));
}

#[test]
fn users_get_by_name_needs_exactly_one() {
    let mut users = Users::new();
    let a = User::new("a@x.y".to_string(), "h".to_string());
    let b = User::new("b@x.y".to_string(), "h".to_string());
    let b2 = User::new("b@x.y".to_string(), "h2".to_string());
    users.add_user(a.clone());
    users.add_user(b.clone());
    assert_eq!(users.get_user_by_name("a@x.y"), Some(&a));
    assert_eq!(users.get_user_by_name("b@x.y"), Some(&b));
    assert_eq!(users.get_user_by_name("c@x.y"), None);
    users.add_user(b2);
    assert_eq!(users.get_user_by_name("b@x.y"), None);
}

#[test]
fn users_example_holds_one_user() {
    let users = Users::example();
    let all = users.get_users();
    assert_eq!(all.len(), 1);
    assert_eq!(all[0].email, "xx");
}

#[test]
fn user_example_fields() {
    let user = User::example();
    assert_eq!(user.email, "Peter");
    assert_eq!(user.password_hash, "asdfasdfasdf");
}

#[test]
fn authentication_account_and_greeting() {
    let a = Authentication::Authenticated(UserID::from("abc".to_string()));
    assert_eq!(a.greeting(), "Hello abc");
    assert_eq!(a.account(), Ok(UserID::from("abc".to_string())));
    let anon = Authentication::Anonymous;
    assert_eq!(anon.greeting(), "Hello anonymous");
    assert_eq!(anon.account(), Err(APIError::Unauthenticated));
}
