use memo_app_backend::error::AppError;
use memo_app_backend::user::{CreateUserDto, UpdatePasswordDto, UpdateUserDto, User, UserResponse};

#[test]
fn test_create_new_user() {
    let email = "test@example.com".to_string();
    let name = "Test User".to_string();
    let password_hash = "hashed_password".to_string();

    let user = User::new(email.clone(), name.clone(), password_hash.clone());

    assert_eq!(user.email, email);
    assert_eq!(user.name, name);
    assert_eq!(user.password_hash, password_hash);
    assert!(user.id != 0);
    assert!(user.created_at <= chrono::Utc::now().timestamp_millis());
    assert_eq!(user.created_at, user.updated_at);
}

#[test]
fn test_update_profile() {
    let mut user = User::new(
        "test@example.com".to_string(),
        "Original Name".to_string(),
        "password_hash".to_string(),
    );
    let original_created_at = user.created_at;
    let original_updated_at = user.updated_at;

    let new_name = "Updated Name".to_string();
    user.update_profile(Some(new_name.clone()));

    assert_eq!(user.name, new_name);
    assert_eq!(user.created_at, original_created_at);
    assert!(user.updated_at > original_updated_at);
}

#[test]
fn test_update_password() {
    let mut user = User::new(
        "test@example.com".to_string(),
        "Test User".to_string(),
        "original_hash".to_string(),
    );
    let original_created_at = user.created_at;
    let original_updated_at = user.updated_at;

    let new_password_hash = "new_hash".to_string();
    user.update_password(new_password_hash.clone());

    assert_eq!(user.password_hash, new_password_hash);
    assert_eq!(user.created_at, original_created_at);
    assert!(user.updated_at > original_updated_at);
}

#[test]
fn update_profile_without_name_changes_nothing() {
    let mut user = User::new("a@b.io".to_string(), "N".to_string(), "h".to_string());
    let before = user.updated_at;
    user.update_profile(None);
    assert_eq!(user.name, "N");
    assert_eq!(user.updated_at, before);
}

fn create(email: &str, name: &str, password: &str) -> CreateUserDto {
    CreateUserDto { email: email.to_string(), name: name.to_string(), password: password.to_string() }
}

#[test]
fn create_user_dto_rules() {
    assert!(create("test@example.com", "Test", "12345678").validate().is_ok());
    assert!(matches!(create("not-an-email", "Test", "12345678").validate(), Err(AppError::ValidationError(_))));
    assert!(matches!(create("a@b.com", "", "12345678").validate(), Err(AppError::ValidationError(_))));
    assert!(matches!(create("a@b.com", "Test", "1234567").validate(), Err(AppError::ValidationError(_))));
    assert!(create("a@b.com", "Test", "ééééééé\u{e9}").validate().is_ok());
}

#[test]
fn update_dtos_rules() {
    assert!(UpdateUserDto { name: None }.validate().is_ok());
    assert!(UpdateUserDto { name: Some("x".to_string()) }.validate().is_ok());
    assert!(UpdateUserDto { name: Some(String::new()) }.validate().is_err());
    let ok = UpdatePasswordDto { current_password: "old".to_string(), new_password: "abcdefgh".to_string() };
    let short = UpdatePasswordDto { current_password: "old".to_string(), new_password: "abc".to_string() };
    assert!(ok.validate().is_ok());
    assert!(short.validate().is_err());
}

#[test]
fn user_response_hides_password() {
    let user = User::new("a@b.io".to_string(), "N".to_string(), "secret".to_string());
    let id = user.id;
    let resp = UserResponse::from(user);
    assert_eq!(resp.id, id);
    assert_eq!(resp.email, "a@b.io");
    assert_eq!(resp.name, "N");
}
