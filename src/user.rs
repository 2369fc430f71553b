//! Users: the principals that own memos, and the requests that manage them.

use vstd::prelude::*;
use crate::clock::{MAX_CLOCK_MILLIS, now_millis};
use crate::error::{AppError, AppResult};
use crate::ident::new_id;
use crate::text::{email_valid, has_min_chars, is_email};

verus! {

/// The least number of characters of a password.
pub const MIN_PASSWORD_CHARS: usize = 8;

/// A registered user. Timestamps are milliseconds since the Unix epoch.
#[derive(Debug)]
pub struct User {
    pub id: u128,
    pub email: String,
    pub name: String,
    pub password_hash: String,
    pub created_at: i64,
    pub updated_at: i64,
}

impl User {
    /// A new user with a fresh identifier, created now.
    pub fn new(email: String, name: String, password_hash: String) -> (r: Self)
        ensures
            r.email@ == email@,
            r.name@ == name@,
            r.password_hash@ == password_hash@,
            r.id != 0,
            r.created_at == r.updated_at,
            0 <= r.created_at <= MAX_CLOCK_MILLIS,
    {
        let now = now_millis();
        User { id: new_id(), email, name, password_hash, created_at: now, updated_at: now }
    }

    /// Renames the user when a name is given; only then is the user touched.
    pub fn update_profile(&mut self, name: Option<String>)
        requires
            old(self).updated_at < i64::MAX,
        ensures
            final(self).id == old(self).id,
            final(self).email@ == old(self).email@,
            final(self).password_hash@ == old(self).password_hash@,
            final(self).created_at == old(self).created_at,
            match name {
                Some(n) => final(self).name@ == n@ && final(self).updated_at > old(self).updated_at,
                None => final(self).name@ == old(self).name@ && final(self).updated_at == old(self).updated_at,
            },
    {
        if let Some(name) = name {
            self.name = name;
            let now = now_millis();
            self.updated_at = if now > self.updated_at {
                now
            } else {
                self.updated_at + 1
            };
        }
    }

    /// Replaces the password hash and touches the user.
    pub fn update_password(&mut self, password_hash: String)
        requires
            old(self).updated_at < i64::MAX,
        ensures
            final(self).id == old(self).id,
            final(self).email@ == old(self).email@,
            final(self).name@ == old(self).name@,
            final(self).created_at == old(self).created_at,
            final(self).password_hash@ == password_hash@,
            final(self).updated_at > old(self).updated_at,
    {
        self.password_hash = password_hash;
        let now = now_millis();
        self.updated_at = if now > self.updated_at {
            now
        } else {
            self.updated_at + 1
        };
    }
}

/// A registration request.
#[derive(Debug)]
pub struct CreateUserDto {
    pub email: String,
    pub name: String,
    pub password: String,
}

impl CreateUserDto {
    /// Accepts a well-formed e-mail address, a non-empty name and a password
    /// of at least eight characters.
    pub fn validate(&self) -> (r: AppResult<()>)
        ensures
            r is Ok <==> email_valid(self.email@) && self.name@.len() >= 1
                && self.password@.len() >= MIN_PASSWORD_CHARS,
            r is Err ==> (r matches Err(AppError::ValidationError(_))),
    {
        if !is_email(self.email.as_str()) {
            return Err(AppError::ValidationError(String::from_str("Invalid email format")));
        }
        if !has_min_chars(self.name.as_str(), 1) {
            return Err(AppError::ValidationError(String::from_str("Name cannot be empty")));
        }
        if !has_min_chars(self.password.as_str(), MIN_PASSWORD_CHARS) {
            return Err(AppError::ValidationError(String::from_str("Password must be at least 8 characters long")));
        }
        Ok(())
    }
}

/// A profile change request.
#[derive(Debug)]
pub struct UpdateUserDto {
    pub name: Option<String>,
}

impl UpdateUserDto {
    /// Accepts no name, or a non-empty one.
    pub fn validate(&self) -> (r: AppResult<()>)
        ensures
            r is Ok <==> (self.name matches Some(n) ==> n@.len() >= 1),
            r is Err ==> (r matches Err(AppError::ValidationError(_))),
    {
        match &self.name {
            Some(n) => if !has_min_chars(n.as_str(), 1) {
                return Err(AppError::ValidationError(String::from_str("Name cannot be empty")));
            },
            None => {},
        }
        Ok(())
    }
}

/// A password change request.
#[derive(Debug)]
pub struct UpdatePasswordDto {
    pub current_password: String,
    pub new_password: String,
}

impl UpdatePasswordDto {
    /// Accepts a new password of at least eight characters.
    pub fn validate(&self) -> (r: AppResult<()>)
        ensures
            r is Ok <==> self.new_password@.len() >= MIN_PASSWORD_CHARS,
            r is Err ==> (r matches Err(AppError::ValidationError(_))),
    {
        if !has_min_chars(self.new_password.as_str(), MIN_PASSWORD_CHARS) {
            return Err(AppError::ValidationError(String::from_str("Password must be at least 8 characters long")));
        }
        Ok(())
    }
}

/// A user as returned to a client; the password hash is left out.
#[derive(Debug)]
pub struct UserResponse {
    pub id: u128,
    pub email: String,
    pub name: String,
    pub created_at: i64,
    pub updated_at: i64,
}

impl From<User> for UserResponse {
    fn from(user: User) -> (r: Self) {
        UserResponse {
            id: user.id,
            email: user.email,
            name: user.name,
            created_at: user.created_at,
            updated_at: user.updated_at,
        }
    }
}

impl vstd::std_specs::convert::FromSpecImpl<User> for UserResponse {
    open spec fn obeys_from_spec() -> bool {
        true
    }

    open spec fn from_spec(user: User) -> UserResponse {
        UserResponse {
            id: user.id,
            email: user.email,
            name: user.name,
            created_at: user.created_at,
            updated_at: user.updated_at,
        }
    }
}

} // verus!
