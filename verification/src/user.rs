//! User data transfer objects.

use vstd::prelude::*;
use std::collections::HashMap;

verus! {

/// A user's attributes, by name.
pub type UserAttributes = HashMap<String, String>;

/// A request to create or update a user.
pub struct UserUpsert {
    pub username: String,
    pub first_name: Option<String>,
    pub last_name: Option<String>,
    pub email: Option<String>,
    pub enabled: Option<bool>,
    pub email_verified: Option<bool>,
    pub attributes: Option<UserAttributes>,
}

/// A user search request.
pub struct UserSearch {
    pub search: Option<String>,
    pub username: Option<String>,
    pub first_name: Option<String>,
    pub last_name: Option<String>,
    pub email: Option<String>,
    pub enabled: Option<bool>,
    pub email_verified: Option<bool>,
    pub exact: Option<bool>,
    pub attributes: Option<UserAttributes>,
    pub first_result: Option<i32>,
    pub max_results: Option<i32>,
}

} // verus!
