//! The user echo: a request is answered with its own fields and a fresh
//! identifier. Nothing is stored, so no identity carries over from one
//! call to the next.

use vstd::prelude::*;

use crate::identifier::{fresh_identifier, is_generated_identifier};

verus! {

/// What a caller sends to have a user created.
#[derive(Debug, PartialEq, Eq)]
pub struct CreateUserRequest {
    pub first_name: String,
    pub last_name: String,
    pub email: String,
}

/// What the caller gets back: the request's fields and an identifier.
#[derive(Debug, PartialEq, Eq)]
pub struct CreateUserResponse {
    pub id: String,
    pub first_name: String,
    pub last_name: String,
    pub email: String,
}

impl CreateUserResponse {
    /// Whether this response carries exactly the three fields of `info`.
    pub open spec fn echoes(&self, info: CreateUserRequest) -> bool {
        &&& self.first_name@ == info.first_name@
        &&& self.last_name@ == info.last_name@
        &&& self.email@ == info.email@
    }

    /// Joins an identifier and a request into a response. The fields of
    /// `info` are moved over unchanged and unchecked.
    pub fn with_id(id: String, info: CreateUserRequest) -> (response: CreateUserResponse)
        ensures
            response.id@ == id@,
            response.echoes(info),
    {
        CreateUserResponse {
            id,
            first_name: info.first_name,
            last_name: info.last_name,
            email: info.email,
        }
    }
}

/// Creates a user: draws a fresh identifier and hands the request back
/// alongside it. Every request is accepted; no field is validated, not
/// even the address.
pub fn create_user(info: CreateUserRequest) -> (response: CreateUserResponse)
    ensures
        is_generated_identifier(response.id@),
        response.echoes(info),
{
    CreateUserResponse::with_id(fresh_identifier(), info)
}

} // verus!
