//! Request bodies of the factory endpoints, as plain values.

use vstd::prelude::*;

verus! {

/// Query for whether a project name is free.
#[derive(Debug)]
pub struct Available {
    pub project: String,
}

/// Body of a project creation request.
#[derive(Debug)]
pub struct Create {
    pub project: String,
}

/// Body of a change request: free-text instructions for a project.
#[derive(Debug)]
pub struct Change {
    pub project: String,
    pub instructions: String,
}

/// Query for a project's deployment history.
#[derive(Debug)]
pub struct History {
    pub project: String,
}

/// Body of a reset request: rewind to a deployment, or start over.
#[derive(Debug)]
pub struct Reset {
    pub project: String,
    pub deployment: Option<i32>,
}

/// Body of an account-association update.
#[derive(Debug)]
pub struct AccountAssociation {
    pub project: String,
    pub account_association: crate::projects::AccountAssociation,
}

/// Body of a base-build update.
#[derive(Debug)]
pub struct BaseBuild {
    pub project: String,
    pub base_build: crate::projects::BaseBuild,
}

/// Query for a deployment's live output.
#[derive(Debug)]
pub struct LLMOutput {
    pub deployment: i32,
}

/// Query for a deployment's queue position.
#[derive(Debug)]
pub struct Queue {
    pub deployment: i32,
}

/// Body of a promo-code redemption.
#[derive(Debug)]
pub struct PromoCodeRedeem {
    pub code: String,
}

/// One promo code in an admin addition.
#[derive(Debug)]
pub struct PromoCode {
    pub code: String,
    pub credits: i64,
    pub description: String,
}

/// Body of an admin promo-code addition: a JSON document of codes.
#[derive(Debug)]
pub struct PromoCodessAddition {
    pub promo_codes: String,
}

} // verus!
