//! The mail provider's account records, as the mail-management tools read
//! them: plain values only. Every field is optional, as the provider may
//! omit any of them.

use vstd::prelude::*;

verus! {

/// One address bound to a mail account.
#[derive(Debug, Clone, PartialEq, Eq)]
pub struct EmailAddress {
    pub is_alias: Option<bool>,
    pub is_primary: Option<bool>,
    pub mail_id: Option<String>,
    pub is_confirmed: Option<bool>,
}

/// The status part of a provider response.
#[derive(Debug, Clone, PartialEq, Eq)]
pub struct Status {
    pub code: Option<i32>,
    pub description: Option<String>,
}

/// Discovery-storage figures of one account.
#[derive(Debug, Clone, PartialEq, Eq)]
pub struct EdiscoveryStorage {
    pub is_ediscovery_storage_enabled: Option<bool>,
    pub ediscovery_used_storage: Option<i64>,
    pub ediscovery_allowed_storage: Option<i64>,
}

/// One outgoing-mail configuration of an account.
#[derive(Debug, Clone, PartialEq, Eq)]
pub struct SendMailDetail {
    pub send_mail_id: Option<String>,
    pub display_name: Option<String>,
    pub server_name: Option<String>,
    pub signature_id: Option<String>,
    pub server_port: Option<i32>,
    pub user_name: Option<String>,
    pub connection_type: Option<String>,
    pub mode: Option<String>,
    pub validated: Option<bool>,
    pub from_address: Option<String>,
    pub smtp_connection: Option<i32>,
    pub validation_required: Option<bool>,
    pub validation_state: Option<i32>,
    pub status: Option<bool>,
}

/// A postal address attached to an account.
#[derive(Debug, Clone, PartialEq, Eq)]
pub struct Address {
    pub country: Option<String>,
    pub street_addr: Option<String>,
    pub city: Option<String>,
    pub postal_code: Option<String>,
    pub state: Option<String>,
}

/// The policy attached to an account.
#[derive(Debug, Clone, PartialEq, Eq)]
pub struct PolicyId {
    pub business_policy: Option<String>,
    pub zoid: Option<i64>,
}

} // verus!
