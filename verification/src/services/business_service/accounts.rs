//! Accounts and the admins of their locations.

use crate::error::{ErrorModel, ServiceError};
use crate::services::business_service::locations::Location;
use vstd::prelude::*;

verus! {

/// One account of the directory.
#[derive(Debug, Clone, PartialEq, Eq)]
pub struct Account {
    pub account_name: String,
    pub name: String,
    pub the_type: String,
    pub verification_state: String,
    pub vetted_state: String,
    pub account_number: Option<String>,
    pub permission_level: Option<String>,
    pub role: Option<String>,
}

/// The accounts that the credential can reach.
#[derive(Debug, Clone, PartialEq, Eq)]
pub struct Accounts {
    pub accounts: Vec<Account>,
}

/// One admin of a location.
#[derive(Debug, Clone, PartialEq, Eq)]
pub struct Admin {
    pub account: String,
    pub admin: String,
    pub name: String,
    pub role: String,
}

/// The admins of one location, as the service lists them.
#[derive(Debug, Clone, PartialEq, Eq)]
pub struct Admins {
    pub admins: Vec<Admin>,
}

/// What a fan-out over locations gathers for each: the fields that identify
/// the location, and how many admins it has.
#[derive(Debug, Clone, PartialEq, Eq)]
pub struct PageAdmins {
    pub page_name: String,
    pub page_title: String,
    pub store_code: String,
    pub admin_count: usize,
}

/// A [`PageAdmins`] as a mathematical value.
pub struct PageAdminsModel {
    pub page_name: Seq<char>,
    pub page_title: Seq<char>,
    pub store_code: Seq<char>,
    pub admin_count: nat,
}

impl View for PageAdmins {
    type V = PageAdminsModel;

    open spec fn view(&self) -> PageAdminsModel {
        PageAdminsModel {
            page_name: self.page_name@,
            page_title: self.page_title@,
            store_code: self.store_code@,
            admin_count: self.admin_count as nat,
        }
    }
}

impl Accounts {
    /// Holds the listing to its contract: a credential reaches at least one
    /// account, so a listing without any is a failure and no empty success.
    pub fn require_some(self) -> (r: Result<Accounts, ServiceError>)
        ensures
            match r {
                Ok(accounts) => self.accounts@.len() > 0 && accounts == self,
                Err(e) => self.accounts@.len() == 0 && e@ == ErrorModel::EmptyResult,
            },
    {
        if self.accounts.len() == 0 {
            Err(ServiceError::EmptyResult)
        } else {
            Ok(self)
        }
    }
}

impl PageAdmins {
    /// Merges what identifies a location with the admins fetched for it.
    pub fn for_location(location: &Location, admins: &Admins) -> (page: PageAdmins)
        ensures
            page@ == (PageAdminsModel {
                page_name: location.name@,
                page_title: location.title@,
                store_code: location.store_code@,
                admin_count: admins.admins@.len(),
            }),
    {
        PageAdmins {
            page_name: location.name.clone(),
            page_title: location.title.clone(),
            store_code: location.store_code.clone(),
            admin_count: admins.admins.len(),
        }
    }
}

} // verus!
