//! The services this client speaks to, and what they share: how a service
//! authenticates.

pub mod business_service;
pub mod translate_service;

use crate::auth::service_account::ServiceAccountCredentials;
use vstd::prelude::*;

verus! {

/// The one way in which a service authenticates.
#[derive(Debug, Clone)]
enum Authentication {
    ApiKey { api_key: String },
    ServiceAccount { credentials: ServiceAccountCredentials, scopes: Vec<String> },
}

/// How a service authenticates: by an API key, or by the credentials of a
/// service account together with the scopes asked for.
#[derive(Debug, Clone)]
pub struct ServiceBase {
    authentication: Authentication,
}

/// A [`ServiceBase`] as a mathematical value.
pub enum AuthModel {
    ApiKey { api_key: Seq<char> },
    ServiceAccount { credentials: ServiceAccountCredentials, scopes: Seq<Seq<char>> },
}

/// The texts of a list of scopes, each as a sequence of characters.
pub open spec fn scopes_model(scopes: Seq<&str>) -> Seq<Seq<char>> {
    Seq::new(scopes.len(), |i: int| scopes[i]@)
}

impl View for ServiceBase {
    type V = AuthModel;

    closed spec fn view(&self) -> AuthModel {
        match self.authentication {
            Authentication::ApiKey { api_key } => AuthModel::ApiKey { api_key: api_key@ },
            Authentication::ServiceAccount { credentials, scopes } => AuthModel::ServiceAccount {
                credentials,
                scopes: Seq::new(scopes@.len(), |i: int| scopes@[i]@),
            },
        }
    }
}

impl ServiceBase {
    /// A service that authenticates by `api_key`.
    pub fn new_with_api_key(api_key: String) -> (base: ServiceBase)
        ensures
            base@ == (AuthModel::ApiKey { api_key: api_key@ }),
    {
        ServiceBase { authentication: Authentication::ApiKey { api_key } }
    }

    /// A service that authenticates as a service account, asking for
    /// `scopes`.
    pub fn new_with_credentials(
        service_account_credentials: ServiceAccountCredentials,
        scopes: Vec<&str>,
    ) -> (base: ServiceBase)
        ensures
            base@ == (AuthModel::ServiceAccount {
                credentials: service_account_credentials,
                scopes: scopes_model(scopes@),
            }),
    {
        let mut owned: Vec<String> = Vec::new();
        let mut i: usize = 0;
        while i < scopes.len()
            invariant
                i <= scopes.len(),
                owned@.len() == i,
                forall|j: int| 0 <= j < i ==> (#[trigger] owned@[j])@ == scopes@[j]@,
            decreases scopes.len() - i,
        {
            owned.push(scopes[i].to_owned());
            i += 1;
        }
        proof {
            assert(Seq::new(owned@.len(), |i: int| owned@[i]@) =~= scopes_model(scopes@));
        }
        ServiceBase {
            authentication: Authentication::ServiceAccount {
                credentials: service_account_credentials,
                scopes: owned,
            },
        }
    }

    /// The credentials and the scopes asked for, for a service that
    /// authenticates as a service account.
    pub fn service_account(&self) -> (account: Option<(&ServiceAccountCredentials, &Vec<String>)>)
        ensures
            match account {
                Some((credentials, scopes)) => self@ == (AuthModel::ServiceAccount {
                    credentials: *credentials,
                    scopes: Seq::new(scopes@.len(), |i: int| scopes@[i]@),
                }),
                None => self@ is ApiKey,
            },
    {
        match &self.authentication {
            Authentication::ApiKey { .. } => None,
            Authentication::ServiceAccount { credentials, scopes } => Some((credentials, scopes)),
        }
    }

    /// The API key, for a service that authenticates by one.
    pub fn api_key(&self) -> (key: Option<&String>)
        ensures
            match key {
                Some(k) => self@ == (AuthModel::ApiKey { api_key: k@ }),
                None => self@ is ServiceAccount,
            },
    {
        match &self.authentication {
            Authentication::ApiKey { api_key } => Some(api_key),
            Authentication::ServiceAccount { .. } => None,
        }
    }
}

} // verus!
