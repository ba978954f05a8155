//! The translation service: a stateless client, one request per call.

use crate::auth::service_account::ServiceAccountCredentials;
use crate::services::{scopes_model, AuthModel, ServiceBase};
use vstd::prelude::*;

verus! {

/// The scope that a service account asks for to translate.
pub const TRANSLATE_SERVICE_SCOPE: &'static str =
    "https://www.googleapis.com/auth/cloud-translation";

/// The URL under which the translation service answers.
pub const TRANSLATE_SERVICE_BASE_URL: &'static str =
    "https://translation.googleapis.com/language/translate";

/// A client of the translation service.
#[derive(Debug, Clone)]
pub struct TranslateService {
    base: ServiceBase,
}

impl View for TranslateService {
    type V = AuthModel;

    closed spec fn view(&self) -> AuthModel {
        self.base@
    }
}

impl TranslateService {
    /// A client that authenticates by an API key.
    pub fn new_with_api_key(api_key: String) -> (service: TranslateService)
        ensures
            service@ == (AuthModel::ApiKey { api_key: api_key@ }),
    {
        TranslateService { base: ServiceBase::new_with_api_key(api_key) }
    }

    /// A client that authenticates as a service account, asking for the
    /// translation scope and no other.
    pub fn new_with_credentials(service_account_credentials: ServiceAccountCredentials) -> (service:
        TranslateService)
        ensures
            service@ == (AuthModel::ServiceAccount {
                credentials: service_account_credentials,
                scopes: seq![TRANSLATE_SERVICE_SCOPE@],
            }),
    {
        let scopes: Vec<&str> = vec![TRANSLATE_SERVICE_SCOPE];
        proof {
            assert(scopes_model(scopes@) =~= seq![TRANSLATE_SERVICE_SCOPE@]);
        }
        TranslateService {
            base: ServiceBase::new_with_credentials(service_account_credentials, scopes),
        }
    }

    /// How this client authenticates.
    pub fn base(&self) -> (base: &ServiceBase)
        ensures
            base@ == self@,
    {
        &self.base
    }
}

/// The operations of the basic translation API.
#[derive(Debug, Clone, Copy, PartialEq, Eq)]
pub enum BasicServiceType {
    Translate,
    Detect,
    Languages,
}

impl BasicServiceType {
    /// The path of the operation below the service's URL: none for
    /// translating, the operation's name for the others.
    pub fn path(&self) -> (path: &'static str)
        ensures
            path@ == match *self {
                BasicServiceType::Translate => ""@,
                BasicServiceType::Detect => "detect"@,
                BasicServiceType::Languages => "languages"@,
            },
    {
        match *self {
            BasicServiceType::Translate => "",
            BasicServiceType::Detect => "detect",
            BasicServiceType::Languages => "languages",
        }
    }
}

} // verus!
