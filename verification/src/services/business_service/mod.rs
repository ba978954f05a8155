//! The business directory service: accounts, locations and their admins.

pub mod accounts;
pub mod fan_out;
pub mod json;
pub mod locations;
pub mod paginator;
pub mod request;

use crate::error::{ErrorModel, ServiceError};
use paginator::{page_request_url, page_url, token_model};
use request::{
    bearer, bearer_header, header_value_is_valid, is_header_value, update_url, HttpRequest, Method,
    RequestModel, CONTENT_TYPE, UPDATE_MASK,
};
use vstd::prelude::*;

verus! {

/// A client of the business directory service: the bearer credential that
/// every request presents, and the account in use, if one was chosen.
#[derive(Debug, Eq, PartialEq, Default, Clone)]
pub struct BusinessService {
    access_token: String,
    account_id: Option<String>,
}

/// A [`BusinessService`] as a mathematical value.
pub struct BusinessServiceModel {
    pub access_token: Seq<char>,
    pub account_id: Option<Seq<char>>,
}

impl View for BusinessService {
    type V = BusinessServiceModel;

    closed spec fn view(&self) -> BusinessServiceModel {
        BusinessServiceModel {
            access_token: self.access_token@,
            account_id: match self.account_id {
                Some(id) => Some(id@),
                None => None,
            },
        }
    }
}

/// Why a request cannot be formed: the credential may not stand in a header.
pub const INVALID_HEADER_VALUE: &'static str = "invalid header value";

impl BusinessServiceModel {
    /// The request that the service forms: `method` on `url`, with the
    /// credential and the fixed content type. No request can be formed with a
    /// credential that may not stand in a header.
    pub open spec fn form(self, method: Method, url: Seq<char>, body: Option<Seq<char>>) -> Result<
        RequestModel,
        ErrorModel,
    > {
        if is_header_value(bearer(self.access_token)) {
            Ok(
                RequestModel {
                    method,
                    url,
                    authorization: bearer(self.access_token),
                    content_type: CONTENT_TYPE@,
                    body,
                },
            )
        } else {
            Err(ErrorModel::TransportFailure { reason: INVALID_HEADER_VALUE@ })
        }
    }
}

/// A request, or the failure to form one, as a mathematical value.
pub open spec fn formed(r: Result<HttpRequest, ServiceError>) -> Result<RequestModel, ErrorModel> {
    match r {
        Ok(request) => Ok(request@),
        Err(e) => Err(e@),
    }
}

impl BusinessService {
    /// A client that presents `access_token`, with no account chosen.
    pub fn new(access_token: &str) -> (service: BusinessService)
        ensures
            service@ == (BusinessServiceModel { access_token: access_token@, account_id: None }),
    {
        BusinessService { access_token: access_token.to_owned(), account_id: None }
    }

    /// The credential that every request presents.
    pub fn access_token(&self) -> (token: &str)
        ensures
            token@ == self@.access_token,
    {
        self.access_token.as_str()
    }

    /// The account in use, if one was chosen.
    pub fn account_id(&self) -> (id: Option<&String>)
        ensures
            match id {
                Some(id) => self@.account_id == Some(id@),
                None => self@.account_id is None,
            },
    {
        self.account_id.as_ref()
    }

    fn form(&self, method: Method, url: String, body: Option<String>) -> (r: Result<
        HttpRequest,
        ServiceError,
    >)
        ensures
            formed(r) == self@.form(
                method,
                url@,
                match body {
                    Some(b) => Some(b@),
                    None => None,
                },
            ),
    {
        let authorization = bearer_header(self.access_token.as_str());
        if header_value_is_valid(authorization.as_str()) {
            Ok(
                HttpRequest {
                    method,
                    url,
                    authorization,
                    content_type: CONTENT_TYPE.to_owned(),
                    body,
                },
            )
        } else {
            Err(ServiceError::transport(INVALID_HEADER_VALUE))
        }
    }

    /// Forms the request that reads the resource at `url`.
    pub fn request(&self, url: &str) -> (r: Result<HttpRequest, ServiceError>)
        ensures
            formed(r) == self@.form(Method::Get, url@, None),
    {
        self.form(Method::Get, url.to_owned(), None)
    }

    /// Forms the request that reads one page of the listing at `url`: the
    /// first page without a token, each later page with the token that the
    /// page before it carried.
    pub fn resource_request(&self, url: &str, next_page_token: &Option<String>) -> (r: Result<
        HttpRequest,
        ServiceError,
    >)
        ensures
            formed(r) == self@.form(
                Method::Get,
                page_url(url@, token_model(*next_page_token)),
                None,
            ),
    {
        self.form(Method::Get, page_request_url(url, next_page_token), None)
    }

    /// Forms the request that updates the resource at `url` with `payload`,
    /// the resource in its JSON form. The update mask is fixed to the title.
    pub fn update_request(&self, url: &str, payload: &str) -> (r: Result<HttpRequest, ServiceError>)
        ensures
            formed(r) == self@.form(Method::Patch, url@ + UPDATE_MASK@, Some(payload@)),
    {
        self.form(Method::Patch, update_url(url), Some(payload.to_owned()))
    }
}

} // verus!
