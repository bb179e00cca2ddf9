//! Requests against the `/formations` APIs. This module decides what each
//! request is (its method and URL, and whether it can be made at all); sending
//! it, with a JSON body where one is needed, is left to the caller.

use vstd::prelude::*;

use crate::error::SeaplaneError;
use crate::text::{opt_view, push_str};
use crate::web::{append_url_pair, join_url, url_join, url_with_pair, uuid_hyphenated, uuid_text};

verus! {

/// The default root of the compute service.
pub const COMPUTE_API_URL: &'static str = "https://compute.cplane.cloud/";

/// An HTTP method.
#[derive(Clone, Copy, Debug, PartialEq, Eq, Structural)]
pub enum Method {
    Get,
    Post,
    Put,
    Delete,
}

/// A request ready to be sent: method, URL, the Bearer token, and the JSON
/// body where the request has one.
#[derive(Debug)]
pub struct PreparedRequest {
    pub method: Method,
    pub url: String,
    pub token: String,
    pub body: Option<String>,
}

/// A builder for a [`FormationsRequest`].
#[derive(Debug, Default)]
pub struct FormationsRequestBuilder {
    /// The name of the Formation; not needed to list the names.
    pub name: Option<String>,
    /// Required for Bearer Authorization.
    pub token: Option<String>,
    pub base_url: Option<String>,
}

impl FormationsRequestBuilder {
    /// A builder with nothing set.
    pub fn new() -> (b: FormationsRequestBuilder)
        ensures
            b.name is None,
            b.token is None,
            b.base_url is None,
    {
        FormationsRequestBuilder { name: None, token: None, base_url: None }
    }

    /// Sets the token used in Bearer Authorization; every endpoint needs it.
    pub fn token(self, token: &str) -> (b: FormationsRequestBuilder)
        ensures
            b.token matches Some(t) && t@ == token@,
            b.name == self.name,
            b.base_url == self.base_url,
    {
        FormationsRequestBuilder { token: Some(token.to_owned()), ..self }
    }

    /// Sets the name of the Formation that the request is about.
    pub fn name(self, name: &str) -> (b: FormationsRequestBuilder)
        ensures
            b.name matches Some(n) && n@ == name@,
            b.token == self.token,
            b.base_url == self.base_url,
    {
        FormationsRequestBuilder { name: Some(name.to_owned()), ..self }
    }

    /// Sets the root URL that the endpoint is resolved against.
    pub fn base_url(self, url: &str) -> (b: FormationsRequestBuilder)
        ensures
            b.base_url matches Some(u) && u@ == url@,
            b.token == self.token,
            b.name == self.name,
    {
        FormationsRequestBuilder { base_url: Some(url.to_owned()), ..self }
    }

    /// Builds the request. A token is required; the endpoint is
    /// `v1/formations` under the base URL, or under the default root.
    pub fn build(self) -> (r: Result<FormationsRequest, SeaplaneError>)
        ensures
            self.token is None ==> r matches Err(SeaplaneError::MissingRequestAuthToken),
            self.token is Some ==> ({
                let root = match self.base_url {
                    Some(u) => u@,
                    None => COMPUTE_API_URL@,
                };
                match url_join(root, "v1/formations"@) {
                    Some(u) => r matches Ok(req) && req.endpoint_url@ == u && req.token@
                        == self.token.unwrap()@ && req.name == self.name,
                    None => r matches Err(SeaplaneError::UrlParse),
                }
            }),
    {
        let token = match self.token {
            Some(t) => t,
            None => return Err(SeaplaneError::MissingRequestAuthToken),
        };
        let joined = match &self.base_url {
            Some(u) => join_url(u.as_str(), "v1/formations"),
            None => join_url(COMPUTE_API_URL, "v1/formations"),
        };
        match joined {
            Some(endpoint_url) => Ok(FormationsRequest { name: self.name, token, endpoint_url }),
            None => Err(SeaplaneError::UrlParse),
        }
    }
}

/// Requests against the `/formations` APIs.
#[derive(Debug)]
pub struct FormationsRequest {
    /// The name of the Formation.
    pub name: Option<String>,
    pub token: String,
    pub endpoint_url: String,
}

pub open spec fn bool_text(b: bool) -> Seq<char> {
    if b {
        "true"@
    } else {
        "false"@
    }
}

fn push_bool(s: &mut String, b: bool)
    ensures
        final(s)@ == old(s)@ + bool_text(b),
{
    if b {
        push_str(s, "true");
    } else {
        push_str(s, "false");
    }
}

/// The path, relative to the endpoint, of a resource of the Formation `name`.
/// The endpoint has no trailing slash, so the path repeats `formations`.
pub open spec fn formation_path(name: Seq<char>, rest: Seq<char>) -> Seq<char> {
    "formations/"@ + name + rest
}

/// Whether `r` is the request `method` at `formation_path(name, rest)` with
/// the given body, or the error that stops it.
pub open spec fn formation_call(
    req: FormationsRequest,
    method: Method,
    rest: Seq<char>,
    body: Option<Seq<char>>,
    r: Result<PreparedRequest, SeaplaneError>,
) -> bool {
    match req.name {
        None => r matches Err(SeaplaneError::MissingFormationName),
        Some(n) => match url_join(req.endpoint_url@, formation_path(n@, rest)) {
            None => r matches Err(SeaplaneError::UrlParse),
            Some(u) => r matches Ok(p) && p.method == method && p.url@ == u && p.token@
                == req.token@ && opt_view(p.body) == body,
        },
    }
}

impl FormationsRequest {
    /// A new request builder.
    pub fn builder() -> (b: FormationsRequestBuilder)
        ensures
            b.name is None,
            b.token is None,
            b.base_url is None,
    {
        FormationsRequestBuilder::new()
    }

    /// A request without a Formation name, which serves only to list the names.
    pub fn new(token: &str) -> (r: Result<FormationsRequest, SeaplaneError>)
        ensures
            match url_join(COMPUTE_API_URL@, "v1/formations"@) {
                Some(u) => r matches Ok(req) && req.name is None && req.token@ == token@
                    && req.endpoint_url@ == u,
                None => r matches Err(SeaplaneError::UrlParse),
            },
    {
        FormationsRequest::builder().token(token).build()
    }

    /// The request at `formations/{name}{rest}`.
    fn at(&self, method: Method, rest: &str, body: Option<String>) -> (r: Result<
        PreparedRequest,
        SeaplaneError,
    >)
        ensures
            formation_call(*self, method, rest@, opt_view(body), r),
    {
        let name = match &self.name {
            Some(n) => n,
            None => return Err(SeaplaneError::MissingFormationName),
        };
        let mut path = "formations/".to_owned();
        push_str(&mut path, name.as_str());
        push_str(&mut path, rest);
        match join_url(self.endpoint_url.as_str(), path.as_str()) {
            Some(url) => Ok(PreparedRequest { method, url, token: self.token.clone(), body }),
            None => Err(SeaplaneError::UrlParse),
        }
    }

    /// Lists the names of all Formations; the one request without a name.
    pub fn list_names(&self) -> (p: PreparedRequest)
        ensures
            p.method == Method::Get,
            p.url@ == self.endpoint_url@,
            p.token@ == self.token@,
            p.body is None,
    {
        PreparedRequest {
            method: Method::Get,
            url: self.endpoint_url.clone(),
            token: self.token.clone(),
            body: None,
        }
    }

    /// Creates the Formation with the given configuration, as JSON, for body.
    pub fn create(&self, configuration: String, active: bool) -> (r: Result<
        PreparedRequest,
        SeaplaneError,
    >)
        ensures
            formation_call(
                *self,
                Method::Post,
                "?active="@ + bool_text(active),
                Some(configuration@),
                r,
            ),
    {
        let mut rest = "?active=".to_owned();
        push_bool(&mut rest, active);
        self.at(Method::Post, rest.as_str(), Some(configuration))
    }

    /// Creates the Formation as a copy of the Formation `source_name`.
    pub fn clone_from(&self, source_name: &str, active: bool) -> (r: Result<
        PreparedRequest,
        SeaplaneError,
    >)
        ensures
            match req_name_url(*self, "?active="@ + bool_text(active)) {
                None => r matches Err(SeaplaneError::MissingFormationName),
                Some(None) => r matches Err(SeaplaneError::UrlParse),
                Some(Some(u)) => match url_with_pair(u, "source"@, source_name@) {
                    None => r matches Err(SeaplaneError::UrlParse),
                    Some(v) => r matches Ok(p) && p.method == Method::Post && p.url@ == v
                        && p.token@ == self.token@ && p.body is None,
                },
            },
    {
        let mut rest = "?active=".to_owned();
        push_bool(&mut rest, active);
        let base = match self.at(Method::Post, rest.as_str(), None) {
            Ok(p) => p,
            Err(e) => return Err(e),
        };
        match append_url_pair(base.url.as_str(), "source", source_name) {
            Some(url) => Ok(PreparedRequest { method: Method::Post, url, token: base.token, body: None }),
            None => Err(SeaplaneError::UrlParse),
        }
    }

    /// Deletes the Formation; `force` also deletes a running one.
    pub fn delete(&self, force: bool) -> (r: Result<PreparedRequest, SeaplaneError>)
        ensures
            formation_call(*self, Method::Delete, "?force="@ + bool_text(force), None, r),
    {
        let mut rest = "?force=".to_owned();
        push_bool(&mut rest, force);
        self.at(Method::Delete, rest.as_str(), None)
    }

    /// Reads the active configurations of the Formation.
    pub fn get_active_configurations(&self) -> (r: Result<PreparedRequest, SeaplaneError>)
        ensures
            formation_call(*self, Method::Get, "/activeConfiguration"@, None, r),
    {
        self.at(Method::Get, "/activeConfiguration", None)
    }

    /// Stops the Formation by removing its active configurations.
    pub fn stop(&self) -> (r: Result<PreparedRequest, SeaplaneError>)
        ensures
            formation_call(*self, Method::Delete, "/activeConfiguration"@, None, r),
    {
        self.at(Method::Delete, "/activeConfiguration", None)
    }

    /// Replaces the active configurations with `configs`, JSON sent as the
    /// body. An empty set (`configs_empty`) is refused unless `force` is given.
    pub fn set_active_configurations(&self, configs: String, configs_empty: bool, force: bool) -> (r: Result<
        PreparedRequest,
        SeaplaneError,
    >)
        ensures
            match req_name_url(*self, "/activeConfiguration?force="@ + bool_text(force)) {
                Some(Some(_)) if !force && configs_empty => r matches Err(
                    SeaplaneError::MissingActiveConfiguration,
                ),
                _ => formation_call(
                    *self,
                    Method::Put,
                    "/activeConfiguration?force="@ + bool_text(force),
                    Some(configs@),
                    r,
                ),
            },
    {
        let mut rest = "/activeConfiguration?force=".to_owned();
        push_bool(&mut rest, force);
        let p = match self.at(Method::Put, rest.as_str(), Some(configs)) {
            Ok(p) => p,
            Err(e) => return Err(e),
        };
        if !force && configs_empty {
            return Err(SeaplaneError::MissingActiveConfiguration);
        }
        Ok(p)
    }

    /// Lists the containers of the Formation.
    pub fn get_containers(&self) -> (r: Result<PreparedRequest, SeaplaneError>)
        ensures
            formation_call(*self, Method::Get, "/containers"@, None, r),
    {
        self.at(Method::Get, "/containers", None)
    }

    /// Reads one container of the Formation.
    pub fn get_container(&self, container_id: u128) -> (r: Result<PreparedRequest, SeaplaneError>)
        ensures
            formation_call(*self, Method::Get, "/containers/"@ + uuid_hyphenated(container_id), None, r),
    {
        let mut rest = "/containers/".to_owned();
        push_str(&mut rest, uuid_text(container_id).as_str());
        self.at(Method::Get, rest.as_str(), None)
    }

    /// Reads one configuration of the Formation.
    pub fn get_configuration(&self, uuid: u128) -> (r: Result<PreparedRequest, SeaplaneError>)
        ensures
            formation_call(*self, Method::Get, "/configurations/"@ + uuid_hyphenated(uuid), None, r),
    {
        let mut rest = "/configurations/".to_owned();
        push_str(&mut rest, uuid_text(uuid).as_str());
        self.at(Method::Get, rest.as_str(), None)
    }

    /// Lists the ids of the configurations of the Formation.
    pub fn list_configuration_ids(&self) -> (r: Result<PreparedRequest, SeaplaneError>)
        ensures
            formation_call(*self, Method::Get, "/configurations"@, None, r),
    {
        self.at(Method::Get, "/configurations", None)
    }

    /// Removes one configuration; `force` also removes an active one.
    pub fn remove_configuration(&self, uuid: u128, force: bool) -> (r: Result<
        PreparedRequest,
        SeaplaneError,
    >)
        ensures
            formation_call(
                *self,
                Method::Delete,
                "/configurations/"@ + uuid_hyphenated(uuid) + "?force="@ + bool_text(force),
                None,
                r,
            ),
    {
        let mut rest = "/configurations/".to_owned();
        push_str(&mut rest, uuid_text(uuid).as_str());
        push_str(&mut rest, "?force=");
        push_bool(&mut rest, force);
        self.at(Method::Delete, rest.as_str(), None)
    }

    /// Adds the given configuration, JSON sent as the body, to the Formation.
    pub fn add_configuration(&self, configuration: String, active: bool) -> (r: Result<
        PreparedRequest,
        SeaplaneError,
    >)
        ensures
            formation_call(
                *self,
                Method::Post,
                "/configurations?active="@ + bool_text(active),
                Some(configuration@),
                r,
            ),
    {
        let mut rest = "/configurations?active=".to_owned();
        push_bool(&mut rest, active);
        self.at(Method::Post, rest.as_str(), Some(configuration))
    }
}

/// The URL of `formations/{name}{rest}`: `None` without a name, else the
/// outcome of resolving it against the endpoint.
pub open spec fn req_name_url(req: FormationsRequest, rest: Seq<char>) -> Option<Option<Seq<char>>> {
    match req.name {
        None => None,
        Some(n) => Some(url_join(req.endpoint_url@, formation_path(n@, rest))),
    }
}

} // verus!
