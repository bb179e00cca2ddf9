//! Requests against the `/restrict` APIs, which place restrictions on where the
//! data of a directory may live. This module builds the requests; performing
//! them is left to the caller.

use vstd::prelude::*;

use crate::codec::encode_spec;
use crate::error::SeaplaneError;
use crate::models::Api;
use crate::paging::RangeQueryContext;
use crate::text::{opt_view, push_str};
use crate::web::{is_absolute_url, join_url, set_url_query, url_join, url_with_query};

verus! {

/// The default root of the metadata service.
pub const METADATA_API_URL: &'static str = "https://metadata.cplane.cloud/";

/// A restricted directory, held as the URL-safe base64 text it travels as.
#[derive(Debug)]
pub struct RestrictedDirectory {
    encoded: String,
}

impl View for RestrictedDirectory {
    type V = Seq<char>;

    closed spec fn view(&self) -> Seq<char> {
        self.encoded@
    }
}

impl RestrictedDirectory {
    /// A directory given by its encoded text, taken as it is.
    pub fn from_encoded(encoded: String) -> (d: RestrictedDirectory)
        ensures
            d@ == encoded@,
    {
        RestrictedDirectory { encoded }
    }

    pub fn encoded(&self) -> (s: &str)
        ensures
            s@ == self@,
    {
        self.encoded.as_str()
    }
}

/// What a restriction request is about.
#[derive(Debug)]
pub enum RequestTarget {
    /// One directory of one API.
    Single { api: String, directory: RestrictedDirectory },
    /// The restrictions of one API, from a starting point on.
    ApiRange { api: String, context: RangeQueryContext },
    /// The restrictions of all APIs, from a starting API and point on.
    AllRange { from_api: Option<String>, context: RangeQueryContext },
}

/// A range context as its directory scope and its starting key.
pub type ContextModel = (Option<Seq<u8>>, Option<Seq<u8>>);

pub ghost enum TargetModel {
    Single(Seq<char>, Seq<char>),
    ApiRange(Seq<char>, ContextModel),
    AllRange(Option<Seq<char>>, ContextModel),
}

impl View for RequestTarget {
    type V = TargetModel;

    open spec fn view(&self) -> TargetModel {
        match self {
            RequestTarget::Single { api, directory } => TargetModel::Single(api@, directory@),
            RequestTarget::ApiRange { api, context } => TargetModel::ApiRange(api@, context@),
            RequestTarget::AllRange { from_api, context } => TargetModel::AllRange(
                opt_view(*from_api),
                context@,
            ),
        }
    }
}

pub open spec fn target_view(t: Option<RequestTarget>) -> Option<TargetModel> {
    match t {
        Some(t) => Some(t@),
        None => None,
    }
}

/// A builder for a [`RestrictRequest`].
#[derive(Debug, Default)]
pub struct RestrictRequestBuilder {
    pub token: Option<String>,
    pub base_url: Option<String>,
    pub target: Option<RequestTarget>,
}

/// The path under the endpoint for one directory of one API.
pub open spec fn single_path(api: Seq<char>, directory: Seq<char>) -> Seq<char> {
    api + "/base64:"@ + directory + "/"@
}

/// The query that starts a listing over all APIs at an API and a key.
pub open spec fn all_range_query(api: Seq<char>, from: Seq<u8>) -> Seq<char> {
    "from_api="@ + api + "&from=base64:"@ + encode_spec(from)
}

/// The query that starts a listing within one API at a key.
pub open spec fn api_range_query(from: Seq<u8>) -> Seq<char> {
    "from=base64:"@ + encode_spec(from)
}

/// A URL outcome as the request methods report it.
pub open spec fn url_outcome(u: Option<Seq<char>>, r: Result<String, SeaplaneError>) -> bool {
    match u {
        Some(u) => r matches Ok(s) && s@ == u,
        None => r matches Err(SeaplaneError::UrlParse),
    }
}

impl RestrictRequestBuilder {
    /// A builder with nothing set.
    pub fn new() -> (b: RestrictRequestBuilder)
        ensures
            b.token is None,
            b.base_url is None,
            b.target is None,
    {
        RestrictRequestBuilder { token: None, base_url: None, target: None }
    }

    /// Builds the request. A token is required; the endpoint is `v1/restrict/`
    /// under the base URL, or under the default root where none was set.
    pub fn build(self) -> (r: Result<RestrictRequest, SeaplaneError>)
        ensures
            self.token is None ==> r matches Err(SeaplaneError::MissingRequestAuthToken),
            self.token is Some ==> ({
                let root = match self.base_url {
                    Some(u) => u@,
                    None => METADATA_API_URL@,
                };
                match url_join(root, "v1/restrict/"@) {
                    Some(u) => r matches Ok(req) && req@.endpoint_url == u && req@.token
                        == self.token.unwrap()@ && req@.target == target_view(self.target),
                    None => r matches Err(SeaplaneError::UrlParse),
                }
            }),
    {
        let token = match self.token {
            Some(t) => t,
            None => return Err(SeaplaneError::MissingRequestAuthToken),
        };
        let joined = match &self.base_url {
            Some(u) => join_url(u.as_str(), "v1/restrict/"),
            None => join_url(METADATA_API_URL, "v1/restrict/"),
        };
        match joined {
            Some(endpoint_url) => Ok(RestrictRequest { token, endpoint_url, target: self.target }),
            None => Err(SeaplaneError::UrlParse),
        }
    }

    /// Sets the token used in Bearer Authorization; every endpoint needs it.
    pub fn token(self, token: &str) -> (b: RestrictRequestBuilder)
        ensures
            b.token matches Some(t) && t@ == token@,
            b.base_url == self.base_url,
            target_view(b.target) == target_view(self.target),
    {
        RestrictRequestBuilder { token: Some(token.to_owned()), ..self }
    }

    /// Sets the root URL that the endpoint is resolved against.
    pub fn base_url(self, url: &str) -> (b: RestrictRequestBuilder)
        ensures
            b.base_url matches Some(u) && u@ == url@,
            b.token == self.token,
            target_view(b.target) == target_view(self.target),
    {
        RestrictRequestBuilder { base_url: Some(url.to_owned()), ..self }
    }

    /// Targets one directory, given in URL-safe base64, of one API.
    pub fn single_restriction(self, api: &str, directory: &str) -> (b: RestrictRequestBuilder)
        ensures
            target_view(b.target) == Some(TargetModel::Single(api@, directory@)),
            b.token == self.token,
            b.base_url == self.base_url,
    {
        let directory = RestrictedDirectory::from_encoded(directory.to_owned());
        RestrictRequestBuilder {
            target: Some(RequestTarget::Single { api: api.to_owned(), directory }),
            ..self
        }
    }

    /// Targets a range query within one API.
    pub fn api_range(self, api: &str, context: RangeQueryContext) -> (b: RestrictRequestBuilder)
        ensures
            target_view(b.target) == Some(TargetModel::ApiRange(api@, context@)),
            b.token == self.token,
            b.base_url == self.base_url,
    {
        RestrictRequestBuilder {
            target: Some(RequestTarget::ApiRange { api: api.to_owned(), context }),
            ..self
        }
    }

    /// Targets a range query across all APIs.
    pub fn all_range(self, from_api: Option<&str>, context: RangeQueryContext) -> (b:
        RestrictRequestBuilder)
        ensures
            target_view(b.target) == Some(TargetModel::AllRange(opt_view(from_api), context@)),
            b.token == self.token,
            b.base_url == self.base_url,
    {
        let from_api = match from_api {
            Some(a) => Some(a.to_owned()),
            None => None,
        };
        RestrictRequestBuilder { target: Some(RequestTarget::AllRange { from_api, context }), ..self }
    }
}

/// A GET request ready to be sent: its URL and the Bearer token.
#[derive(Debug)]
pub struct PreparedGet {
    pub url: String,
    pub token: String,
}

/// A request against the `/restrict` APIs. Its endpoint is always an absolute URL.
#[derive(Debug)]
pub struct RestrictRequest {
    token: String,
    endpoint_url: String,
    target: Option<RequestTarget>,
}

pub ghost struct RestrictRequestModel {
    pub token: Seq<char>,
    pub endpoint_url: Seq<char>,
    pub target: Option<TargetModel>,
}

impl View for RestrictRequest {
    type V = RestrictRequestModel;

    closed spec fn view(&self) -> RestrictRequestModel {
        RestrictRequestModel {
            token: self.token@,
            endpoint_url: self.endpoint_url@,
            target: target_view(self.target),
        }
    }
}

impl RestrictRequest {
    #[verifier::type_invariant]
    spec fn endpoint_is_absolute(&self) -> bool {
        is_absolute_url(self.endpoint_url@)
    }

    /// The URL that the request's paths are resolved against.
    pub fn endpoint_url(&self) -> (s: &str)
        ensures
            s@ == self@.endpoint_url,
    {
        self.endpoint_url.as_str()
    }

    /// The token used in Bearer Authorization.
    pub fn token(&self) -> (s: &str)
        ensures
            s@ == self@.token,
    {
        self.token.as_str()
    }

    /// A new request builder.
    pub fn builder() -> (b: RestrictRequestBuilder)
        ensures
            b.token is None,
            b.base_url is None,
            b.target is None,
    {
        RestrictRequestBuilder::new()
    }

    /// The URL of a single-directory endpoint.
    pub fn single_url(&self) -> (r: Result<String, SeaplaneError>)
        ensures
            match self@.target {
                Some(TargetModel::Single(api, dir)) => url_outcome(
                    url_join(self@.endpoint_url, single_path(api, dir)),
                    r,
                ),
                _ => r matches Err(SeaplaneError::IncorrectRestrictRequestTarget),
            },
    {
        match &self.target {
            Some(RequestTarget::Single { api, directory }) => {
                let mut path = api.clone();
                push_str(&mut path, "/base64:");
                push_str(&mut path, directory.encoded());
                push_str(&mut path, "/");
                match join_url(self.endpoint_url.as_str(), path.as_str()) {
                    Some(u) => Ok(u),
                    None => Err(SeaplaneError::UrlParse),
                }
            },
            _ => Err(SeaplaneError::IncorrectRestrictRequestTarget),
        }
    }

    /// The URL of a range endpoint. Over all APIs, the starting API and the
    /// starting key go together: both or neither. Within one API, the API must
    /// be one that the service knows.
    pub fn range_url(&self) -> (r: Result<String, SeaplaneError>)
        ensures
            match self@.target {
                Some(TargetModel::AllRange(from_api, ctx)) => match (from_api, ctx.1) {
                    (None, None) => r matches Ok(u) && u@ == self@.endpoint_url,
                    (Some(api), Some(key)) => r matches Ok(u) && url_with_query(
                        self@.endpoint_url,
                        all_range_query(api, key),
                    ) == Some(u@),
                    _ => r matches Err(SeaplaneError::IncorrectRestrictRequestTarget),
                },
                Some(TargetModel::ApiRange(api, ctx)) => match Api::parse_spec(api) {
                    None => r matches Err(SeaplaneError::IncorrectRestrictRequestTarget),
                    Some(a) => match url_join(self@.endpoint_url, a.spec_name() + "/"@) {
                        None => r matches Err(SeaplaneError::UrlParse),
                        Some(base) => match ctx.1 {
                            None => r matches Ok(u) && u@ == base,
                            Some(key) => r matches Ok(u) && url_with_query(
                                base,
                                api_range_query(key),
                            ) == Some(u@),
                        },
                    },
                },
                _ => r matches Err(SeaplaneError::IncorrectRestrictRequestTarget),
            },
    {
        proof {
            use_type_invariant(self);
        }
        match &self.target {
            Some(RequestTarget::AllRange { from_api, context }) => {
                match (from_api, context.from()) {
                    (None, None) => Ok(self.endpoint_url.clone()),
                    (Some(api), Some(from)) => {
                        let mut query = "from_api=".to_owned();
                        push_str(&mut query, api.as_str());
                        push_str(&mut query, "&from=base64:");
                        push_str(&mut query, from.encoded().as_str());
                        match set_url_query(self.endpoint_url.as_str(), query.as_str()) {
                            Some(u) => Ok(u),
                            None => Err(SeaplaneError::UrlParse),
                        }
                    },
                    _ => Err(SeaplaneError::IncorrectRestrictRequestTarget),
                }
            },
            Some(RequestTarget::ApiRange { api, context }) => {
                let parsed = match Api::from_name(api.as_str()) {
                    Some(a) => a,
                    None => return Err(SeaplaneError::IncorrectRestrictRequestTarget),
                };
                let mut path = parsed.as_str().to_owned();
                push_str(&mut path, "/");
                let base = match join_url(self.endpoint_url.as_str(), path.as_str()) {
                    Some(u) => u,
                    None => return Err(SeaplaneError::UrlParse),
                };
                match context.from() {
                    None => Ok(base),
                    Some(from) => {
                        let mut query = "from=base64:".to_owned();
                        push_str(&mut query, from.encoded().as_str());
                        match set_url_query(base.as_str(), query.as_str()) {
                            Some(u) => Ok(u),
                            None => Err(SeaplaneError::UrlParse),
                        }
                    },
                }
            },
            _ => Err(SeaplaneError::IncorrectRestrictRequestTarget),
        }
    }

    /// The GET request that returns the restriction details of an
    /// API-directory pair; the target must be a single directory.
    pub fn get_restriction(&self) -> (r: Result<PreparedGet, SeaplaneError>)
        ensures
            match self@.target {
                Some(TargetModel::Single(api, dir)) => match url_join(
                    self@.endpoint_url,
                    single_path(api, dir),
                ) {
                    Some(u) => r matches Ok(g) && g.url@ == u && g.token@ == self@.token,
                    None => r matches Err(SeaplaneError::UrlParse),
                },
                _ => r matches Err(SeaplaneError::IncorrectRestrictRequestTarget),
            },
    {
        match self.single_url() {
            Ok(url) => Ok(PreparedGet { url, token: self.token.clone() }),
            Err(e) => Err(e),
        }
    }
}

} // verus!
