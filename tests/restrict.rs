use seaplane::error::SeaplaneError;
use seaplane::kv::Key;
use seaplane::paging::RangeQueryContext;
use seaplane::restrict::{RestrictRequest, RestrictRequestBuilder};

const BASE: &str = "http://127.0.0.1:5000";

fn partial_build() -> RestrictRequestBuilder {
    RestrictRequestBuilder::new().token("abc123").base_url(BASE)
}

// GET /restrict/{api}/base64:{key}/
#[test]
fn get_value() {
    let req = partial_build().single_restriction("config", "Zm9vL2Jhcgo").build().unwrap();
    let get = req.get_restriction().unwrap();
    assert_eq!(get.url, "http://127.0.0.1:5000/v1/restrict/config/base64:Zm9vL2Jhcgo/");
    assert_eq!(get.token, "abc123");
}

#[test]
fn default_endpoint() {
    let req = RestrictRequest::builder().token("t").build().unwrap();
    assert_eq!(req.endpoint_url(), "https://metadata.cplane.cloud/v1/restrict/");
}

#[test]
fn build_needs_token() {
    let err = RestrictRequestBuilder::new().single_restriction("config", "Zm9v").build().unwrap_err();
    assert_eq!(err, SeaplaneError::MissingRequestAuthToken);
}

#[test]
fn bad_base_url() {
    let err = RestrictRequestBuilder::new().token("t").base_url("not a url").build().unwrap_err();
    assert_eq!(err, SeaplaneError::UrlParse);
}

#[test]
fn single_url_needs_single_target() {
    let req = partial_build().api_range("config", RangeQueryContext::new()).build().unwrap();
    assert_eq!(req.get_restriction().unwrap_err(), SeaplaneError::IncorrectRestrictRequestTarget);
    assert_eq!(req.single_url().unwrap_err(), SeaplaneError::IncorrectRestrictRequestTarget);
}

#[test]
fn range_urls() {
    let req = partial_build().api_range("config", RangeQueryContext::new()).build().unwrap();
    assert_eq!(req.range_url().unwrap(), "http://127.0.0.1:5000/v1/restrict/config/");

    let mut ctx = RangeQueryContext::new();
    ctx.set_from(Key::from_unencoded(b"foo".to_vec()));
    let req = partial_build().api_range("locks", ctx).build().unwrap();
    assert_eq!(req.range_url().unwrap(), "http://127.0.0.1:5000/v1/restrict/locks/?from=base64:Zm9v");

    let req = partial_build().api_range("nope", RangeQueryContext::new()).build().unwrap();
    assert_eq!(req.range_url().unwrap_err(), SeaplaneError::IncorrectRestrictRequestTarget);

    let req = partial_build().all_range(None, RangeQueryContext::new()).build().unwrap();
    assert_eq!(req.range_url().unwrap(), "http://127.0.0.1:5000/v1/restrict/");

    let mut ctx = RangeQueryContext::new();
    ctx.set_from(Key::from_unencoded(b"foo".to_vec()));
    let req = partial_build().all_range(Some("config"), ctx).build().unwrap();
    assert_eq!(
        req.range_url().unwrap(),
        "http://127.0.0.1:5000/v1/restrict/?from_api=config&from=base64:Zm9v"
    );

    let req = partial_build().all_range(Some("config"), RangeQueryContext::new()).build().unwrap();
    assert_eq!(req.range_url().unwrap_err(), SeaplaneError::IncorrectRestrictRequestTarget);

    let req = partial_build().single_restriction("config", "Zm9v").build().unwrap();
    assert_eq!(req.range_url().unwrap_err(), SeaplaneError::IncorrectRestrictRequestTarget);
}
