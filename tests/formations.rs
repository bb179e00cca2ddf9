use seaplane::error::SeaplaneError;
use seaplane::formations::{FormationsRequest, FormationsRequestBuilder, Method};

const BASE: &str = "http://127.0.0.1:5000/";
const ID: u128 = 0x67e55044_10b1_426f_9247_bb680e5fe0c8;

fn named() -> FormationsRequest {
    FormationsRequestBuilder::new().token("abc123").name("foo").base_url(BASE).build().unwrap()
}

#[test]
fn formation_build_needs_token() {
    let err = FormationsRequest::builder().name("foo").build().unwrap_err();
    assert_eq!(err, SeaplaneError::MissingRequestAuthToken);
}

#[test]
fn formation_default_endpoint() {
    let req = FormationsRequest::new("abc123").unwrap();
    assert_eq!(req.endpoint_url, "https://compute.cplane.cloud/v1/formations");
    assert_eq!(req.name, None);
    let list = req.list_names();
    assert_eq!(list.method, Method::Get);
    assert_eq!(list.url, "https://compute.cplane.cloud/v1/formations");
    assert_eq!(list.body, None);
    assert_eq!(req.delete(false).unwrap_err(), SeaplaneError::MissingFormationName);
}

#[test]
fn formation_urls() {
    let r = named();
    let p = r.create("{\"flights\":[]}".to_string(), true).unwrap();
    assert_eq!(p.body.as_deref(), Some("{\"flights\":[]}"));
    assert_eq!((p.method, p.url.as_str()), (Method::Post, "http://127.0.0.1:5000/v1/formations/foo?active=true"));
    assert_eq!(p.token, "abc123");
    let p = r.clone_from("bar baz", false).unwrap();
    assert_eq!(p.url, "http://127.0.0.1:5000/v1/formations/foo?active=false&source=bar+baz");
    let p = r.delete(true).unwrap();
    assert_eq!((p.method, p.url.as_str()), (Method::Delete, "http://127.0.0.1:5000/v1/formations/foo?force=true"));
    let p = r.get_active_configurations().unwrap();
    assert_eq!((p.method, p.url.as_str()), (Method::Get, "http://127.0.0.1:5000/v1/formations/foo/activeConfiguration"));
    let p = r.stop().unwrap();
    assert_eq!(p.method, Method::Delete);
    let p = r.get_containers().unwrap();
    assert_eq!(p.url, "http://127.0.0.1:5000/v1/formations/foo/containers");
    let p = r.get_container(ID).unwrap();
    assert_eq!(p.url, "http://127.0.0.1:5000/v1/formations/foo/containers/67e55044-10b1-426f-9247-bb680e5fe0c8");
    let p = r.get_configuration(ID).unwrap();
    assert_eq!(p.url, "http://127.0.0.1:5000/v1/formations/foo/configurations/67e55044-10b1-426f-9247-bb680e5fe0c8");
    let p = r.list_configuration_ids().unwrap();
    assert_eq!(p.url, "http://127.0.0.1:5000/v1/formations/foo/configurations");
    let p = r.remove_configuration(ID, false).unwrap();
    assert_eq!(
        (p.method, p.url.as_str()),
        (Method::Delete, "http://127.0.0.1:5000/v1/formations/foo/configurations/67e55044-10b1-426f-9247-bb680e5fe0c8?force=false")
    );
    let p = r.add_configuration("{}".to_string(), true).unwrap();
    assert_eq!(p.body.as_deref(), Some("{}"));
    assert_eq!((p.method, p.url.as_str()), (Method::Post, "http://127.0.0.1:5000/v1/formations/foo/configurations?active=true"));
}

#[test]
fn set_active_configurations_needs_some_unless_forced() {
    let r = named();
    assert_eq!(
        r.set_active_configurations("[]".to_string(), true, false).unwrap_err(),
        SeaplaneError::MissingActiveConfiguration
    );
    let p = r.set_active_configurations("[]".to_string(), true, true).unwrap();
    assert_eq!(p.body.as_deref(), Some("[]"));
    assert_eq!((p.method, p.url.as_str()), (Method::Put, "http://127.0.0.1:5000/v1/formations/foo/activeConfiguration?force=true"));
    assert!(r.set_active_configurations("[{}]".to_string(), false, false).is_ok());
}
