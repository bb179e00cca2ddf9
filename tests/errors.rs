use seaplane::error::{map_api_error, ApiError, ApiErrorKind};

#[test]
fn status_classification() {
    assert_eq!(ApiErrorKind::from_status(Some(400)), ApiErrorKind::BadRequest);
    assert_eq!(ApiErrorKind::from_status(Some(401)), ApiErrorKind::Unauthorized);
    assert_eq!(ApiErrorKind::from_status(Some(403)), ApiErrorKind::Forbidden);
    assert_eq!(ApiErrorKind::from_status(Some(404)), ApiErrorKind::NotFound);
    assert_eq!(ApiErrorKind::from_status(Some(409)), ApiErrorKind::Conflict);
    assert_eq!(ApiErrorKind::from_status(Some(500)), ApiErrorKind::InternalServerError);
    assert_eq!(ApiErrorKind::from_status(Some(503)), ApiErrorKind::ServiceUnavailable);
    assert_eq!(ApiErrorKind::from_status(Some(418)), ApiErrorKind::Unknown);
    assert_eq!(ApiErrorKind::from_status(None), ApiErrorKind::Unknown);
}

#[test]
fn map_api_error_by_status() {
    assert!(map_api_error(200, "ok".to_string()).is_ok());
    assert!(map_api_error(302, String::new()).is_ok());
    let e = map_api_error(404, "no such key".to_string()).unwrap_err();
    assert_eq!(e.kind, ApiErrorKind::NotFound);
    assert_eq!(e.message, "no such key");
    assert_eq!(map_api_error(599, String::new()).unwrap_err().kind, ApiErrorKind::Unknown);
}

#[test]
fn error_text() {
    let e = ApiError { message: String::new(), kind: ApiErrorKind::Forbidden };
    assert_eq!(e.text(), "permission denied");
    let e = ApiError { message: "nope".to_string(), kind: ApiErrorKind::Forbidden };
    assert_eq!(e.text(), "nope");
    assert_eq!(ApiErrorKind::Unknown.description(), "unknown fatal error");
}

#[test]
fn api_errors_compare_by_kind() {
    let a = ApiError { message: "a".to_string(), kind: ApiErrorKind::Conflict };
    let b = ApiError { message: "b".to_string(), kind: ApiErrorKind::Conflict };
    let c = ApiError { message: "a".to_string(), kind: ApiErrorKind::NotFound };
    assert!(a == b);
    assert!(a != c);
}
