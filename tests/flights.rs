use seaplane::flights::{DuplicateId, Flight, FlightOverlay, Flights, ResolutionError};
use seaplane::models::Architecture;

fn flight(id: &str, name: &str) -> Flight {
    Flight {
        id: id.to_string(),
        name: name.to_string(),
        image: "a".to_string(),
        architecture: Architecture::AMD64,
        minimum: 1,
        maximum: None,
    }
}

fn store(flights: Vec<Flight>) -> Flights {
    Flights::from_flights(flights).unwrap()
}

#[test]
fn resolve_prefers_exact_and_prefix() {
    let s = store(vec![flight("1", "foo"), flight("2", "foobar")]);
    assert_eq!(s.resolve("foo", true), Ok(0));
    assert_eq!(s.get(s.resolve("foo", true).unwrap()).id, "1");
    assert_eq!(s.get(s.resolve("foo", false).unwrap()).id, "1");
    assert_eq!(s.get(s.resolve("bar", false).unwrap()).id, "2");
    assert_eq!(s.resolve("baz", false), Err(ResolutionError::NotFound));
}

#[test]
fn resolve_exact_does_not_fuzz() {
    let s = store(vec![flight("1", "foo"), flight("2", "foobar")]);
    assert_eq!(s.resolve("bar", true), Err(ResolutionError::NotFound));
    assert_eq!(s.resolve("FOO", true), Err(ResolutionError::NotFound));
}

#[test]
fn resolve_by_id_first() {
    let s = store(vec![flight("1", "2"), flight("2", "other")]);
    assert_eq!(s.get(s.resolve("2", true).unwrap()).id, "2");
}

#[test]
fn resolve_ambiguous_names() {
    let s = store(vec![flight("1", "foo"), flight("2", "foo")]);
    assert_eq!(
        s.resolve("foo", true),
        Err(ResolutionError::Ambiguous(vec!["1".to_string(), "2".to_string()]))
    );
}

#[test]
fn resolve_fuzzy_ignores_ascii_case() {
    let s = store(vec![flight("1", "MyFlight"), flight("2", "other")]);
    assert_eq!(s.resolve("myfl", false), Ok(0));
    assert_eq!(s.resolve("FLIGHT", false), Ok(0));
}

#[test]
fn resolve_ambiguous_prefix() {
    let s = store(vec![flight("1", "foobar"), flight("2", "foobaz"), flight("3", "bar")]);
    assert_eq!(
        s.resolve("foo", false),
        Err(ResolutionError::Ambiguous(vec!["1".to_string(), "2".to_string()]))
    );
    // A prefix match wins over a match inside a name.
    assert_eq!(s.resolve("ba", false), Ok(2));
}

#[test]
fn overlay_is_partial() {
    let mut s = store(vec![flight("1", "foo")]);
    let overlay = FlightOverlay { image: Some("b".to_string()), ..FlightOverlay::default() };
    assert_eq!(s.update_flight("foo", true, &overlay), Ok(()));
    let f = s.get(0);
    assert_eq!(f.id, "1");
    assert_eq!(f.name, "foo");
    assert_eq!(f.image, "b");
    assert_eq!(f.architecture, Architecture::AMD64);
    assert_eq!(f.minimum, 1);
    assert_eq!(f.maximum, None);
}

#[test]
fn overlay_sets_every_given_field() {
    let mut s = store(vec![flight("1", "foo")]);
    let overlay = FlightOverlay {
        name: Some("bar".to_string()),
        image: Some("img".to_string()),
        architecture: Some(Architecture::ARM64),
        minimum: Some(3),
        maximum: Some(9),
    };
    assert_eq!(s.update_flight("1", true, &overlay), Ok(()));
    let f = s.get(0);
    assert_eq!(f.id, "1");
    assert_eq!(f.name, "bar");
    assert_eq!(f.image, "img");
    assert_eq!(f.architecture, Architecture::ARM64);
    assert_eq!(f.minimum, 3);
    assert_eq!(f.maximum, Some(9));
}

#[test]
fn failed_update_leaves_store_untouched() {
    let mut s = store(vec![flight("1", "foo"), flight("2", "foo")]);
    let overlay = FlightOverlay { image: Some("b".to_string()), ..FlightOverlay::default() };
    assert!(matches!(s.update_flight("foo", true, &overlay), Err(ResolutionError::Ambiguous(_))));
    assert_eq!(s.update_flight("nope", false, &overlay), Err(ResolutionError::NotFound));
    assert_eq!(s.get(0).image, "a");
    assert_eq!(s.get(1).image, "a");
}

#[test]
fn add_and_remove() {
    let mut s = Flights::new();
    assert_eq!(s.add(flight("1", "foo")), Ok(()));
    assert_eq!(s.add(flight("1", "bar")), Err(DuplicateId));
    assert_eq!(s.len(), 1);
    assert_eq!(s.add(flight("2", "bar")), Ok(()));
    assert!(s.contains_id(&"2".to_string()));
    let removed = s.remove_by_id(&"1".to_string()).unwrap();
    assert_eq!(removed.name, "foo");
    assert_eq!(s.len(), 1);
    assert_eq!(s.get(0).id, "2");
    assert!(s.remove_by_id(&"1".to_string()).is_none());
}

#[test]
fn duplicate_ids_are_refused_on_load() {
    assert_eq!(
        Flights::from_flights(vec![flight("1", "a"), flight("1", "b")]).unwrap_err(),
        DuplicateId
    );
}
