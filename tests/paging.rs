use seaplane::codec::{encode, EncodingError};
use seaplane::kv::{Directory, Key, KeyValue, KeyValues};
use seaplane::paging::{PageRequest, RangeQuery, RangeQueryContext};

fn pair(k: &str, v: &str) -> (String, String) {
    (encode(k.as_bytes()), encode(v.as_bytes()))
}

/// Runs a query against pages served in order; returns the aggregate and the requests made.
fn run(
    mut q: RangeQuery,
    pages: &[Vec<(String, String)>],
) -> (Option<KeyValues>, Vec<PageRequest>) {
    let mut requests = Vec::new();
    while let Some(req) = q.next_request() {
        let page = &pages[requests.len()];
        requests.push(req);
        q.receive_encoded_page(page).unwrap();
    }
    (q.into_aggregate(), requests)
}

fn numbered_page(from: usize, n: usize) -> Vec<(String, String)> {
    (from..from + n).map(|i| pair(&format!("key{i:03}"), &format!("value{i}"))).collect()
}

#[test]
fn pagination_stops_on_short_page() {
    let n_max = 4;
    let pages = vec![numbered_page(0, n_max), numbered_page(n_max, n_max), numbered_page(2 * n_max, 3)];
    let q = RangeQuery::new(RangeQueryContext::new(), n_max);
    let (agg, requests) = run(q, &pages);
    let agg = agg.unwrap();
    assert_eq!(requests.len(), 3);
    assert_eq!(agg.len(), 2 * n_max + 3);
    let keys = agg.keys();
    for (i, k) in keys.iter().enumerate() {
        assert_eq!(k, format!("key{i:03}").as_bytes());
    }
    let values = agg.values();
    assert_eq!(values[10], b"value10".to_vec());
    // The cursor of each later request is the last key of the page before.
    assert_eq!(requests[0].from, None);
    assert_eq!(requests[1].from, Some(encode(b"key003")));
    assert_eq!(requests[2].from, Some(encode(b"key007")));
}

#[test]
fn pagination_empty_first_page() {
    let pages = vec![vec![]];
    let q = RangeQuery::new(RangeQueryContext::new(), 10);
    let (agg, requests) = run(q, &pages);
    let agg = agg.unwrap();
    assert_eq!(requests.len(), 1);
    assert!(agg.is_empty());
}

#[test]
fn pagination_resends_directory() {
    let mut ctx = RangeQueryContext::new();
    ctx.set_directory(Directory::from_unencoded(b"dir/".to_vec()));
    ctx.set_from(Key::from_unencoded(b"start".to_vec()));
    let pages = vec![numbered_page(0, 2), numbered_page(2, 1)];
    let (agg, requests) = run(RangeQuery::new(ctx, 2), &pages);
    assert_eq!(agg.unwrap().len(), 3);
    assert_eq!(requests.len(), 2);
    for r in &requests {
        assert_eq!(r.directory, Some("ZGlyLw".to_string()));
    }
    assert_eq!(requests[0].from, Some(encode(b"start")));
}

#[test]
fn duplicate_key_across_pages_keeps_last_value() {
    let pages = vec![vec![pair("K", "V1"), pair("A", "x")], vec![pair("K", "V2")]];
    let (agg, _) = run(RangeQuery::new(RangeQueryContext::new(), 2), &pages);
    let agg = agg.unwrap();
    assert_eq!(agg.len(), 2);
    assert_eq!(agg.get(&b"K".to_vec()), Some(b"V2".to_vec()));
    assert_eq!(agg.get(&b"A".to_vec()), Some(b"x".to_vec()));
    // The key keeps its first place.
    assert_eq!(agg.keys(), vec![b"K".to_vec(), b"A".to_vec()]);
}

#[test]
fn malformed_page_fails_and_no_aggregate() {
    let mut q = RangeQuery::new(RangeQueryContext::new(), 2);
    assert!(q.next_request().is_some());
    let bad = vec![("Zm9v".to_string(), "not base64!".to_string())];
    assert_eq!(q.receive_encoded_page(&bad), Err(EncodingError));
    assert!(!q.is_finished());
    assert!(q.into_aggregate().is_none());
}

#[test]
fn aggregate_insert_page_in_order() {
    let mut kvs = KeyValues::new();
    kvs.insert_page(vec![
        KeyValue { key: vec![2], value: vec![20] },
        KeyValue { key: vec![1], value: vec![10] },
        KeyValue { key: vec![2], value: vec![21] },
    ]);
    assert_eq!(kvs.keys(), vec![vec![2], vec![1]]);
    assert_eq!(kvs.values(), vec![vec![21], vec![10]]);
    assert_eq!(kvs.get(&vec![3]), None);
}

#[test]
fn key_and_directory_from_encoded() {
    let k = Key::from_encoded("Zm9vL2Jhcgo").unwrap();
    assert_eq!(k.bytes, b"foo/bar\n".to_vec());
    assert_eq!(k.encoded(), "Zm9vL2Jhcgo");
    assert!(Directory::from_encoded("a=").is_err());
    let kv = KeyValue::from_encoded("Zm9v", "YmFy").unwrap();
    assert_eq!(kv.key, b"foo".to_vec());
    assert_eq!(kv.value, b"bar".to_vec());
}
