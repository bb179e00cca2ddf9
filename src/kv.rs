//! Binary keys, values and directories of the remote key-value store, and the
//! ordered, duplicate-free aggregate that paging assembles.

use vstd::prelude::*;

use crate::codec::{decode, decode_spec, encode, encode_spec, EncodingError};

verus! {

/// A key and its value, both as raw bytes.
pub type PairModel = (Seq<u8>, Seq<u8>);

/// Whether two byte vectors hold the same bytes.
pub fn bytes_eq(a: &Vec<u8>, b: &Vec<u8>) -> (r: bool)
    ensures
        r == (a@ == b@),
{
    if a.len() != b.len() {
        return false;
    }
    let mut i: usize = 0;
    while i < a.len()
        invariant
            i <= a.len(),
            a.len() == b.len(),
            forall|j: int| 0 <= j < i ==> a@[j] == b@[j],
        decreases a.len() - i,
    {
        if a[i] != b[i] {
            return false;
        }
        i = i + 1;
    }
    assert(a@ =~= b@);
    true
}

/// A copy of a byte vector.
pub fn copy_bytes(a: &Vec<u8>) -> (r: Vec<u8>)
    ensures
        r@ == a@,
{
    let mut r: Vec<u8> = Vec::new();
    let mut i: usize = 0;
    while i < a.len()
        invariant
            i <= a.len(),
            r@ == a@.take(i as int),
        decreases a.len() - i,
    {
        r.push(a[i]);
        i = i + 1;
    }
    assert(r@ =~= a@);
    r
}

/// A key of the remote store: opaque bytes.
#[derive(Debug)]
pub struct Key {
    pub bytes: Vec<u8>,
}

/// A directory: a byte prefix that scopes a range query.
#[derive(Debug)]
pub struct Directory {
    pub bytes: Vec<u8>,
}

impl View for Key {
    type V = Seq<u8>;

    open spec fn view(&self) -> Seq<u8> {
        self.bytes@
    }
}

impl View for Directory {
    type V = Seq<u8>;

    open spec fn view(&self) -> Seq<u8> {
        self.bytes@
    }
}

impl Key {
    pub fn from_unencoded(bytes: Vec<u8>) -> (k: Key)
        ensures
            k@ == bytes@,
    {
        Key { bytes }
    }

    /// The key that base64 text stands for.
    pub fn from_encoded(text: &str) -> (r: Result<Key, EncodingError>)
        ensures
            match r {
                Ok(k) => decode_spec(text@) == Some(k@),
                Err(_) => decode_spec(text@) is None,
            },
    {
        match decode(text) {
            Ok(bytes) => Ok(Key { bytes }),
            Err(e) => Err(e),
        }
    }

    pub fn encoded(&self) -> (s: String)
        ensures
            s@ == encode_spec(self@),
    {
        encode(self.bytes.as_slice())
    }

    pub fn duplicate(&self) -> (k: Key)
        ensures
            k@ == self@,
    {
        Key { bytes: copy_bytes(&self.bytes) }
    }
}

impl Directory {
    pub fn from_unencoded(bytes: Vec<u8>) -> (d: Directory)
        ensures
            d@ == bytes@,
    {
        Directory { bytes }
    }

    /// The directory that base64 text stands for.
    pub fn from_encoded(text: &str) -> (r: Result<Directory, EncodingError>)
        ensures
            match r {
                Ok(d) => decode_spec(text@) == Some(d@),
                Err(_) => decode_spec(text@) is None,
            },
    {
        match decode(text) {
            Ok(bytes) => Ok(Directory { bytes }),
            Err(e) => Err(e),
        }
    }

    pub fn encoded(&self) -> (s: String)
        ensures
            s@ == encode_spec(self@),
    {
        encode(self.bytes.as_slice())
    }

    pub fn duplicate(&self) -> (d: Directory)
        ensures
            d@ == self@,
    {
        Directory { bytes: copy_bytes(&self.bytes) }
    }
}

/// One key-value pair as raw bytes.
#[derive(Debug)]
pub struct KeyValue {
    pub key: Vec<u8>,
    pub value: Vec<u8>,
}

impl View for KeyValue {
    type V = PairModel;

    open spec fn view(&self) -> PairModel {
        (self.key@, self.value@)
    }
}

impl KeyValue {
    /// The pair that a base64 key and a base64 value stand for.
    pub fn from_encoded(key: &str, value: &str) -> (r: Result<KeyValue, EncodingError>)
        ensures
            match r {
                Ok(kv) => decode_spec(key@) == Some(kv@.0) && decode_spec(value@) == Some(kv@.1),
                Err(_) => decode_spec(key@) is None || decode_spec(value@) is None,
            },
    {
        let key = match decode(key) {
            Ok(k) => k,
            Err(e) => return Err(e),
        };
        let value = match decode(value) {
            Ok(v) => v,
            Err(e) => return Err(e),
        };
        Ok(KeyValue { key, value })
    }
}

/// The pairs that a page of base64 texts stands for, in the same order.
pub open spec fn decoded_page(raw: Seq<(Seq<char>, Seq<char>)>) -> Option<Seq<PairModel>>
    decreases raw.len(),
{
    if raw.len() == 0 {
        Some(seq![])
    } else {
        match (decode_spec(raw[0].0), decode_spec(raw[0].1), decoded_page(raw.skip(1))) {
            (Some(k), Some(v), Some(rest)) => Some(seq![(k, v)] + rest),
            _ => None,
        }
    }
}

proof fn lemma_decoded_page_split(raw: Seq<(Seq<char>, Seq<char>)>, i: int)
    requires
        0 <= i < raw.len(),
    ensures
        decoded_page(raw.skip(i)) == match (
            decode_spec(raw[i].0),
            decode_spec(raw[i].1),
            decoded_page(raw.skip(i + 1)),
        ) {
            (Some(k), Some(v), Some(rest)) => Some(seq![(k, v)] + rest),
            _ => None::<Seq<PairModel>>,
        },
{
    assert(raw.skip(i).skip(1) =~= raw.skip(i + 1));
    assert(raw.skip(i)[0] == raw[i]);
}

/// Decodes a page of base64 key/value texts; fails if any text is malformed.
pub fn decode_page(raw: &Vec<(String, String)>) -> (r: Result<Vec<KeyValue>, EncodingError>)
    ensures
        match r {
            Ok(page) => decoded_page(raw@.map_values(|p: (String, String)| (p.0@, p.1@))) == Some(
                page@.map_values(|kv: KeyValue| kv@),
            ),
            Err(_) => decoded_page(raw@.map_values(|p: (String, String)| (p.0@, p.1@))) is None,
        },
{
    let ghost texts = raw@.map_values(|p: (String, String)| (p.0@, p.1@));
    let mut page: Vec<KeyValue> = Vec::new();
    let mut i: usize = 0;
    proof {
        assert(texts.skip(0) =~= texts);
    }
    while i < raw.len()
        invariant
            i <= raw.len(),
            texts == raw@.map_values(|p: (String, String)| (p.0@, p.1@)),
            decoded_page(texts) == match decoded_page(texts.skip(i as int)) {
                Some(rest) => Some(page@.map_values(|kv: KeyValue| kv@) + rest),
                None => None::<Seq<PairModel>>,
            },
        decreases raw.len() - i,
    {
        proof {
            lemma_decoded_page_split(texts, i as int);
        }
        let kv = KeyValue::from_encoded(raw[i].0.as_str(), raw[i].1.as_str());
        match kv {
            Ok(kv) => {
                let ghost before = page@.map_values(|kv: KeyValue| kv@);
                page.push(kv);
                proof {
                    assert(page@.map_values(|kv: KeyValue| kv@) =~= before + seq![kv@]);
                    if let Some(rest) = decoded_page(texts.skip(i + 1)) {
                        assert(before + (seq![kv@] + rest) =~= (before + seq![kv@]) + rest);
                    }
                }
            },
            Err(e) => {
                return Err(e);
            },
        }
        i = i + 1;
    }
    proof {
        assert(texts.skip(i as int) =~= seq![]);
        assert(page@.map_values(|kv: KeyValue| kv@) + seq![] =~= page@.map_values(
            |kv: KeyValue| kv@,
        ));
    }
    Ok(page)
}

/// Whether no key occurs twice.
pub open spec fn keys_distinct(s: Seq<PairModel>) -> bool {
    forall|i: int, j: int| 0 <= i < s.len() && 0 <= j < s.len() && i != j ==> s[i].0 != s[j].0
}

pub open spec fn has_key(s: Seq<PairModel>, k: Seq<u8>) -> bool {
    exists|i: int| 0 <= i < s.len() && s[i].0 == k
}

/// The value held under `k`, if any.
pub open spec fn value_of(s: Seq<PairModel>, k: Seq<u8>) -> Option<Seq<u8>> {
    if has_key(s, k) {
        Some(s[choose|i: int| 0 <= i < s.len() && s[i].0 == k].1)
    } else {
        None
    }
}

/// Inserting one pair: a key already held keeps its place and takes the new
/// value; a new key goes at the end.
pub open spec fn insert_spec(s: Seq<PairModel>, k: Seq<u8>, v: Seq<u8>) -> Seq<PairModel> {
    if has_key(s, k) {
        s.update(choose|i: int| 0 <= i < s.len() && s[i].0 == k, (k, v))
    } else {
        s.push((k, v))
    }
}

/// Inserting the pairs of a page one after another, in page order.
pub open spec fn insert_all_spec(s: Seq<PairModel>, page: Seq<PairModel>) -> Seq<PairModel>
    decreases page.len(),
{
    if page.len() == 0 {
        s
    } else {
        insert_all_spec(insert_spec(s, page[0].0, page[0].1), page.skip(1))
    }
}

/// The value of the last pair of `page` whose key is `k`.
pub open spec fn last_value_in(page: Seq<PairModel>, k: Seq<u8>) -> Option<Seq<u8>>
    decreases page.len(),
{
    if page.len() == 0 {
        None
    } else {
        match last_value_in(page.skip(1), k) {
            Some(v) => Some(v),
            None => if page[0].0 == k {
                Some(page[0].1)
            } else {
                None
            },
        }
    }
}

proof fn lemma_insert_one(s: Seq<PairModel>, k: Seq<u8>, v: Seq<u8>)
    requires
        keys_distinct(s),
    ensures
        keys_distinct(insert_spec(s, k, v)),
        value_of(insert_spec(s, k, v), k) == Some(v),
        forall|k2: Seq<u8>| k2 != k ==> value_of(insert_spec(s, k, v), k2) == value_of(s, k2),
{
    let t = insert_spec(s, k, v);
    if has_key(s, k) {
        let i = choose|i: int| 0 <= i < s.len() && s[i].0 == k;
        assert(t[i].0 == k);
        assert(has_key(t, k));
        let j = choose|j: int| 0 <= j < t.len() && t[j].0 == k;
        assert(j == i);
    } else {
        assert(t[s.len() as int].0 == k);
        assert(has_key(t, k));
    }
    assert forall|k2: Seq<u8>| k2 != k implies value_of(t, k2) == value_of(s, k2) by {
        if has_key(s, k2) {
            let i = choose|i: int| 0 <= i < s.len() && s[i].0 == k2;
            assert(t[i].0 == k2);
            let j = choose|j: int| 0 <= j < t.len() && t[j].0 == k2;
            assert(j == i);
        } else if has_key(t, k2) {
            let j = choose|j: int| 0 <= j < t.len() && t[j].0 == k2;
            assert(s[j].0 == k2);
        }
    }
}

/// After a page is inserted, every key of the page holds the value of its last
/// occurrence in the page (the later write wins), and every other key keeps
/// the value it had.
pub proof fn lemma_last_write_wins(s: Seq<PairModel>, page: Seq<PairModel>, k: Seq<u8>)
    requires
        keys_distinct(s),
    ensures
        keys_distinct(insert_all_spec(s, page)),
        value_of(insert_all_spec(s, page), k) == match last_value_in(page, k) {
            Some(v) => Some(v),
            None => value_of(s, k),
        },
    decreases page.len(),
{
    if page.len() > 0 {
        lemma_insert_one(s, page[0].0, page[0].1);
        lemma_last_write_wins(insert_spec(s, page[0].0, page[0].1), page.skip(1), k);
    }
}

/// A page whose keys are new to the aggregate and distinct among themselves is
/// appended as it came, in the order received.
pub proof fn lemma_fresh_page_appends(s: Seq<PairModel>, page: Seq<PairModel>)
    requires
        keys_distinct(s + page),
    ensures
        insert_all_spec(s, page) == s + page,
    decreases page.len(),
{
    if page.len() > 0 {
        let t = s + page;
        assert(!has_key(s, page[0].0)) by {
            if has_key(s, page[0].0) {
                let i = choose|i: int| 0 <= i < s.len() && s[i].0 == page[0].0;
                assert(t[i].0 == t[s.len() as int].0);
            }
        }
        let s2 = s.push(page[0]);
        assert(s2 + page.skip(1) =~= s + page);
        lemma_fresh_page_appends(s2, page.skip(1));
    } else {
        assert(s + page =~= s);
    }
}

/// The aggregate of a range query: pairs in the order the server sent them,
/// each key at most once.
#[derive(Debug)]
pub struct KeyValues {
    kvs: Vec<KeyValue>,
}

impl View for KeyValues {
    type V = Seq<PairModel>;

    closed spec fn view(&self) -> Seq<PairModel> {
        self.kvs@.map_values(|kv: KeyValue| kv@)
    }
}

impl KeyValues {
    pub open spec fn wf(&self) -> bool {
        keys_distinct(self@)
    }

    pub fn new() -> (r: KeyValues)
        ensures
            r@ == Seq::<PairModel>::empty(),
            r.wf(),
    {
        KeyValues { kvs: Vec::new() }
    }

    pub fn len(&self) -> (n: usize)
        ensures
            n == self@.len(),
    {
        self.kvs.len()
    }

    pub fn is_empty(&self) -> (b: bool)
        ensures
            b == (self@.len() == 0),
    {
        self.kvs.len() == 0
    }

    /// Where `key` is held, if anywhere.
    fn position_of(&self, key: &Vec<u8>) -> (r: Option<usize>)
        requires
            self.wf(),
        ensures
            match r {
                Some(i) => i < self@.len() && self@[i as int].0 == key@,
                None => !has_key(self@, key@),
            },
    {
        let mut i: usize = 0;
        while i < self.kvs.len()
            invariant
                i <= self.kvs.len(),
                forall|j: int| 0 <= j < i ==> self@[j].0 != key@,
            decreases self.kvs.len() - i,
        {
            if bytes_eq(&self.kvs[i].key, key) {
                return Some(i);
            }
            i = i + 1;
        }
        None
    }

    /// Inserts one pair; a key already held takes the new value in place.
    pub fn insert(&mut self, kv: KeyValue)
        requires
            old(self).wf(),
        ensures
            final(self).wf(),
            final(self)@ == insert_spec(old(self)@, kv@.0, kv@.1),
    {
        let ghost k = kv@.0;
        let ghost v = kv@.1;
        proof {
            lemma_insert_one(self@, k, v);
        }
        match self.position_of(&kv.key) {
            Some(i) => {
                proof {
                    let c = choose|j: int| 0 <= j < self@.len() && self@[j].0 == k;
                    assert(c == i);
                }
                self.kvs.set(i, kv);
                assert(self@ =~= insert_spec(old(self)@, k, v));
            },
            None => {
                self.kvs.push(kv);
                assert(self@ =~= insert_spec(old(self)@, k, v));
            },
        }
    }

    /// Inserts the pairs of a page in order.
    pub fn insert_page(&mut self, page: Vec<KeyValue>)
        requires
            old(self).wf(),
        ensures
            final(self).wf(),
            final(self)@ == insert_all_spec(old(self)@, page@.map_values(|kv: KeyValue| kv@)),
    {
        let ghost pm = page@.map_values(|kv: KeyValue| kv@);
        let mut page = page;
        let total = page.len();
        let mut i: usize = 0;
        proof {
            assert(pm.skip(0) =~= pm);
        }
        while page.len() > 0
            invariant
                self.wf(),
                page@.len() + i == pm.len(),
                pm.len() == total,
                forall|j: int| 0 <= j < page@.len() ==> #[trigger] page@[j]@ == pm[i + j],
                insert_all_spec(old(self)@, pm) == insert_all_spec(self@, pm.skip(i as int)),
            decreases page.len(),
        {
            let kv = page.remove(0);
            assert(kv@ == pm[i as int]);
            assert(pm.skip(i as int).skip(1) =~= pm.skip(i + 1));
            self.insert(kv);
            i = i + 1;
        }
        assert(pm.skip(i as int) =~= seq![]);
    }

    /// The keys, in order.
    pub fn keys(&self) -> (r: Vec<Vec<u8>>)
        ensures
            r@.len() == self@.len(),
            forall|i: int| 0 <= i < r@.len() ==> #[trigger] r@[i]@ == self@[i].0,
    {
        let mut r: Vec<Vec<u8>> = Vec::new();
        let mut i: usize = 0;
        while i < self.kvs.len()
            invariant
                i <= self.kvs.len(),
                r@.len() == i,
                forall|j: int| 0 <= j < i ==> #[trigger] r@[j]@ == self@[j].0,
            decreases self.kvs.len() - i,
        {
            r.push(copy_bytes(&self.kvs[i].key));
            i = i + 1;
        }
        r
    }

    /// The values, in order.
    pub fn values(&self) -> (r: Vec<Vec<u8>>)
        ensures
            r@.len() == self@.len(),
            forall|i: int| 0 <= i < r@.len() ==> #[trigger] r@[i]@ == self@[i].1,
    {
        let mut r: Vec<Vec<u8>> = Vec::new();
        let mut i: usize = 0;
        while i < self.kvs.len()
            invariant
                i <= self.kvs.len(),
                r@.len() == i,
                forall|j: int| 0 <= j < i ==> #[trigger] r@[j]@ == self@[j].1,
            decreases self.kvs.len() - i,
        {
            r.push(copy_bytes(&self.kvs[i].value));
            i = i + 1;
        }
        r
    }

    /// The value held under `key`, if any.
    pub fn get(&self, key: &Vec<u8>) -> (r: Option<Vec<u8>>)
        requires
            self.wf(),
        ensures
            match r {
                Some(v) => value_of(self@, key@) == Some(v@),
                None => value_of(self@, key@) is None,
            },
    {
        match self.position_of(key) {
            Some(i) => {
                proof {
                    let c = choose|j: int| 0 <= j < self@.len() && self@[j].0 == key@;
                    assert(c == i);
                }
                Some(copy_bytes(&self.kvs[i].value))
            },
            None => None,
        }
    }
}

} // verus!
