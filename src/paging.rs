//! Paging through a remote key-value directory. The decisions of the paging loop
//! live here as a state machine: it says which page to ask for next, takes each
//! page the server returned, and hands out the aggregate only once the last page
//! has arrived. The caller performs the requests.

use vstd::prelude::*;

use crate::codec::{encode_spec, EncodingError};
use crate::text::opt_view;
use crate::kv::{
    decode_page, decoded_page, insert_all_spec, keys_distinct, last_value_in,
    lemma_fresh_page_appends, lemma_last_write_wins, value_of,
    Directory, Key, KeyValue, KeyValues, PairModel,
};

verus! {

/// The scope and starting point of a range query.
#[derive(Debug)]
pub struct RangeQueryContext {
    directory: Option<Directory>,
    from: Option<Key>,
}

impl View for RangeQueryContext {
    type V = (Option<Seq<u8>>, Option<Seq<u8>>);

    closed spec fn view(&self) -> (Option<Seq<u8>>, Option<Seq<u8>>) {
        (opt_view(self.directory), opt_view(self.from))
    }
}

impl RangeQueryContext {
    /// A query over the whole store from its first key.
    pub fn new() -> (c: RangeQueryContext)
        ensures
            c@ == (None::<Seq<u8>>, None::<Seq<u8>>),
    {
        RangeQueryContext { directory: None, from: None }
    }

    pub fn set_directory(&mut self, dir: Directory)
        ensures
            final(self)@ == (Some(dir@), old(self)@.1),
    {
        self.directory = Some(dir);
    }

    pub fn set_from(&mut self, from: Key)
        ensures
            final(self)@ == (old(self)@.0, Some(from@)),
    {
        self.from = Some(from);
    }

    pub fn directory(&self) -> (d: Option<&Directory>)
        ensures
            match d {
                Some(d) => self@.0 == Some(d@),
                None => self@.0 is None,
            },
    {
        match &self.directory {
            Some(d) => Some(d),
            None => None,
        }
    }

    pub fn from(&self) -> (k: Option<&Key>)
        ensures
            match k {
                Some(k) => self@.1 == Some(k@),
                None => self@.1 is None,
            },
    {
        match &self.from {
            Some(k) => Some(k),
            None => None,
        }
    }
}

/// One page request, with the directory and the cursor already encoded for the wire.
#[derive(Debug)]
pub struct PageRequest {
    pub directory: Option<String>,
    pub from: Option<String>,
}

pub open spec fn encoded_opt(o: Option<Seq<u8>>) -> Option<Seq<char>> {
    match o {
        Some(b) => Some(encode_spec(b)),
        None => None,
    }
}

/// The query string of a page request: the directory scope and the cursor,
/// each as `name=base64:text`, joined by `&`.
pub open spec fn query_spec(directory: Option<Seq<char>>, from: Option<Seq<char>>) -> Seq<char> {
    match (directory, from) {
        (None, None) => seq![],
        (Some(d), None) => "dir=base64:"@ + d,
        (None, Some(f)) => "from=base64:"@ + f,
        (Some(d), Some(f)) => "dir=base64:"@ + d + "&from=base64:"@ + f,
    }
}

impl PageRequest {
    /// The query string that carries this request to the range endpoint.
    pub fn query_string(&self) -> (s: String)
        ensures
            s@ == query_spec(opt_view(self.directory), opt_view(self.from)),
    {
        let mut s = String::new();
        if let Some(d) = &self.directory {
            crate::text::push_str(&mut s, "dir=base64:");
            crate::text::push_str(&mut s, d.as_str());
        }
        if let Some(f) = &self.from {
            if self.directory.is_some() {
                crate::text::push_str(&mut s, "&");
            }
            crate::text::push_str(&mut s, "from=base64:");
            crate::text::push_str(&mut s, f.as_str());
        }
        proof {
            let dv = opt_view(self.directory);
            let fv = opt_view(self.from);
            match (dv, fv) {
                (None, None) => {},
                (Some(d), None) => {
                    assert(s@ =~= "dir=base64:"@ + d);
                },
                (None, Some(f)) => {
                    assert(s@ =~= "from=base64:"@ + f);
                },
                (Some(d), Some(f)) => {
                    assert(s@ =~= "dir=base64:"@ + d + "&from=base64:"@ + f) by {
                        reveal_strlit("&");
                        reveal_strlit("from=base64:");
                        reveal_strlit("&from=base64:");
                    }
                },
            }
        }
        s
    }
}

/// The state of a range query between two requests.
pub ghost struct PagingModel {
    pub directory: Option<Seq<u8>>,
    pub from: Option<Seq<u8>>,
    pub page_size: nat,
    pub aggregate: Seq<PairModel>,
    pub finished: bool,
}

/// The state before the first request.
pub open spec fn start_spec(directory: Option<Seq<u8>>, from: Option<Seq<u8>>, page_size: nat) -> PagingModel {
    PagingModel { directory, from, page_size, aggregate: seq![], finished: false }
}

/// Taking one page: its pairs join the aggregate in order, the cursor moves to
/// its last key, and a page shorter than the page size ends the query.
pub open spec fn step_spec(st: PagingModel, page: Seq<PairModel>) -> PagingModel {
    PagingModel {
        directory: st.directory,
        from: if page.len() > 0 {
            Some(page.last().0)
        } else {
            st.from
        },
        page_size: st.page_size,
        aggregate: insert_all_spec(st.aggregate, page),
        finished: page.len() < st.page_size,
    }
}

/// Taking pages one after another.
pub open spec fn run_spec(st: PagingModel, pages: Seq<Seq<PairModel>>) -> PagingModel
    decreases pages.len(),
{
    if pages.len() == 0 {
        st
    } else {
        step_spec(run_spec(st, pages.drop_last()), pages.last())
    }
}

/// Pages as a server sends them: every page but the last is full, the last is short.
pub open spec fn full_then_short(pages: Seq<Seq<PairModel>>, page_size: nat) -> bool {
    &&& pages.len() > 0
    &&& forall|i: int| 0 <= i < pages.len() - 1 ==> (#[trigger] pages[i]).len() == page_size
    &&& pages.last().len() < page_size
}

proof fn lemma_insert_all_concat(s: Seq<PairModel>, a: Seq<PairModel>, b: Seq<PairModel>)
    ensures
        insert_all_spec(s, a + b) == insert_all_spec(insert_all_spec(s, a), b),
    decreases a.len(),
{
    if a.len() == 0 {
        assert(a + b =~= b);
    } else {
        assert((a + b).skip(1) =~= a.skip(1) + b);
        assert((a + b)[0] == a[0]);
        lemma_insert_all_concat(
            crate::kv::insert_spec(s, a[0].0, a[0].1),
            a.skip(1),
            b,
        );
    }
}

proof fn lemma_run_shape(st: PagingModel, pages: Seq<Seq<PairModel>>)
    ensures
        run_spec(st, pages).directory == st.directory,
        run_spec(st, pages).page_size == st.page_size,
        run_spec(st, pages).aggregate == insert_all_spec(st.aggregate, pages.flatten_alt()),
    decreases pages.len(),
{
    if pages.len() == 0 {
        assert(pages.flatten_alt() =~= seq![]);
    } else {
        lemma_run_shape(st, pages.drop_last());
        lemma_insert_all_concat(st.aggregate, pages.drop_last().flatten_alt(), pages.last());
    }
}

/// A server that sends full pages and then one short page is asked exactly once
/// per page: the query is still open after every proper prefix of the pages
/// and finished after all of them. The aggregate is every pair inserted in the
/// order received, and where no key repeats, the pages laid end to end.
pub proof fn lemma_paging_ends_on_short_page(
    directory: Option<Seq<u8>>,
    from: Option<Seq<u8>>,
    page_size: nat,
    pages: Seq<Seq<PairModel>>,
)
    requires
        page_size > 0,
        full_then_short(pages, page_size),
    ensures
        forall|k: int|
            0 <= k < pages.len() ==> !(#[trigger] run_spec(
                start_spec(directory, from, page_size),
                pages.take(k),
            )).finished,
        run_spec(start_spec(directory, from, page_size), pages).finished,
        run_spec(start_spec(directory, from, page_size), pages).directory == directory,
        run_spec(start_spec(directory, from, page_size), pages).aggregate == insert_all_spec(
            seq![],
            pages.flatten_alt(),
        ),
        keys_distinct(pages.flatten_alt()) ==> run_spec(
            start_spec(directory, from, page_size),
            pages,
        ).aggregate == pages.flatten_alt(),
{
    let st = start_spec(directory, from, page_size);
    assert forall|k: int| 0 <= k < pages.len() implies !(#[trigger] run_spec(
        st,
        pages.take(k),
    )).finished by {
        if k > 0 {
            let p = pages.take(k);
            assert(p.drop_last() =~= pages.take(k - 1));
            assert(p.last() == pages[k - 1]);
            assert(pages[k - 1].len() == page_size);
            lemma_run_shape(st, pages.take(k - 1));
        } else {
            assert(pages.take(k).len() == 0);
        }
    }
    lemma_run_shape(st, pages);
    if keys_distinct(pages.flatten_alt()) {
        assert(Seq::<PairModel>::empty() + pages.flatten_alt() =~= pages.flatten_alt());
        lemma_fresh_page_appends(seq![], pages.flatten_alt());
    }
}

/// Across two pages taken in turn, a key ends with the value of its last
/// occurrence in the later page; failing that, of its last occurrence in the
/// earlier page; failing that, the value it had. The aggregate keeps each key once.
pub proof fn lemma_later_page_wins(st: PagingModel, first: Seq<PairModel>, second: Seq<PairModel>, k: Seq<u8>)
    requires
        keys_distinct(st.aggregate),
    ensures
        keys_distinct(step_spec(step_spec(st, first), second).aggregate),
        value_of(step_spec(step_spec(st, first), second).aggregate, k) == match last_value_in(
            second,
            k,
        ) {
            Some(v) => Some(v),
            None => match last_value_in(first, k) {
                Some(v) => Some(v),
                None => value_of(st.aggregate, k),
            },
        },
{
    lemma_last_write_wins(st.aggregate, first, k);
    lemma_last_write_wins(insert_all_spec(st.aggregate, first), second, k);
}

/// A range query in progress.
#[derive(Debug)]
pub struct RangeQuery {
    directory: Option<Directory>,
    from: Option<Key>,
    page_size: usize,
    aggregate: KeyValues,
    finished: bool,
}

impl View for RangeQuery {
    type V = PagingModel;

    closed spec fn view(&self) -> PagingModel {
        PagingModel {
            directory: opt_view(self.directory),
            from: opt_view(self.from),
            page_size: self.page_size as nat,
            aggregate: self.aggregate@,
            finished: self.finished,
        }
    }
}

impl RangeQuery {
    pub closed spec fn wf(&self) -> bool {
        self.aggregate.wf() && self.page_size > 0
    }

    /// Starts a query in the given context; a page with fewer than `page_size`
    /// pairs will end it.
    pub fn new(context: RangeQueryContext, page_size: usize) -> (q: RangeQuery)
        requires
            page_size > 0,
        ensures
            q.wf(),
            q@ == start_spec(context@.0, context@.1, page_size as nat),
    {
        RangeQuery {
            directory: context.directory,
            from: context.from,
            page_size,
            aggregate: KeyValues::new(),
            finished: false,
        }
    }

    pub fn is_finished(&self) -> (b: bool)
        ensures
            b == self@.finished,
    {
        self.finished
    }

    /// The request to send next, or `None` once the query is over. Every request
    /// carries the same directory.
    pub fn next_request(&self) -> (r: Option<PageRequest>)
        ensures
            match r {
                Some(req) => !self@.finished && opt_view(req.directory) == encoded_opt(
                    self@.directory,
                ) && opt_view(req.from) == encoded_opt(self@.from),
                None => self@.finished,
            },
    {
        if self.finished {
            return None;
        }
        let directory = match &self.directory {
            Some(d) => Some(d.encoded()),
            None => None,
        };
        let from = match &self.from {
            Some(k) => Some(k.encoded()),
            None => None,
        };
        Some(PageRequest { directory, from })
    }

    /// Takes the page that the server returned for the last request.
    pub fn receive_page(&mut self, page: Vec<KeyValue>)
        requires
            old(self).wf(),
            !old(self)@.finished,
        ensures
            final(self).wf(),
            final(self)@ == step_spec(old(self)@, page@.map_values(|kv: KeyValue| kv@)),
    {
        let n = page.len();
        let ghost pm = page@.map_values(|kv: KeyValue| kv@);
        let last = if n > 0 {
            Some(Key::from_unencoded(crate::kv::copy_bytes(&page[n - 1].key)))
        } else {
            None
        };
        self.aggregate.insert_page(page);
        if n > 0 {
            self.from = last;
        }
        self.finished = n < self.page_size;
    }

    /// Takes a page of base64 texts as the server returned it. A malformed text
    /// fails the whole query: the state is left as it was and the aggregate is
    /// never handed out.
    pub fn receive_encoded_page(&mut self, raw: &Vec<(String, String)>) -> (r: Result<
        (),
        EncodingError,
    >)
        requires
            old(self).wf(),
            !old(self)@.finished,
        ensures
            final(self).wf(),
            match decoded_page(raw@.map_values(|p: (String, String)| (p.0@, p.1@))) {
                Some(page) => r is Ok && final(self)@ == step_spec(old(self)@, page),
                None => r is Err && final(self)@ == old(self)@,
            },
    {
        match decode_page(raw) {
            Ok(page) => {
                self.receive_page(page);
                Ok(())
            },
            Err(e) => Err(e),
        }
    }

    /// The aggregate, once the last page has arrived; `None` while the query is open.
    pub fn into_aggregate(self) -> (r: Option<KeyValues>)
        requires
            self.wf(),
        ensures
            match r {
                Some(kvs) => self@.finished && kvs.wf() && kvs@ == self@.aggregate,
                None => !self@.finished,
            },
    {
        if self.finished {
            Some(self.aggregate)
        } else {
            None
        }
    }
}

} // verus!
