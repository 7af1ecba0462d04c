//! The pagination engine: a cursor over `limit`/`offset` page requests that
//! accumulates entities until an empty page, an error, or a malformed body
//! stops it. The transport performs each request; the engine decides, and
//! every decision is pinned down here.
use vstd::prelude::*;
use vstd::string::StringExecFns;
use crate::json::JsonValue;
use crate::text::{comma_join, dec_str_of, join_comma, u64_to_string};

verus! {

/// What one page request came back with: a parsed body, an HTTP status
/// error with its body, or a transport failure with its message.
pub enum PageOutcome {
    Body(JsonValue),
    StatusError(u16, String),
    TransportError(String),
}

/// The entities a page outcome contributes: the elements of a body that is
/// a JSON array, and nothing otherwise.
pub open spec fn outcome_items(o: PageOutcome) -> Option<Seq<JsonValue>> {
    match o {
        PageOutcome::Body(JsonValue::Array(items)) => Option::Some(items@),
        _ => Option::None,
    }
}

/// The page size of every request.
pub const PAGE_LIMIT: u64 = 1000;

/// The abstract state of a fetch: the cursor, what has been accumulated,
/// and whether the fetch has stopped.
pub struct FetchState {
    pub offset: int,
    pub results: Seq<JsonValue>,
    pub done: bool,
}

impl FetchState {
    /// The state every fetch starts from.
    pub open spec fn init() -> FetchState {
        FetchState { offset: 0, results: Seq::empty(), done: false }
    }
}

/// One round of the fetch: the cursor advances by the page limit before the
/// outcome is interpreted, so it advances even when the round stops the
/// fetch. A non-empty page is appended and the fetch goes on; an empty
/// page, a non-array body, or any error stops it with what was gathered.
pub open spec fn fetch_step(st: FetchState, o: PageOutcome) -> FetchState {
    let advanced = st.offset + PAGE_LIMIT;
    match outcome_items(o) {
        Option::Some(items) => if items.len() == 0 {
            FetchState { offset: advanced, results: st.results, done: true }
        } else {
            FetchState { offset: advanced, results: st.results + items, done: false }
        },
        Option::None => FetchState { offset: advanced, results: st.results, done: true },
    }
}

/// A fetch run over a sequence of page outcomes: rounds are taken in order
/// until the state stops or the outcomes run out.
pub open spec fn fetch_run(st: FetchState, outcomes: Seq<PageOutcome>) -> FetchState
    decreases outcomes.len(),
{
    if st.done || outcomes.len() == 0 {
        st
    } else {
        fetch_run(fetch_step(st, outcomes.first()), outcomes.drop_first())
    }
}

/// The paginated fetch in progress. `params` is the query parameter list of
/// the next page request; its offset entry always renders the cursor.
pub struct Paginator {
    pub params: Vec<(String, String)>,
    pub offset: u64,
    pub results: Vec<JsonValue>,
    pub done: bool,
}

impl Paginator {
    /// The abstract state this fetch is in.
    pub open spec fn abs(self) -> FetchState {
        FetchState { offset: self.offset as int, results: self.results@, done: self.done }
    }

    /// The query parameter list is well formed: `limit` then `offset`, the
    /// offset entry rendering the cursor, and only filters after them.
    pub open spec fn wf(self) -> bool {
        &&& self.params@.len() >= 2
        &&& self.params@[0].0@ == "limit"@
        &&& self.params@[0].1@ == "1000"@
        &&& self.params@[1].0@ == "offset"@
        &&& self.params@[1].1@ == dec_str_of(self.offset as int)
    }

    /// Starts a fetch: cursor at zero, nothing accumulated, with the
    /// optional entity-type filter and the comma-joined attribute filter.
    pub fn new(type_filter: &Option<String>, attrs: &Option<Vec<String>>) -> (p: Paginator)
        ensures
            p.wf(),
            p.abs() == FetchState::init(),
            p.params@.len() == 2 + (match *type_filter {
                Option::Some(_) => 1int,
                Option::None => 0int,
            }) + (match *attrs {
                Option::Some(_) => 1int,
                Option::None => 0int,
            }),
            type_filter matches Option::Some(t) ==> p.params@[2].0@ == "type"@
                && p.params@[2].1@ == t@,
            attrs matches Option::Some(a) ==> {
                let i = p.params@.len() - 1;
                p.params@[i].0@ == "attrs"@ && p.params@[i].1@ == comma_join(
                    a@.map_values(|s: String| s@),
                )
            },
    {
        let mut params: Vec<(String, String)> = Vec::new();
        params.push((String::from_str("limit"), String::from_str("1000")));
        params.push((String::from_str("offset"), String::from_str("0")));
        match type_filter {
            Option::Some(t) => {
                params.push((String::from_str("type"), t.clone()));
            },
            Option::None => {},
        }
        match attrs {
            Option::Some(a) => {
                params.push((String::from_str("attrs"), join_comma(a)));
            },
            Option::None => {},
        }
        let p = Paginator { params, offset: 0, results: Vec::new(), done: false };
        proof {
            reveal_strlit("0");
            reveal_strlit("1000");
            assert(dec_str_of(0) =~= "0"@);
        }
        p
    }

    /// The parameters of the next page request.
    pub fn request_params(&self) -> (r: &Vec<(String, String)>)
        ensures
            r == &self.params,
    {
        &self.params
    }

    /// Interprets one page outcome: exactly one abstract fetch round. The
    /// returned flag says whether another page must be requested.
    pub fn step(&mut self, outcome: PageOutcome) -> (cont: bool)
        requires
            old(self).wf(),
            !old(self).done,
            old(self).offset <= u64::MAX - PAGE_LIMIT,
        ensures
            final(self).wf(),
            final(self).abs() == fetch_step(old(self).abs(), outcome),
            cont == !final(self).done,
            final(self).params@.len() == old(self).params@.len(),
            forall|i: int|
                2 <= i < final(self).params@.len() ==> final(self).params@[i]
                    == old(self).params@[i],
    {
        self.offset = self.offset + PAGE_LIMIT;
        let offset_text = u64_to_string(self.offset);
        let offset_entry = self.params.remove(1);
        self.params.insert(1, (offset_entry.0, offset_text));
        match outcome {
            PageOutcome::Body(v) => match v {
                JsonValue::Array(mut items) => {
                    if items.len() == 0 {
                        self.done = true;
                        false
                    } else {
                        self.results.append(&mut items);
                        true
                    }
                },
                _ => {
                    self.done = true;
                    false
                },
            },
            _ => {
                self.done = true;
                false
            },
        }
    }

    /// Hands the accumulated entities out; the fetch is over.
    pub fn into_results(self) -> (r: Vec<JsonValue>)
        ensures
            r@ == self.results@,
    {
        self.results
    }
}

/// The entities contributed by the first `n` page outcomes together.
pub open spec fn pages_concat(outcomes: Seq<PageOutcome>, n: int) -> Seq<JsonValue>
    decreases n,
{
    if n <= 0 || n > outcomes.len() {
        Seq::empty()
    } else {
        pages_concat(outcomes, n - 1) + (match outcome_items(outcomes[n - 1]) {
            Option::Some(items) => items,
            Option::None => Seq::empty(),
        })
    }
}

/// A page outcome that contributes at least one entity.
pub open spec fn nonempty_page(o: PageOutcome) -> bool {
    match outcome_items(o) {
        Option::Some(items) => items.len() > 0,
        Option::None => false,
    }
}

/// A page outcome that contributes exactly the page limit of entities.
pub open spec fn full_page(o: PageOutcome) -> bool {
    match outcome_items(o) {
        Option::Some(items) => items.len() == 1000,
        Option::None => false,
    }
}

/// Appending one more outcome to a run takes one more round, unless the
/// run had already stopped.
proof fn lemma_run_snoc(st: FetchState, outcomes: Seq<PageOutcome>, o: PageOutcome)
    ensures
        fetch_run(st, outcomes.push(o)) == (if fetch_run(st, outcomes).done {
            fetch_run(st, outcomes)
        } else {
            fetch_step(fetch_run(st, outcomes), o)
        }),
    decreases outcomes.len(),
{
    if st.done {
        assert(fetch_run(st, outcomes.push(o)) == st);
        assert(fetch_run(st, outcomes) == st);
    } else if outcomes.len() == 0 {
        assert(outcomes.push(o).first() == o);
        assert(outcomes.push(o).drop_first() =~= Seq::<PageOutcome>::empty());
        assert(fetch_run(st, outcomes.push(o)) == fetch_run(
            fetch_step(st, o),
            outcomes.push(o).drop_first(),
        ));
        assert(fetch_run(st, outcomes.push(o)) == fetch_step(st, o));
        assert(fetch_run(st, outcomes) == st);
    } else {
        assert(outcomes.push(o).first() == outcomes.first());
        assert(outcomes.push(o).drop_first() =~= outcomes.drop_first().push(o));
        lemma_run_snoc(fetch_step(st, outcomes.first()), outcomes.drop_first(), o);
    }
}

/// A run is the run of any prefix, continued over the rest.
proof fn lemma_run_split(st: FetchState, outcomes: Seq<PageOutcome>, m: int)
    requires
        0 <= m <= outcomes.len(),
    ensures
        fetch_run(st, outcomes) == fetch_run(fetch_run(st, outcomes.take(m)), outcomes.skip(m)),
    decreases m,
{
    if m == 0 {
        assert(outcomes.take(0) =~= Seq::<PageOutcome>::empty());
        assert(outcomes.skip(0) =~= outcomes);
    } else if st.done {
    } else {
        assert(outcomes.take(m).first() == outcomes.first());
        assert(outcomes.take(m).drop_first() =~= outcomes.drop_first().take(m - 1));
        assert(outcomes.skip(m) =~= outcomes.drop_first().skip(m - 1));
        lemma_run_split(fetch_step(st, outcomes.first()), outcomes.drop_first(), m - 1);
    }
}

/// Over rounds that all return non-empty pages, the fetch never stops, the
/// cursor advances by the page limit each round, and the results are the
/// concatenation of the pages in order.
proof fn lemma_nonempty_prefix(st: FetchState, outcomes: Seq<PageOutcome>, m: int, j: int)
    requires
        !st.done,
        0 <= j <= m <= outcomes.len(),
        forall|i: int| 0 <= i < m ==> nonempty_page(#[trigger] outcomes[i]),
    ensures
        !fetch_run(st, outcomes.take(j)).done,
        fetch_run(st, outcomes.take(j)).offset == st.offset + 1000 * j,
        fetch_run(st, outcomes.take(j)).results == st.results + pages_concat(outcomes, j),
    decreases j,
{
    if j == 0 {
        assert(outcomes.take(0) =~= Seq::<PageOutcome>::empty());
        assert(st.results + pages_concat(outcomes, 0) =~= st.results);
    } else {
        lemma_nonempty_prefix(st, outcomes, m, j - 1);
        assert(outcomes.take(j) =~= outcomes.take(j - 1).push(outcomes[j - 1]));
        lemma_run_snoc(st, outcomes.take(j - 1), outcomes[j - 1]);
        let items = outcome_items(outcomes[j - 1]).unwrap();
        assert(st.results + pages_concat(outcomes, j - 1) + items =~= st.results
            + pages_concat(outcomes, j));
    }
}

/// The total size of `n` pages of the full page limit each.
proof fn lemma_pages_concat_len_full(outcomes: Seq<PageOutcome>, n: int)
    requires
        0 <= n <= outcomes.len(),
        forall|i: int| 0 <= i < n ==> full_page(#[trigger] outcomes[i]),
    ensures
        pages_concat(outcomes, n).len() == 1000 * n,
    decreases n,
{
    if n > 0 {
        lemma_pages_concat_len_full(outcomes, n - 1);
    }
}

/// Pagination termination: against a backend that returns `k` full pages of
/// the page limit and then an empty page, the fetch takes exactly `k + 1`
/// rounds — each entered with the fetch still running and the cursor at
/// `1000 * j` — stops on the empty page, and accumulates `1000 * k`
/// entities, the pages concatenated in order.
pub proof fn lemma_pagination_termination(outcomes: Seq<PageOutcome>, k: int)
    requires
        0 <= k,
        outcomes.len() == k + 1,
        forall|i: int| 0 <= i < k ==> full_page(#[trigger] outcomes[i]),
        outcome_items(outcomes[k]) == Option::Some(Seq::<JsonValue>::empty()),
    ensures
        fetch_run(FetchState::init(), outcomes).done,
        fetch_run(FetchState::init(), outcomes).results == pages_concat(outcomes, k),
        fetch_run(FetchState::init(), outcomes).results.len() == 1000 * k,
        fetch_run(FetchState::init(), outcomes).offset == 1000 * (k + 1),
        forall|j: int| 0 <= j <= k ==> !fetch_run(FetchState::init(), outcomes.take(j)).done,
        forall|j: int|
            0 <= j <= k ==> fetch_run(FetchState::init(), outcomes.take(j)).offset == 1000 * j,
{
    let st = FetchState::init();
    assert forall|j: int| 0 <= j <= k implies !fetch_run(st, outcomes.take(j)).done
        && fetch_run(st, outcomes.take(j)).offset == 1000 * j by {
        lemma_nonempty_prefix(st, outcomes, k, j);
    }
    lemma_nonempty_prefix(st, outcomes, k, k);
    assert(outcomes.take(k + 1) =~= outcomes.take(k).push(outcomes[k]));
    lemma_run_snoc(st, outcomes.take(k), outcomes[k]);
    assert(outcomes.take(k + 1) =~= outcomes);
    lemma_pages_concat_len_full(outcomes, k);
    assert(st.results + pages_concat(outcomes, k) =~= pages_concat(outcomes, k));
}

/// Partial fetch on error: when the first `j - 1` rounds return non-empty
/// pages and round `j` (1-indexed) fails — a transport error, a status
/// error, or a body that is not an array — the fetch stops at round `j`
/// with exactly the entities of rounds `1 .. j`, and no later outcome is
/// ever consumed.
pub proof fn lemma_partial_fetch_on_error(outcomes: Seq<PageOutcome>, j: int)
    requires
        1 <= j <= outcomes.len(),
        forall|i: int| 0 <= i < j - 1 ==> nonempty_page(#[trigger] outcomes[i]),
        outcome_items(outcomes[j - 1]) is None,
    ensures
        fetch_run(FetchState::init(), outcomes).done,
        fetch_run(FetchState::init(), outcomes) == fetch_run(
            FetchState::init(),
            outcomes.take(j),
        ),
        fetch_run(FetchState::init(), outcomes).results == pages_concat(outcomes, j - 1),
        forall|i: int| 0 <= i < j ==> !fetch_run(FetchState::init(), outcomes.take(i)).done,
{
    let st = FetchState::init();
    assert forall|i: int| 0 <= i < j implies !fetch_run(st, outcomes.take(i)).done by {
        lemma_nonempty_prefix(st, outcomes, j - 1, i);
    }
    lemma_nonempty_prefix(st, outcomes, j - 1, j - 1);
    assert(outcomes.take(j) =~= outcomes.take(j - 1).push(outcomes[j - 1]));
    lemma_run_snoc(st, outcomes.take(j - 1), outcomes[j - 1]);
    lemma_run_split(st, outcomes, j);
    assert(st.results + pages_concat(outcomes, j - 1) =~= pages_concat(outcomes, j - 1));
}

} // verus!
