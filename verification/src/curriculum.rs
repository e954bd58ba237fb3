//! The curriculum search: a question is sent once it is not blank and no other search is
//! under way, and the answer (or the error) becomes the list of results.
use vstd::prelude::*;
use vstd::string::StringExecFns;
use crate::json::{
    Json, JsonView, field_of, items_under, items_view, lemma_items_view, lemma_member_at, lemma_members_view,
    members_view, number_u64, text_field,
};
use crate::text::{chars_of, string_of, trim, trim_chars};

verus! {

/// A passage of the curriculum that a search found: its text, its source document, its
/// level and subject, and its relevance.
pub struct SearchItem {
    pub text: String,
    pub source: String,
    pub level: String,
    pub subject: String,
    pub score: u64,
}

/// The contents of a found passage.
pub struct ItemView {
    pub text: Seq<char>,
    pub source: Seq<char>,
    pub level: Seq<char>,
    pub subject: Seq<char>,
    pub score: u64,
}

impl View for SearchItem {
    type V = ItemView;

    open spec fn view(&self) -> ItemView {
        ItemView {
            text: self.text@,
            source: self.source@,
            level: self.level@,
            subject: self.subject@,
            score: self.score,
        }
    }
}

/// The state of the search box: the question being typed, whether a search is under way,
/// whether any search was made, and the results shown.
pub struct CurriculumSearch {
    pub query: String,
    pub loading: bool,
    pub searched: bool,
    pub results: Vec<SearchItem>,
}

/// The contents of the search box's state.
pub struct SearchView {
    pub query: Seq<char>,
    pub loading: bool,
    pub searched: bool,
    pub results: Seq<ItemView>,
}

/// The contents of a sequence of passages.
pub open spec fn results_view(v: Seq<SearchItem>) -> Seq<ItemView> {
    v.map_values(|i: SearchItem| i@)
}

impl View for CurriculumSearch {
    type V = SearchView;

    open spec fn view(&self) -> SearchView {
        SearchView {
            query: self.query@,
            loading: self.loading,
            searched: self.searched,
            results: results_view(self.results@),
        }
    }
}

/// The body that asks for the ten passages most relevant to question `q`.
pub open spec fn search_body(q: Seq<char>) -> JsonView {
    JsonView::Object(seq![("q"@, JsonView::Str(q)), ("limit"@, JsonView::Number("10"@))])
}

/// Whether submitting in state `s` sends a search: the question is not blank and no
/// search is under way.
pub open spec fn sends_search(s: SearchView) -> bool {
    trim(s.query).len() > 0 && !s.loading
}

/// What submitting in state `s` sends: the trimmed question, when it sends anything.
pub open spec fn submit_request(s: SearchView) -> Option<JsonView> {
    if sends_search(s) {
        Some(search_body(trim(s.query)))
    } else {
        None
    }
}

/// The state after submitting in state `s`: when a search is sent, the box is emptied and
/// waits for the answer; otherwise nothing changes.
pub open spec fn after_submit(s: SearchView) -> SearchView {
    if sends_search(s) {
        SearchView { query: Seq::empty(), loading: true, searched: true, results: s.results }
    } else {
        s
    }
}

/// A passage of the answer: its texts (empty when missing) and its relevance (0 unless it
/// is a natural number).
pub open spec fn answer_item(v: JsonView) -> ItemView {
    ItemView {
        text: crate::json::text_or_empty(v, "text"@),
        source: crate::json::text_or_empty(v, "fuente"@),
        level: crate::json::text_or_empty(v, "nivel"@),
        subject: crate::json::text_or_empty(v, "asignatura"@),
        score: match field_of(v, "score"@) {
            Some(n) => match number_u64(n) {
                Some(x) => x,
                None => 0,
            },
            None => 0,
        },
    }
}

/// The passage that reports a failed search.
pub open spec fn error_item(e: Seq<char>) -> ItemView {
    ItemView {
        text: "Error al buscar: "@ + e,
        source: Seq::empty(),
        level: Seq::empty(),
        subject: Seq::empty(),
        score: 0,
    }
}

/// The results a search ends with: the passages of its `results` array (none when the
/// answer has no such array), or a single passage that reports the error.
pub open spec fn answer_results(resp: Result<JsonView, Seq<char>>) -> Seq<ItemView> {
    match resp {
        Ok(d) => match items_under(d, "results"@) {
            Some(xs) => xs.map_values(|x: JsonView| answer_item(x)),
            None => Seq::empty(),
        },
        Err(e) => seq![error_item(e)],
    }
}

/// The state once the answer `resp` has arrived: no search is under way and the results
/// are the answer's.
pub open spec fn after_answer(s: SearchView, resp: Result<JsonView, Seq<char>>) -> SearchView {
    SearchView { query: s.query, loading: false, searched: s.searched, results: answer_results(resp) }
}

/// The search box as the page opens.
pub fn new_search() -> (r: CurriculumSearch)
    ensures
        r@ == (SearchView { query: Seq::empty(), loading: false, searched: false, results: Seq::empty() }),
{
    let r = CurriculumSearch { query: String::new(), loading: false, searched: false, results: Vec::new() };
    assert(results_view(r.results@) =~= Seq::<ItemView>::empty());
    r
}

/// A search asks what was typed: read back, its body gives the question under `q` and
/// asks for ten passages under `limit`.
pub proof fn search_body_reads_back(q: Seq<char>)
    ensures
        field_of(search_body(q), "q"@) == Some(JsonView::Str(q)),
        field_of(search_body(q), "limit"@) == Some(JsonView::Number("10"@)),
{
    reveal_strlit("q");
    reveal_strlit("limit");
    let ms = seq![("q"@, JsonView::Str(q)), ("limit"@, JsonView::Number("10"@))];
    assert(ms[0].0 != ms[1].0) by {
        assert(ms[0].0.len() != ms[1].0.len());
    }
    lemma_member_at(ms, 0);
    lemma_member_at(ms, 1);
}

/// Submits the question: returns the body of the search to send, if one is sent.
pub fn submit_search(state: &mut CurriculumSearch) -> (r: Option<Json>)
    ensures
        final(state)@ == after_submit(old(state)@),
        match r {
            Some(b) => submit_request(old(state)@) == Some(b@),
            None => submit_request(old(state)@) is None,
        },
        r is Some <==> (trim(old(state)@.query).len() > 0 && !old(state)@.loading),
        r matches Some(b) ==> field_of(b@, "q"@) == Some(JsonView::Str(trim(old(state)@.query))),
        r matches Some(b) ==> field_of(b@, "limit"@) == Some(JsonView::Number("10"@)),
{
    proof {
        search_body_reads_back(trim(old(state)@.query));
    }
    let q = trim_chars(&chars_of(state.query.as_str()));
    if q.len() == 0 || state.loading {
        return None;
    }
    let question = string_of(q.as_slice());
    state.query = String::new();
    state.loading = true;
    state.searched = true;
    let mut ms: Vec<(String, Json)> = Vec::new();
    ms.push((String::from_str("q"), Json::Str(question)));
    ms.push((String::from_str("limit"), Json::Number(String::from_str("10"))));
    let ghost mv = ms@;
    proof {
        lemma_members_view(mv);
    }
    assert(members_view(mv) =~~= seq![
        ("q"@, JsonView::Str(trim(old(state)@.query))),
        ("limit"@, JsonView::Number("10"@)),
    ]);
    Some(Json::Object(ms))
}

/// The passage of one item of the answer.
fn item_of(v: &Json) -> (r: SearchItem)
    ensures
        r@ == answer_item(v@),
{
    let score = match v.get("score") {
        Some(n) => match n.as_u64() {
            Some(x) => x,
            None => 0,
        },
        None => 0,
    };
    SearchItem {
        text: text_field(v, "text"),
        source: text_field(v, "fuente"),
        level: text_field(v, "nivel"),
        subject: text_field(v, "asignatura"),
        score,
    }
}

/// Takes in the answer of the search under way.
pub fn receive_answer(state: &mut CurriculumSearch, resp: &Result<Json, String>)
    ensures
        final(state)@ == after_answer(
            old(state)@,
            match resp {
                Ok(d) => Ok(d@),
                Err(e) => Err(e@),
            },
        ),
{
    let mut items: Vec<SearchItem> = Vec::new();
    match resp {
        Ok(d) => match d.get("results") {
            Some(Json::Array(xs)) => {
                proof {
                    lemma_items_view(xs@);
                }
                let mut i: usize = 0;
                while i < xs.len()
                    invariant
                        items_view(xs@) == xs@.map_values(|j: Json| j@),
                        i <= xs@.len(),
                        items@.len() == i,
                        forall|k: int| 0 <= k < i ==> (#[trigger] items@[k])@ == answer_item(xs@[k]@),
                    decreases xs@.len() - i,
                {
                    items.push(item_of(&xs[i]));
                    i = i + 1;
                }
                assert(results_view(items@) =~= items_view(xs@).map_values(|x: JsonView| answer_item(x)));
            },
            _ => {
                assert(results_view(items@) =~= Seq::<ItemView>::empty());
            },
        },
        Err(e) => {
            let mut text = String::from_str("Error al buscar: ");
            text.append(e.as_str());
            items.push(
                SearchItem {
                    text,
                    source: String::new(),
                    level: String::new(),
                    subject: String::new(),
                    score: 0,
                },
            );
            assert(results_view(items@) =~= seq![error_item(e@)]);
        },
    }
    state.loading = false;
    state.results = items;
}

/// One search at a time: once a search is sent, submitting again sends nothing until its
/// answer has arrived; after the answer, a question that is not blank is sent again.
pub proof fn one_search_at_a_time(s: SearchView, resp: Result<JsonView, Seq<char>>, next_query: Seq<char>)
    ensures
        submit_request(s) is Some ==> submit_request(after_submit(s)) is None,
        !after_answer(after_submit(s), resp).loading,
        trim(next_query).len() > 0 ==> submit_request(
            SearchView { query: next_query, ..after_answer(after_submit(s), resp) },
        ) == Some(search_body(trim(next_query))),
{
}

} // verus!
