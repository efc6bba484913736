//! Listing of the names of the equipment pages, page of results by page of
//! results, within a bound on the number of requests.
//!
//! The listing is a state machine. `Listing::start` gives the first
//! request; each reply is handed to `Listing::step`, which gives the next
//! request, the finished list, or the error that ends the listing.

use vstd::prelude::*;
use vstd::string::StringExecFns;
use vstd::utf8::encode_utf8;
use crate::json::{
    json_is_null, json_member, json_reading, json_text, json_values, parse_json, value_tree,
    JsonTree,
};
use crate::text::{decimal, decimal_chars, push_text, string_of, texts};
use crate::wiki::{listing_query, listing_request, reply_view};

verus! {

/// The bound on the number of requests of a listing where nothing else is
/// asked for: a listing that takes more is taken to have gone wrong.
pub const DEFAULT_BOUND: usize = 999;

/// Why a listing ended without a list.
pub enum ListingError {
    /// A request failed; the text is the transport's.
    Transport(String),
    /// A reply was no JSON document; the text is the decoder's.
    Decode(String),
    /// A reply holds no `query`.
    MissingQuery,
    /// The `query` of a reply holds no object `pages`.
    MissingPages,
    /// A page of a reply has no title.
    MissingTitle,
    /// A reply says that more follows, but not from where.
    MissingContinuation,
    /// The bound on the number of requests, which is given, was reached
    /// before the wiki said that the list was complete.
    Exhausted(usize),
}

/// What a `ListingError` stands for.
pub ghost enum ListingErrorView {
    Transport(Seq<char>),
    Decode(Seq<char>),
    MissingQuery,
    MissingPages,
    MissingTitle,
    MissingContinuation,
    Exhausted(nat),
}

impl View for ListingError {
    type V = ListingErrorView;

    open spec fn view(&self) -> ListingErrorView {
        match self {
            ListingError::Transport(detail) => ListingErrorView::Transport(detail@),
            ListingError::Decode(detail) => ListingErrorView::Decode(detail@),
            ListingError::MissingQuery => ListingErrorView::MissingQuery,
            ListingError::MissingPages => ListingErrorView::MissingPages,
            ListingError::MissingTitle => ListingErrorView::MissingTitle,
            ListingError::MissingContinuation => ListingErrorView::MissingContinuation,
            ListingError::Exhausted(bound) => ListingErrorView::Exhausted(*bound as nat),
        }
    }
}

/// The text that tells the user why the listing ended.
pub open spec fn listing_error_text(e: ListingErrorView) -> Seq<char> {
    match e {
        ListingErrorView::Transport(detail) => "Error fetching data: Request failed: "@ + detail,
        ListingErrorView::Decode(detail) => "Error fetching data: Failed to decode reply as JSON: "@
            + detail,
        ListingErrorView::MissingQuery => "Query data missing from JSON response"@,
        ListingErrorView::MissingPages => "pages missing from query in JSON response"@,
        ListingErrorView::MissingTitle => "page title missing from page in JSON response"@,
        ListingErrorView::MissingContinuation => "Continue name missing, api broken?"@,
        ListingErrorView::Exhausted(bound) => "Too many requests, page listing incomplete after "@
            + decimal(bound) + " requests."@,
    }
}

impl ListingError {
    /// The text that tells the user why the listing ended.
    pub fn message(&self) -> (text: String)
        ensures
            text@ == listing_error_text(self@),
    {
        match self {
            ListingError::Transport(detail) => {
                "Error fetching data: Request failed: ".to_owned().concat(detail.as_str())
            },
            ListingError::Decode(detail) => {
                "Error fetching data: Failed to decode reply as JSON: ".to_owned().concat(
                    detail.as_str(),
                )
            },
            ListingError::MissingQuery => "Query data missing from JSON response".to_owned(),
            ListingError::MissingPages => "pages missing from query in JSON response".to_owned(),
            ListingError::MissingTitle => {
                "page title missing from page in JSON response".to_owned()
            },
            ListingError::MissingContinuation => "Continue name missing, api broken?".to_owned(),
            ListingError::Exhausted(bound) => {
                let digits = decimal_chars(*bound as u64);
                let number = string_of(&digits);
                "Too many requests, page listing incomplete after ".to_owned().concat(
                    number.as_str(),
                ).concat(" requests.")
            },
        }
    }
}

/// One page of results: the names it lists, and from where the next page
/// goes on, if there is a next page.
pub struct ListingPage {
    pub titles: Vec<String>,
    pub next: Option<String>,
}

/// What a `ListingPage` stands for.
pub ghost struct ListingPageView {
    pub titles: Seq<Seq<char>>,
    pub next: Option<Seq<char>>,
}

impl View for ListingPage {
    type V = ListingPageView;

    open spec fn view(&self) -> ListingPageView {
        ListingPageView {
            titles: texts(self.titles@),
            next: match self.next {
                Some(t) => Some(t@),
                None => None,
            },
        }
    }
}

/// The titles that the first `n` of `pages` list, or `None` if one of them
/// has no title. A title that is no longer than `prefix_len` bytes is the
/// prefix itself and is left out.
pub open spec fn listed_titles(
    pages: Seq<(Seq<char>, JsonTree)>,
    prefix_len: nat,
    n: int,
) -> Option<Seq<Seq<char>>>
    decreases n,
{
    if n <= 0 {
        Some(Seq::empty())
    } else {
        match listed_titles(pages, prefix_len, n - 1) {
            None => None,
            Some(titles) => match pages[n - 1].1.member("title"@).text() {
                None => None,
                Some(title) => if encode_utf8(title).len() > prefix_len {
                    Some(titles.push(title))
                } else {
                    Some(titles)
                },
            },
        }
    }
}

/// Once a page without a title has been met, the pages after it do not
/// mend the reply.
pub proof fn lemma_listed_titles_stay_missing(
    pages: Seq<(Seq<char>, JsonTree)>,
    prefix_len: nat,
    n: int,
    m: int,
)
    requires
        n <= m,
        listed_titles(pages, prefix_len, n) is None,
    ensures
        listed_titles(pages, prefix_len, m) is None,
    decreases m - n,
{
    if n < m {
        lemma_listed_titles_stay_missing(pages, prefix_len, n, m - 1);
    }
}

/// What the reply `json` to a listing query holds, for names that begin
/// with `prefix`.
pub open spec fn listing_page(json: JsonTree, prefix: Seq<char>) -> Result<
    ListingPageView,
    ListingErrorView,
> {
    let query = json.member("query"@);
    if query is Null {
        Err(ListingErrorView::MissingQuery)
    } else {
        match query.member("pages"@) {
            JsonTree::Object(pages) => match listed_titles(
                pages,
                encode_utf8(prefix).len(),
                pages.len() as int,
            ) {
                None => Err(ListingErrorView::MissingTitle),
                Some(titles) => {
                    let more = json.member("continue"@);
                    if more is Null {
                        Ok(ListingPageView { titles, next: None })
                    } else {
                        match more.member("gapcontinue"@).text() {
                            Some(token) => Ok(ListingPageView { titles, next: Some(token) }),
                            None => Err(ListingErrorView::MissingContinuation),
                        }
                    }
                },
            },
            _ => Err(ListingErrorView::MissingPages),
        }
    }
}

/// What a decoded page or its error stands for.
pub open spec fn page_view(page: Result<ListingPage, ListingError>) -> Result<
    ListingPageView,
    ListingErrorView,
> {
    match page {
        Ok(p) => Ok(p@),
        Err(e) => Err(e@),
    }
}

/// Reads the reply `json` to a listing query for names that begin with
/// `prefix`.
///
/// The names are the titles of the members of `query.pages`, in order,
/// without the prefix page itself. The listing goes on where the reply
/// has a `continue`, from its `gapcontinue`.
pub fn decode_listing_page(json: &serde_json::Value, prefix: &str) -> (r: Result<
    ListingPage,
    ListingError,
>)
    ensures
        page_view(r) == listing_page(value_tree(*json), prefix@),
{
    let query = json_member(json, "query");
    if json_is_null(query) {
        return Err(ListingError::MissingQuery);
    }
    let pages = match json_values(json_member(query, "pages")) {
        Some(pages) => pages,
        None => {
            return Err(ListingError::MissingPages);
        },
    };
    let ghost all = value_tree(*query).member("pages"@)->Object_0;
    let prefix_len = prefix.as_bytes().len();
    let mut titles: Vec<String> = Vec::new();
    let mut i: usize = 0;
    assert(texts(titles@) =~= Seq::<Seq<char>>::empty());
    while i < pages.len()
        invariant
            i <= pages@.len(),
            all.len() == pages@.len(),
            prefix_len == encode_utf8(prefix@).len(),
            value_tree(*json).member("query"@) == value_tree(*query),
            !(value_tree(*query) is Null),
            value_tree(*query).member("pages"@) == JsonTree::Object(all),
            forall|k: int| 0 <= k < pages@.len() ==> value_tree(*#[trigger] pages@[k]) == all[k].1,
            listed_titles(all, prefix_len as nat, i as int) == Some(texts(titles@)),
        decreases pages@.len() - i,
    {
        let ghost before = texts(titles@);
        assert(value_tree(*pages@[i as int]) == all[i as int].1);
        match json_text(json_member(pages[i], "title")) {
            Some(title) => {
                if title.as_str().as_bytes().len() > prefix_len {
                    let ghost text = title@;
                    titles.push(title);
                    assert(texts(titles@) =~= before.push(text));
                }
            },
            None => {
                proof {
                    lemma_listed_titles_stay_missing(
                        all,
                        prefix_len as nat,
                        i + 1,
                        all.len() as int,
                    );
                }
                return Err(ListingError::MissingTitle);
            },
        }
        i += 1;
    }
    let more = json_member(json, "continue");
    let next = if json_is_null(more) {
        None
    } else {
        match json_text(json_member(more, "gapcontinue")) {
            Some(token) => Some(token),
            None => {
                return Err(ListingError::MissingContinuation);
            },
        }
    };
    Ok(ListingPage { titles, next })
}

/// `names`, each on a line of its own: joined by line feeds.
pub open spec fn joined_lines(names: Seq<Seq<char>>) -> Seq<char>
    decreases names.len(),
{
    if names.len() == 0 {
        Seq::empty()
    } else if names.len() == 1 {
        names[0]
    } else {
        joined_lines(names.drop_last()) + seq!['\n'] + names.last()
    }
}

/// Joins `names` by line feeds.
pub fn join_lines(names: &Vec<String>) -> (r: String)
    ensures
        r@ == joined_lines(texts(names@)),
{
    let mut out: Vec<char> = Vec::new();
    let mut i: usize = 0;
    while i < names.len()
        invariant
            i <= names@.len(),
            out@ == joined_lines(texts(names@).take(i as int)),
        decreases names@.len() - i,
    {
        let ghost seen = texts(names@).take(i as int);
        let ghost next = texts(names@).take(i + 1);
        assert(next.drop_last() == seen);
        assert(next.last() == names@[i as int]@);
        if i > 0 {
            out.push('\n');
        }
        push_text(&mut out, names[i].as_str());
        assert(out@ == joined_lines(next)) by {
            if i > 0 {
                assert(out@ == joined_lines(seen) + seq!['\n'] + names@[i as int]@);
            } else {
                assert(joined_lines(seen) == Seq::<char>::empty());
                assert(out@ == names@[i as int]@);
            }
        }
        i += 1;
    }
    assert(texts(names@).take(names@.len() as int) == texts(names@));
    string_of(&out)
}

/// What the machine asks for next, or how the listing ended.
pub enum ListingStep {
    /// Send this query and hand the reply to `step`.
    Fetch(String),
    /// The list is complete: the names, each on a line of its own.
    Done(String),
    /// The listing failed.
    Failed(ListingError),
}

/// What a `ListingStep` stands for.
pub ghost enum ListingStepView {
    Fetch(Seq<char>),
    Done(Seq<char>),
    Failed(ListingErrorView),
}

impl View for ListingStep {
    type V = ListingStepView;

    open spec fn view(&self) -> ListingStepView {
        match self {
            ListingStep::Fetch(query) => ListingStepView::Fetch(query@),
            ListingStep::Done(names) => ListingStepView::Done(names@),
            ListingStep::Failed(e) => ListingStepView::Failed(e@),
        }
    }
}

/// The state of a listing.
pub struct Listing {
    prefix: String,
    bound: usize,
    requests: usize,
    names: Vec<String>,
}

/// What a `Listing` stands for: the prefix of the names asked for, the
/// bound on the number of requests, the number of requests made so far, and
/// the names listed so far.
pub ghost struct ListingView {
    pub prefix: Seq<char>,
    pub bound: nat,
    pub requests: nat,
    pub names: Seq<Seq<char>>,
}

impl View for Listing {
    type V = ListingView;

    closed spec fn view(&self) -> ListingView {
        ListingView {
            prefix: self.prefix@,
            bound: self.bound as nat,
            requests: self.requests as nat,
            names: texts(self.names@),
        }
    }
}

/// The state in which a listing of the names that begin with `prefix`
/// starts, and its first step: the first request, or, with a bound of no
/// requests at all, the failure.
pub open spec fn listing_started(prefix: Seq<char>, bound: nat) -> (ListingView, ListingStepView) {
    if bound == 0 {
        (
            ListingView { prefix, bound, requests: 0, names: Seq::empty() },
            ListingStepView::Failed(ListingErrorView::Exhausted(0)),
        )
    } else {
        (
            ListingView { prefix, bound, requests: 1, names: Seq::empty() },
            ListingStepView::Fetch(listing_query(prefix, None)),
        )
    }
}

/// The state and the step after the reply to the last request was read as
/// `page`.
///
/// An error ends the listing. A page adds its names; a page without a next
/// page completes the list; a page with a next page asks for it, unless the
/// requests made have reached the bound, which ends the listing as
/// exhausted.
pub open spec fn listing_after(
    state: ListingView,
    page: Result<ListingPageView, ListingErrorView>,
) -> (ListingView, ListingStepView) {
    match page {
        Err(e) => (state, ListingStepView::Failed(e)),
        Ok(p) => {
            let names = state.names + p.titles;
            match p.next {
                None => (
                    ListingView { names, ..state },
                    ListingStepView::Done(joined_lines(names)),
                ),
                Some(token) => if state.requests >= state.bound {
                    (
                        ListingView { names, ..state },
                        ListingStepView::Failed(ListingErrorView::Exhausted(state.bound)),
                    )
                } else {
                    (
                        ListingView { names, requests: state.requests + 1, ..state },
                        ListingStepView::Fetch(listing_query(state.prefix, Some(token))),
                    )
                },
            }
        },
    }
}

/// What the reply to a listing query holds, given what fetching gave: the
/// body of the reply, or the transport's error.
pub open spec fn listing_reply(reply: Result<Seq<char>, Seq<char>>, prefix: Seq<char>) -> Result<
    ListingPageView,
    ListingErrorView,
> {
    match reply {
        Err(detail) => Err(ListingErrorView::Transport(detail)),
        Ok(body) => match json_reading(body) {
            Err(message) => Err(ListingErrorView::Decode(message)),
            Ok(json) => listing_page(json, prefix),
        },
    }
}

impl Listing {
    /// Starts a listing of the names that begin with `prefix`, with at most
    /// `bound` requests.
    pub fn start(prefix: &str, bound: usize) -> (r: (Listing, ListingStep))
        ensures
            (r.0@, r.1@) == listing_started(prefix@, bound as nat),
    {
        if bound == 0 {
            let listing = Listing {
                prefix: prefix.to_owned(),
                bound,
                requests: 0,
                names: Vec::new(),
            };
            assert(texts(listing.names@) =~= Seq::<Seq<char>>::empty());
            (listing, ListingStep::Failed(ListingError::Exhausted(0)))
        } else {
            let listing = Listing {
                prefix: prefix.to_owned(),
                bound,
                requests: 1,
                names: Vec::new(),
            };
            assert(texts(listing.names@) =~= Seq::<Seq<char>>::empty());
            (listing, ListingStep::Fetch(listing_request(prefix, None)))
        }
    }

    /// The number of requests that the machine has asked for so far.
    pub fn requests(&self) -> (n: usize)
        ensures
            n == self@.requests,
    {
        self.requests
    }

    /// Takes the page `page` that the reply to the last request held, or
    /// the error that it was, and says what comes next.
    pub fn advance(&mut self, page: Result<ListingPage, ListingError>) -> (r: ListingStep)
        ensures
            (final(self)@, r@) == listing_after(old(self)@, page_view(page)),
    {
        let page = match page {
            Ok(page) => page,
            Err(e) => {
                return ListingStep::Failed(e);
            },
        };
        let ghost before = texts(self.names@);
        let mut i: usize = 0;
        while i < page.titles.len()
            invariant
                i <= page.titles@.len(),
                self.prefix == old(self).prefix,
                self.bound == old(self).bound,
                self.requests == old(self).requests,
                texts(self.names@) == before + texts(page.titles@).take(i as int),
            decreases page.titles@.len() - i,
        {
            let ghost sofar = texts(self.names@);
            self.names.push(page.titles[i].clone());
            assert(texts(self.names@) =~= sofar.push(page.titles@[i as int]@));
            assert(texts(page.titles@).take(i + 1) =~= texts(page.titles@).take(i as int).push(
                page.titles@[i as int]@,
            ));
            i += 1;
        }
        assert(texts(page.titles@).take(page.titles@.len() as int) == texts(page.titles@));
        match page.next {
            None => ListingStep::Done(join_lines(&self.names)),
            Some(token) => {
                if self.requests >= self.bound {
                    ListingStep::Failed(ListingError::Exhausted(self.bound))
                } else {
                    self.requests = self.requests + 1;
                    ListingStep::Fetch(listing_request(self.prefix.as_str(), Some(token.as_str())))
                }
            },
        }
    }

    /// Takes what fetching the last request gave, the body of the reply or
    /// the transport's error, and says what comes next.
    pub fn step(&mut self, reply: Result<String, String>) -> (r: ListingStep)
        ensures
            (final(self)@, r@) == listing_after(
                old(self)@,
                listing_reply(reply_view(reply), old(self)@.prefix),
            ),
    {
        let page = match reply {
            Err(detail) => Err(ListingError::Transport(detail)),
            Ok(body) => match parse_json(body.as_str()) {
                Err(message) => Err(ListingError::Decode(message)),
                Ok(json) => decode_listing_page(&json, self.prefix.as_str()),
            },
        };
        self.advance(page)
    }
}

/// The state and the last step of a listing that started in `state` with
/// the step `step` and was then handed `pages` one by one, for as long as
/// it asked for more.
pub open spec fn listing_fed(
    state: ListingView,
    step: ListingStepView,
    pages: Seq<ListingPageView>,
) -> (ListingView, ListingStepView)
    decreases pages.len(),
{
    if pages.len() == 0 {
        (state, step)
    } else {
        let (s, last) = listing_fed(state, step, pages.drop_last());
        if last is Fetch {
            listing_after(s, Ok(pages.last()))
        } else {
            (s, last)
        }
    }
}

/// A wiki that never says that the list is complete exhausts the listing
/// after exactly as many requests as the bound allows: while fewer pages
/// have been read the machine asks for the next one, and with the page that
/// answers the last request allowed it fails as exhausted, having made
/// `bound` requests.
pub proof fn lemma_listing_exhausts(prefix: Seq<char>, bound: nat, pages: Seq<ListingPageView>)
    requires
        0 < bound,
        pages.len() <= bound,
        forall|i: int| 0 <= i < pages.len() ==> (#[trigger] pages[i]).next is Some,
    ensures
        ({
            let start = listing_started(prefix, bound);
            let end = listing_fed(start.0, start.1, pages);
            &&& end.0.bound == bound
            &&& pages.len() < bound ==> end.1 is Fetch && end.0.requests == pages.len() + 1
            &&& pages.len() == bound ==> end.1 == ListingStepView::Failed(
                ListingErrorView::Exhausted(bound),
            ) && end.0.requests == bound
        }),
    decreases pages.len(),
{
    if pages.len() > 0 {
        let front = pages.drop_last();
        assert forall|i: int| 0 <= i < front.len() implies (#[trigger] front[i]).next is Some by {
            assert(front[i] == pages[i]);
        }
        lemma_listing_exhausts(prefix, bound, front);
        assert(pages.last() == pages[pages.len() - 1]);
    }
}

} // verus!
