//! The page walk: following a listing's continuation tokens to its end.
//!
//! A listing is served one page at a time. Each response carries the page's
//! items and, while more pages remain, a continuation token that the next
//! request must present. The walk is strictly sequential: the request for
//! page `n + 1` cannot be formed before page `n` has been read.
//!
//! [`PageWalk`] holds the state between two requests. A caller asks it for
//! the URL to fetch, performs the request, and hands the outcome to
//! [`PageWalk::advance`], which says whether to go on, to stop with the
//! complete collection, or to stop with the failure. Nothing else ends a
//! walk: a response without a token is its last page.

use crate::error::{ErrorModel, ServiceError};
use vstd::prelude::*;

verus! {

/// The items and the continuation token read from one response body.
pub struct ResultPage<T> {
    pub items: Vec<T>,
    pub next_page_token: Option<String>,
}

/// A [`ResultPage`] as a mathematical value.
pub struct PageModel<T> {
    pub items: Seq<T>,
    pub next_page_token: Option<Seq<char>>,
}

impl<T> View for ResultPage<T> {
    type V = PageModel<T>;

    open spec fn view(&self) -> PageModel<T> {
        PageModel { items: self.items@, next_page_token: token_model(self.next_page_token) }
    }
}

/// A continuation token as a mathematical value.
pub open spec fn token_model(token: Option<String>) -> Option<Seq<char>> {
    match token {
        Some(t) => Some(t@),
        None => None,
    }
}

/// What one page request came to, as a mathematical value: the page that was
/// read, or the failure of the request or of reading its response.
pub open spec fn outcome_model<T>(outcome: Result<ResultPage<T>, ServiceError>) -> Result<
    PageModel<T>,
    ErrorModel,
> {
    match outcome {
        Ok(page) => Ok(page@),
        Err(e) => Err(e@),
    }
}

/// The URL of a page request: the resource URL itself for the first page,
/// and with the token appended as the `pageToken` parameter after that.
pub open spec fn page_url(base_url: Seq<char>, token: Option<Seq<char>>) -> Seq<char> {
    match token {
        Some(t) => base_url + "&pageToken="@ + t,
        None => base_url,
    }
}

/// The state of a walk between two requests, as a mathematical value.
pub struct WalkModel<T> {
    /// The URL of the listing, without a token.
    pub base_url: Seq<char>,
    /// The token that the next request presents; none before the first page.
    pub token: Option<Seq<char>>,
    /// The items of the pages read so far, in page order.
    pub items: Seq<T>,
}

/// What a walk does after one outcome, as a mathematical value.
pub enum StepModel<T> {
    /// More pages remain: fetch the URL of the walk inside.
    Continue(WalkModel<T>),
    /// The last page was read: these are all the items.
    Done(Seq<T>),
    /// The walk is over and has no result.
    Failed(ErrorModel),
}

impl<T> WalkModel<T> {
    /// A walk that has read nothing yet.
    pub open spec fn start(base_url: Seq<char>) -> WalkModel<T> {
        WalkModel { base_url, token: None, items: Seq::empty() }
    }

    /// The URL that the next request fetches.
    pub open spec fn request_url(self) -> Seq<char> {
        page_url(self.base_url, self.token)
    }

    /// The step after one outcome. A failure ends the walk and discards what
    /// was read. A page is appended; its token, if it has one, is what the
    /// next request presents, and without one the walk is complete.
    pub open spec fn advance(self, outcome: Result<PageModel<T>, ErrorModel>) -> StepModel<T> {
        match outcome {
            Err(e) => StepModel::Failed(e),
            Ok(page) => match page.next_page_token {
                None => StepModel::Done(self.items + page.items),
                Some(t) => StepModel::Continue(
                    WalkModel {
                        base_url: self.base_url,
                        token: Some(t),
                        items: self.items + page.items,
                    },
                ),
            },
        }
    }
}

/// The state of a walk between two requests.
pub struct PageWalk<T> {
    base_url: String,
    token: Option<String>,
    items: Vec<T>,
}

impl<T> View for PageWalk<T> {
    type V = WalkModel<T>;

    closed spec fn view(&self) -> WalkModel<T> {
        WalkModel { base_url: self.base_url@, token: token_model(self.token), items: self.items@ }
    }
}

/// What a walk does after one outcome.
pub enum WalkStep<T> {
    /// More pages remain: fetch `request_url()` of the walk inside and
    /// advance it with the outcome.
    Continue(PageWalk<T>),
    /// The last page was read: these are all the items, in page order.
    Done(Vec<T>),
    /// The walk is over and has no result, whatever was read before.
    Failed(ServiceError),
}

impl<T> View for WalkStep<T> {
    type V = StepModel<T>;

    open spec fn view(&self) -> StepModel<T> {
        match self {
            WalkStep::Continue(walk) => StepModel::Continue(walk@),
            WalkStep::Done(items) => StepModel::Done(items@),
            WalkStep::Failed(e) => StepModel::Failed(e@),
        }
    }
}

/// Forms the URL of a page request from the resource URL and the token of
/// the page before, if there was one.
pub fn page_request_url(base_url: &str, token: &Option<String>) -> (url: String)
    ensures
        url@ == page_url(base_url@, token_model(*token)),
{
    let mut url = base_url.to_owned();
    match token {
        Some(t) => {
            url.append("&pageToken=");
            url.append(t.as_str());
        },
        None => {},
    }
    url
}

impl<T> PageWalk<T> {
    /// Starts a walk over the listing at `base_url`.
    pub fn new(base_url: &str) -> (walk: PageWalk<T>)
        ensures
            walk@ == WalkModel::<T>::start(base_url@),
    {
        PageWalk { base_url: base_url.to_owned(), token: None, items: Vec::new() }
    }

    /// The URL of the listing, without a token.
    pub fn base_url(&self) -> (url: &str)
        ensures
            url@ == self@.base_url,
    {
        self.base_url.as_str()
    }

    /// The token that the next request presents; none before the first
    /// page.
    pub fn next_page_token(&self) -> (token: &Option<String>)
        ensures
            token_model(*token) == self@.token,
    {
        &self.token
    }

    /// The URL that the next request fetches.
    pub fn request_url(&self) -> (url: String)
        ensures
            url@ == self@.request_url(),
    {
        page_request_url(self.base_url.as_str(), &self.token)
    }

    /// Takes the outcome of the request for `request_url()` and decides the
    /// next step.
    pub fn advance(self, outcome: Result<ResultPage<T>, ServiceError>) -> (step: WalkStep<T>)
        ensures
            step@ == self@.advance(outcome_model(outcome)),
    {
        match outcome {
            Err(e) => WalkStep::Failed(e),
            Ok(page) => {
                let mut items = self.items;
                let mut page_items = page.items;
                items.append(&mut page_items);
                match page.next_page_token {
                    None => WalkStep::Done(items),
                    Some(t) => WalkStep::Continue(
                        PageWalk { base_url: self.base_url, token: Some(t), items },
                    ),
                }
            },
        }
    }
}

/// What a caller sees who drives a walk against a server: where the walk
/// stands in the end, and the URLs of the requests it made, in order.
pub struct WalkTrace<T> {
    pub end: StepModel<T>,
    pub requests: Seq<Seq<char>>,
}

/// Drives `walk` against a server whose answer to the walk's `n`-th request
/// from here on is `outcomes[n]`. Each round fetches the walk's URL and
/// advances the walk with the answer; the first step that is not `Continue`
/// ends the run, and the answers after it are never asked for. A walk that
/// outlasts the answers is left where it stands.
pub open spec fn drive<T>(
    walk: WalkModel<T>,
    outcomes: Seq<Result<PageModel<T>, ErrorModel>>,
) -> WalkTrace<T>
    decreases outcomes.len(),
{
    if outcomes.len() == 0 {
        WalkTrace { end: StepModel::Continue(walk), requests: Seq::empty() }
    } else {
        match walk.advance(outcomes[0]) {
            StepModel::Continue(next) => {
                let later = drive(next, outcomes.drop_first());
                WalkTrace { end: later.end, requests: seq![walk.request_url()] + later.requests }
            },
            end => WalkTrace { end, requests: seq![walk.request_url()] },
        }
    }
}

/// The items of all the pages, in page order.
pub open spec fn all_items<T>(pages: Seq<PageModel<T>>) -> Seq<T>
    decreases pages.len(),
{
    if pages.len() == 0 {
        Seq::empty()
    } else {
        pages[0].items + all_items(pages.drop_first())
    }
}

/// The answers of a server that serves `pages` one after the other.
pub open spec fn served<T>(pages: Seq<PageModel<T>>) -> Seq<Result<PageModel<T>, ErrorModel>> {
    Seq::new(pages.len(), |i: int| Ok(pages[i]))
}

/// Every page carries a token.
pub open spec fn all_have_tokens<T>(pages: Seq<PageModel<T>>) -> bool {
    forall|i: int| 0 <= i < pages.len() ==> (#[trigger] pages[i]).next_page_token is Some
}

/// The pages form a finite token chain: every page but the last carries a
/// token, and the last carries none.
pub open spec fn is_token_chain<T>(pages: Seq<PageModel<T>>) -> bool {
    &&& pages.len() > 0
    &&& all_have_tokens(pages.drop_last())
    &&& pages.last().next_page_token is None
}

proof fn lemma_drive_through_pages<T>(
    walk: WalkModel<T>,
    pages: Seq<PageModel<T>>,
    rest: Seq<Result<PageModel<T>, ErrorModel>>,
)
    requires
        all_have_tokens(pages),
    ensures
        ({
            let through = drive(walk, served(pages));
            let whole = drive(walk, served(pages) + rest);
            &&& through.requests.len() == pages.len()
            &&& forall|i: int|
                0 <= i < pages.len() ==> #[trigger] through.requests[i] == page_url(
                    walk.base_url,
                    if i == 0 {
                        walk.token
                    } else {
                        pages[i - 1].next_page_token
                    },
                )
            &&& through.end matches StepModel::Continue(next)
            &&& next.base_url == walk.base_url
            &&& next.items == walk.items + all_items(pages)
            &&& next.token == if pages.len() == 0 {
                walk.token
            } else {
                pages.last().next_page_token
            }
            &&& whole.end == drive(next, rest).end
            &&& whole.requests == through.requests + drive(next, rest).requests
        }),
    decreases pages.len(),
{
    if pages.len() > 0 {
        let first = pages[0];
        let tail = pages.drop_first();
        let next = WalkModel {
            base_url: walk.base_url,
            token: first.next_page_token,
            items: walk.items + first.items,
        };
        assert(served(pages).drop_first() =~= served(tail));
        assert((served(pages) + rest).drop_first() =~= served(tail) + rest);
        lemma_drive_through_pages(next, tail, rest);
    }
}

/// A walk against a server whose pages form a token chain of `n` pages ends
/// with the items of all `n` pages, in page order, after exactly `n`
/// requests: the first for the resource URL itself, each later one with the
/// token of the page before it. What the server would have answered to
/// further requests (`rest`) plays no part.
pub proof fn lemma_walk_follows_token_chain<T>(
    base_url: Seq<char>,
    pages: Seq<PageModel<T>>,
    rest: Seq<Result<PageModel<T>, ErrorModel>>,
)
    requires
        is_token_chain(pages),
    ensures
        ({
            let trace = drive(WalkModel::<T>::start(base_url), served(pages) + rest);
            &&& trace.end == StepModel::Done(all_items(pages))
            &&& trace.requests.len() == pages.len()
            &&& trace.requests[0] == base_url
            &&& forall|i: int|
                0 < i < pages.len() ==> #[trigger] trace.requests[i] == page_url(
                    base_url,
                    pages[i - 1].next_page_token,
                )
        }),
{
    let walk = WalkModel::<T>::start(base_url);
    let before = pages.drop_last();
    let last = pages.last();
    let closing = seq![Ok::<PageModel<T>, ErrorModel>(last)] + rest;
    assert(served(pages) + rest =~= served(before) + closing);
    lemma_drive_through_pages(walk, before, closing);
    lemma_all_items_push(before, last);
    assert(pages =~= before.push(last));
}

proof fn lemma_all_items_push<T>(pages: Seq<PageModel<T>>, last: PageModel<T>)
    ensures
        all_items(pages.push(last)) == all_items(pages) + last.items,
    decreases pages.len(),
{
    let whole = pages.push(last);
    if pages.len() == 0 {
        assert(whole.drop_first() =~= pages);
    } else {
        assert(whole.drop_first() =~= pages.drop_first().push(last));
        lemma_all_items_push(pages.drop_first(), last);
    }
}

/// If the first response carries no token, exactly one request is made, for
/// the resource URL itself, and the items of that one page, which may be
/// none, are the whole result.
pub proof fn lemma_walk_single_page<T>(
    base_url: Seq<char>,
    page: PageModel<T>,
    rest: Seq<Result<PageModel<T>, ErrorModel>>,
)
    requires
        page.next_page_token is None,
    ensures
        drive(WalkModel::<T>::start(base_url), seq![Ok(page)] + rest) == (WalkTrace {
            end: StepModel::Done(page.items),
            requests: seq![base_url],
        }),
{
}

/// A failure ends the walk with that failure and nothing else, however many
/// pages were read before it: after `pages`, each with a token, the failure
/// `e` of the next request, or of reading its response, is the outcome of the
/// whole walk, one request after the last page.
pub proof fn lemma_walk_failure_discards_pages<T>(
    base_url: Seq<char>,
    pages: Seq<PageModel<T>>,
    e: ErrorModel,
    rest: Seq<Result<PageModel<T>, ErrorModel>>,
)
    requires
        all_have_tokens(pages),
    ensures
        ({
            let trace = drive(WalkModel::<T>::start(base_url), served(pages) + seq![Err(e)] + rest);
            &&& trace.end == StepModel::<T>::Failed(e)
            &&& trace.requests.len() == pages.len() + 1
        }),
{
    let walk = WalkModel::<T>::start(base_url);
    let closing = seq![Err::<PageModel<T>, ErrorModel>(e)] + rest;
    assert(served(pages) + seq![Err::<PageModel<T>, ErrorModel>(e)] + rest =~= served(pages)
        + closing);
    lemma_drive_through_pages(walk, pages, closing);
}

/// The outcome is a page that carries a token: more pages follow it.
pub open spec fn has_next_page<T>(outcome: Result<PageModel<T>, ErrorModel>) -> bool {
    match outcome {
        Ok(page) => page.next_page_token is Some,
        Err(_) => false,
    }
}

/// The outcome is a page that carries no token: the last of its listing.
pub open spec fn is_last_page<T>(outcome: Result<PageModel<T>, ErrorModel>) -> bool {
    match outcome {
        Ok(page) => page.next_page_token is None,
        Err(_) => false,
    }
}

/// The pages that the first `n` outcomes hold.
pub open spec fn first_pages<T>(outcomes: Seq<Result<PageModel<T>, ErrorModel>>, n: int) -> Seq<
    PageModel<T>,
> {
    Seq::new(n as nat, |i: int| outcomes[i]->Ok_0)
}

proof fn lemma_drive_from<T>(walk: WalkModel<T>, outcomes: Seq<Result<PageModel<T>, ErrorModel>>)
    ensures
        ({
            let trace = drive(walk, outcomes);
            let n = trace.requests.len() as int;
            &&& n <= outcomes.len()
            &&& forall|i: int| 0 <= i < n - 1 ==> has_next_page(#[trigger] outcomes[i])
            &&& match trace.end {
                StepModel::Done(items) => {
                    &&& n > 0
                    &&& is_last_page(outcomes[n - 1])
                    &&& items == walk.items + all_items(first_pages(outcomes, n))
                },
                StepModel::Failed(e) => n > 0 && outcomes[n - 1] == Err::<PageModel<T>, ErrorModel>(e),
                StepModel::Continue(next) => {
                    &&& n == outcomes.len()
                    &&& n > 0 ==> has_next_page(outcomes[n - 1])
                    &&& next.items == walk.items + all_items(first_pages(outcomes, n))
                },
            }
        }),
    decreases outcomes.len(),
{
    if outcomes.len() > 0 {
        let n = drive(walk, outcomes).requests.len() as int;
        let tail = outcomes.drop_first();
        match walk.advance(outcomes[0]) {
            StepModel::Continue(next) => {
                lemma_drive_from(next, tail);
                assert forall|i: int| 0 <= i < n - 1 implies has_next_page(
                    #[trigger] outcomes[i],
                ) by {
                    if i > 0 {
                        assert(tail[i - 1] == outcomes[i]);
                    }
                }
                assert(first_pages(outcomes, n).drop_first() =~= first_pages(tail, n - 1));
            },
            StepModel::Done(items) => {
                assert(all_items(first_pages(outcomes, 1).drop_first()) =~= Seq::<T>::empty());
            },
            StepModel::Failed(e) => {},
        }
    }
}

/// A walk is all-or-nothing, and ends on nothing but a page without a token
/// or a failure. Whatever the server answers: every request but the last
/// that was made was answered by a page with a token; a walk that is done
/// was last answered by a page without one, and holds the items of every
/// page it was answered with, in page order; a walk that has failed was last
/// answered by that failure; and a walk that goes on has used up the
/// answers.
pub proof fn lemma_walk_is_all_or_nothing<T>(
    base_url: Seq<char>,
    outcomes: Seq<Result<PageModel<T>, ErrorModel>>,
)
    ensures
        ({
            let trace = drive(WalkModel::<T>::start(base_url), outcomes);
            let n = trace.requests.len() as int;
            &&& n <= outcomes.len()
            &&& forall|i: int| 0 <= i < n - 1 ==> has_next_page(#[trigger] outcomes[i])
            &&& match trace.end {
                StepModel::Done(items) => {
                    &&& n > 0
                    &&& is_last_page(outcomes[n - 1])
                    &&& items == all_items(first_pages(outcomes, n))
                },
                StepModel::Failed(e) => n > 0 && outcomes[n - 1] == Err::<PageModel<T>, ErrorModel>(e),
                StepModel::Continue(next) => {
                    &&& n == outcomes.len()
                    &&& n > 0 ==> has_next_page(outcomes[n - 1])
                    &&& next.items == all_items(first_pages(outcomes, n))
                },
            }
        }),
{
    lemma_drive_from(WalkModel::<T>::start(base_url), outcomes);
}

} // verus!
