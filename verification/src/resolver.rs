//! From an address to a feed: what to fetch next, and what to make of each
//! answer. The caller performs the fetches.

use crate::error::{FeedError, FeedErrorView};
use crate::feedparser::{
    are_entries_of, date_failures_of, entry_views, failure_views, feed_of,
    get_date_failures_doc, get_feed_entries_doc, parse, DateFailure, FeedEntry, FeedItem,
    FeedItemView,
};
use crate::html::{
    discovered, html_selected, is_html, is_html_text, string_views, Parser, MAX_HTML_BYTES,
};
use crate::xml::xml_tree;
use vstd::prelude::*;
use vstd::utf8::encode_utf8;

verus! {

/// How many of the feeds that a page links to are tried.
pub const MAX_CANDIDATES: usize = 3;

/// What a fetch gave.
#[derive(Debug, Clone, PartialEq, Eq)]
pub enum FetchOutcome {
    /// The body of an answer with a status in 200..=299.
    Body(String),
    /// The status of any other answer.
    Status(u16),
    /// The transport's account of why there was no answer.
    Failed(String),
}

/// What a fetch gave, as plain values.
pub enum FetchView {
    Body(Seq<char>),
    Status(u16),
    Failed(Seq<char>),
}

impl View for FetchOutcome {
    type V = FetchView;

    open spec fn view(&self) -> FetchView {
        match self {
            FetchOutcome::Body(body) => FetchView::Body(body@),
            FetchOutcome::Status(code) => FetchView::Status(*code),
            FetchOutcome::Failed(reason) => FetchView::Failed(reason@),
        }
    }
}

/// Whether a status code reports success.
pub open spec fn is_success(code: u16) -> bool {
    200 <= code <= 299
}

/// Whether a status code reports success.
pub fn is_success_status(code: u16) -> (r: bool)
    ensures
        r == is_success(code),
{
    200 <= code && code <= 299
}

impl FetchOutcome {
    /// The outcome of a fetch that was answered with `code` and `body`.
    pub fn answered(code: u16, body: String) -> (outcome: FetchOutcome)
        ensures
            outcome@ == if is_success(code) {
                FetchView::Body(body@)
            } else {
                FetchView::Status(code)
            },
    {
        if is_success_status(code) {
            FetchOutcome::Body(body)
        } else {
            FetchOutcome::Status(code)
        }
    }
}

/// A feed with the document it was read from, or why there is none.
pub type Resolution = Result<(FeedItem, String), FeedError>;

/// A resolution as plain values.
pub type ResolutionView = Result<(FeedItemView, Seq<char>), FeedErrorView>;

/// The plain values of a resolution.
pub open spec fn resolution_view(r: Resolution) -> ResolutionView {
    match r {
        Ok((feed, body)) => Ok((feed@, body@)),
        Err(e) => Err(e@),
    }
}

/// Where a resolver stands.
#[derive(Debug, Clone, Copy, PartialEq, Eq, Structural)]
pub enum Stage {
    /// The address that was asked for is being fetched.
    Origin,
    /// One of the feeds that the page links to is being fetched.
    Candidate,
}

/// The state of one resolution between two fetches.
#[derive(Debug)]
pub struct Resolver {
    origin: String,
    candidates: Vec<String>,
    position: usize,
    stage: Stage,
}

/// A resolver as plain values.
pub struct ResolverView {
    pub origin: Seq<char>,
    pub candidates: Seq<Seq<char>>,
    pub position: nat,
    pub stage: Stage,
}

/// What is to be done next.
#[derive(Debug)]
pub enum Step {
    /// Fetch `url` and hand the outcome to `then`.
    Fetch { url: String, then: Resolver },
    /// The resolution is over.
    Done(Resolution),
}

/// A step as plain values.
pub enum StepView {
    Fetch { url: Seq<char>, then: ResolverView },
    Done(ResolutionView),
}

impl View for Resolver {
    type V = ResolverView;

    closed spec fn view(&self) -> ResolverView {
        ResolverView {
            origin: self.origin@,
            candidates: string_views(self.candidates@),
            position: self.position as nat,
            stage: self.stage,
        }
    }
}

impl View for Step {
    type V = StepView;

    open spec fn view(&self) -> StepView {
        match self {
            Step::Fetch { url, then } => StepView::Fetch { url: url@, then: then@ },
            Step::Done(r) => StepView::Done(resolution_view(*r)),
        }
    }
}

/// What a fetch of `url` amounts to when its body is read as a feed.
pub open spec fn answer(url: Seq<char>, got: FetchView) -> ResolutionView {
    match got {
        FetchView::Status(code) => Err(FeedErrorView::Status { url, code }),
        FetchView::Failed(reason) => Err(FeedErrorView::Transport { url, reason }),
        FetchView::Body(body) => match xml_tree(body) {
            Some(doc) => Ok((feed_of(doc, url), body)),
            None => Err(FeedErrorView::MalformedDocument),
        },
    }
}

/// What a fetch of a linked feed amounts to. A linked address that answers
/// with HTML is not followed further.
pub open spec fn candidate_answer(url: Seq<char>, got: FetchView) -> ResolutionView {
    match got {
        FetchView::Body(body) => if is_html_text(body) {
            Err(FeedErrorView::NoFeedFound { url })
        } else {
            answer(url, got)
        },
        _ => answer(url, got),
    }
}

/// Whether an HTML page is too large for discovery.
pub open spec fn is_oversize(body: Seq<char>) -> bool {
    encode_utf8(body).len() > MAX_HTML_BYTES
}

/// The feeds that the page `body`, fetched from `url`, links to, in document
/// order, and of those the first three at most.
pub open spec fn candidates_of(body: Seq<char>, url: Seq<char>) -> Seq<Seq<char>> {
    let all = discovered(html_selected(body, "link[rel='alternate']"@, "type"@, "href"@), url);
    if all.len() <= MAX_CANDIDATES {
        all
    } else {
        all.take(MAX_CANDIDATES as int)
    }
}

/// The first step: fetch the address itself.
pub open spec fn first_step(url: Seq<char>) -> StepView {
    StepView::Fetch {
        url,
        then: ResolverView {
            origin: url,
            candidates: Seq::empty(),
            position: 0,
            stage: Stage::Origin,
        },
    }
}

/// The step that follows when the candidate at `position` gave no feed: the
/// next candidate, or the end without a feed.
pub open spec fn pass_on(state: ResolverView, position: nat) -> StepView {
    if position < state.candidates.len() {
        StepView::Fetch {
            url: state.candidates[position as int],
            then: ResolverView {
                origin: state.origin,
                candidates: state.candidates,
                position,
                stage: Stage::Candidate,
            },
        }
    } else {
        StepView::Done(Err(FeedErrorView::NoFeedFound { url: state.origin }))
    }
}

/// The step that follows from `state` when the fetch it asked for gave `got`.
pub open spec fn advance(state: ResolverView, got: FetchView) -> StepView {
    match state.stage {
        Stage::Origin => match got {
            FetchView::Body(body) => if is_html_text(body) {
                if is_oversize(body) {
                    StepView::Done(Err(FeedErrorView::OversizeInput))
                } else {
                    pass_on(
                        ResolverView {
                            origin: state.origin,
                            candidates: candidates_of(body, state.origin),
                            position: 0,
                            stage: Stage::Candidate,
                        },
                        0,
                    )
                }
            } else {
                StepView::Done(answer(state.origin, got))
            },
            _ => StepView::Done(answer(state.origin, got)),
        },
        Stage::Candidate => if state.position < state.candidates.len() {
            match candidate_answer(state.candidates[state.position as int], got) {
                Ok(found) => StepView::Done(Ok(found)),
                Err(_) => pass_on(state, state.position + 1),
            }
        } else {
            StepView::Done(Err(FeedErrorView::NoFeedFound { url: state.origin }))
        },
    }
}

/// Reads the outcome of a fetch of `url` as a feed.
pub fn read_feed(url: &str, outcome: FetchOutcome) -> (r: Resolution)
    ensures
        resolution_view(r) == answer(url@, outcome@),
{
    match outcome {
        FetchOutcome::Status(code) => Err(FeedError::Status { url: String::from_str(url), code }),
        FetchOutcome::Failed(reason) => Err(
            FeedError::Transport { url: String::from_str(url), reason },
        ),
        FetchOutcome::Body(body) => match parse(body.as_str(), url) {
            Ok(feed) => Ok((feed, body)),
            Err(e) => Err(e),
        },
    }
}

/// Reads the outcome of a fetch of a linked feed.
pub fn read_candidate(url: &str, outcome: FetchOutcome) -> (r: Resolution)
    ensures
        resolution_view(r) == candidate_answer(url@, outcome@),
{
    match outcome {
        FetchOutcome::Body(body) => {
            if is_html(body.as_str()) {
                Err(FeedError::NoFeedFound { url: String::from_str(url) })
            } else {
                read_feed(url, FetchOutcome::Body(body))
            }
        },
        other => read_feed(url, other),
    }
}

/// The first feeds that `parser` hands out, `MAX_CANDIDATES` at most.
pub fn first_candidates(parser: Parser) -> (found: Vec<String>)
    ensures
        string_views(found@) == if parser.remaining().len() <= MAX_CANDIDATES {
            parser.remaining()
        } else {
            parser.remaining().take(MAX_CANDIDATES as int)
        },
{
    let ghost all = parser.remaining();
    let mut parser = parser;
    let mut found: Vec<String> = Vec::new();
    assert(string_views(found@) =~= all.take(0));
    assert(all.skip(0) =~= all);
    while found.len() < MAX_CANDIDATES
        invariant
            found@.len() <= all.len(),
            found@.len() <= MAX_CANDIDATES,
            string_views(found@) == all.take(found@.len() as int),
            parser.remaining() == all.skip(found@.len() as int),
        ensures
            found@.len() <= all.len(),
            string_views(found@) == all.take(found@.len() as int),
            found@.len() == MAX_CANDIDATES || found@.len() == all.len(),
        decreases MAX_CANDIDATES - found@.len(),
    {
        let ghost before = string_views(found@);
        let ghost n = found@.len() as int;
        match parser.next() {
            Some(url) => {
                assert(all.skip(n)[0] == all[n]);
                assert(all.skip(n).drop_first() =~= all.skip(n + 1));
                found.push(url);
                assert(string_views(found@) =~= before.push(url@));
                assert(all.take(n + 1) =~= all.take(n).push(all[n]));
            },
            None => {
                break;
            },
        }
    }
    assert(all.take(all.len() as int) =~= all);
    found
}

impl Resolver {
    /// Begins the resolution of `url`.
    pub fn start(url: &str) -> (step: Step)
        ensures
            step@ == first_step(url@),
    {
        let then = Resolver {
            origin: String::from_str(url),
            candidates: Vec::new(),
            position: 0,
            stage: Stage::Origin,
        };
        assert(string_views(then.candidates@) =~= Seq::empty());
        Step::Fetch { url: String::from_str(url), then }
    }

    /// Moves on to the candidate at `position`, or ends without a feed.
    fn pass(self, position: usize) -> (step: Step)
        requires
            self.stage == Stage::Candidate,
        ensures
            step@ == pass_on(self@, position as nat),
    {
        if position < self.candidates.len() {
            let url = self.candidates[position].clone();
            Step::Fetch {
                url,
                then: Resolver {
                    origin: self.origin,
                    candidates: self.candidates,
                    position,
                    stage: Stage::Candidate,
                },
            }
        } else {
            Step::Done(Err(FeedError::NoFeedFound { url: self.origin }))
        }
    }

    /// Takes in the outcome of the fetch that was asked for and says what is
    /// to be done next.
    pub fn step(self, outcome: FetchOutcome) -> (step: Step)
        ensures
            step@ == advance(self@, outcome@),
    {
        match self.stage {
            Stage::Origin => match outcome {
                FetchOutcome::Body(body) => {
                    if is_html(body.as_str()) {
                        match Parser::new(body.as_str(), self.origin.as_str()) {
                            Ok(parser) => {
                                let candidates = first_candidates(parser);
                                let state = Resolver {
                                    origin: self.origin,
                                    candidates,
                                    position: 0,
                                    stage: Stage::Candidate,
                                };
                                state.pass(0)
                            },
                            Err(_) => Step::Done(Err(FeedError::OversizeInput)),
                        }
                    } else {
                        Step::Done(read_feed(self.origin.as_str(), FetchOutcome::Body(body)))
                    }
                },
                other => Step::Done(read_feed(self.origin.as_str(), other)),
            },
            Stage::Candidate => {
                if self.position < self.candidates.len() {
                    match read_candidate(self.candidates[self.position].as_str(), outcome) {
                        Ok(found) => Step::Done(Ok(found)),
                        Err(_) => {
                            let next = self.position + 1;
                            self.pass(next)
                        },
                    }
                } else {
                    Step::Done(Err(FeedError::NoFeedFound { url: self.origin }))
                }
            },
        }
    }
}

/// Reads the outcome of a fetch of a feed's address as the feed's entries.
pub fn read_entries(feed: &FeedItem, outcome: FetchOutcome) -> (r: Result<
    Vec<FeedEntry>,
    FeedError,
>)
    ensures
        match outcome@ {
            FetchView::Status(code) => r matches Err(e) && e@ == (FeedErrorView::Status {
                url: feed@.feed_url,
                code,
            }),
            FetchView::Failed(reason) => r matches Err(e) && e@ == (FeedErrorView::Transport {
                url: feed@.feed_url,
                reason,
            }),
            FetchView::Body(body) => match r {
                Ok(entries) => xml_tree(body) matches Some(doc) && are_entries_of(
                    entry_views(entries@),
                    doc,
                    doc.len() as int,
                    feed@.author,
                ),
                Err(e) => xml_tree(body) is None && e@ == FeedErrorView::MalformedDocument,
            },
        },
{
    match outcome {
        FetchOutcome::Status(code) => Err(FeedError::Status { url: feed.feed_url.clone(), code }),
        FetchOutcome::Failed(reason) => Err(
            FeedError::Transport { url: feed.feed_url.clone(), reason },
        ),
        FetchOutcome::Body(body) => get_feed_entries_doc(body.as_str(), feed.author.as_str()),
    }
}

/// The entries in the answer to a fetch of a feed's address whose date cannot
/// be read, for the record. Where there is no document, there are none.
pub fn read_date_failures(outcome: &FetchOutcome) -> (failures: Vec<DateFailure>)
    ensures
        failure_views(failures@) == match outcome@ {
            FetchView::Body(body) => match xml_tree(body) {
                Some(doc) => date_failures_of(doc, doc.len() as int),
                None => Seq::empty(),
            },
            _ => Seq::empty(),
        },
{
    let none: Vec<DateFailure> = Vec::new();
    assert(failure_views(none@) =~= Seq::empty());
    match outcome {
        FetchOutcome::Body(body) => match get_date_failures_doc(body.as_str()) {
            Ok(failures) => failures,
            Err(_) => none,
        },
        _ => none,
    }
}

/// What the addresses of the web answer: for every address, what a fetch of
/// it gives.
pub type World = spec_fn(Seq<char>) -> FetchView;

/// The first feed among the candidates from index `from` on, each fetched and
/// read in turn.
pub open spec fn first_feed(world: World, candidates: Seq<Seq<char>>, from: nat) -> Option<
    (FeedItemView, Seq<char>),
>
    decreases candidates.len() - from,
{
    if from >= candidates.len() {
        None
    } else {
        match candidate_answer(candidates[from as int], world(candidates[from as int])) {
            Ok(found) => Some(found),
            Err(_) => first_feed(world, candidates, from + 1),
        }
    }
}

/// The feed behind `url`: the document at `url` itself, or, where that is an
/// HTML page, the first of the feeds it links to that can be fetched and read.
pub open spec fn resolved(world: World, url: Seq<char>) -> ResolutionView {
    match world(url) {
        FetchView::Body(body) => if !is_html_text(body) {
            answer(url, world(url))
        } else if is_oversize(body) {
            Err(FeedErrorView::OversizeInput)
        } else {
            match first_feed(world, candidates_of(body, url), 0) {
                Some(found) => Ok(found),
                None => Err(FeedErrorView::NoFeedFound { url }),
            }
        },
        _ => answer(url, world(url)),
    }
}

/// Where the steps lead when every fetch is answered by `world`, if they end
/// within `fetches` fetches.
pub open spec fn run(step: StepView, world: World, fetches: nat) -> Option<ResolutionView>
    decreases fetches,
{
    match step {
        StepView::Done(resolution) => Some(resolution),
        StepView::Fetch { url, then } => if fetches == 0 {
            None
        } else {
            run(advance(then, world(url)), world, (fetches - 1) as nat)
        },
    }
}

/// From any candidate on, the steps end with the first feed among the
/// candidates that are left, or without one, in as many fetches as there are
/// candidates left.
pub proof fn lemma_candidates_run(world: World, state: ResolverView, position: nat, fetches: nat)
    requires
        position + fetches >= state.candidates.len(),
    ensures
        run(pass_on(state, position), world, fetches) == Some(
            match first_feed(world, state.candidates, position) {
                Some(found) => Ok::<(FeedItemView, Seq<char>), FeedErrorView>(found),
                None => Err(FeedErrorView::NoFeedFound { url: state.origin }),
            },
        ),
    decreases state.candidates.len() - position,
{
    if position < state.candidates.len() {
        let url = state.candidates[position as int];
        let then = ResolverView {
            origin: state.origin,
            candidates: state.candidates,
            position,
            stage: Stage::Candidate,
        };
        let rest = (fetches - 1) as nat;
        assert(pass_on(state, position) == StepView::Fetch { url, then });
        assert(run(pass_on(state, position), world, fetches) == run(
            advance(then, world(url)),
            world,
            rest,
        ));
        match candidate_answer(url, world(url)) {
            Ok(found) => {
                assert(advance(then, world(url)) == StepView::Done(Ok(found)));
                assert(run(StepView::Done(Ok(found)), world, rest) == Some(
                    Ok::<(FeedItemView, Seq<char>), FeedErrorView>(found),
                ));
            },
            Err(_) => {
                assert(advance(then, world(url)) == pass_on(then, position + 1));
                assert(pass_on(then, position + 1) == pass_on(state, position + 1));
                lemma_candidates_run(world, state, position + 1, rest);
            },
        }
    } else {
        assert(pass_on(state, position) == StepView::Done(
            Err(FeedErrorView::NoFeedFound { url: state.origin }),
        ));
    }
}

/// Whatever the web answers, the steps from `Resolver::start` end after four
/// fetches at most, and with the feed behind the address.
pub proof fn lemma_run_resolves(world: World, url: Seq<char>)
    ensures
        run(first_step(url), world, 1 + MAX_CANDIDATES as nat) == Some(resolved(world, url)),
{
    let origin = ResolverView {
        origin: url,
        candidates: Seq::empty(),
        position: 0,
        stage: Stage::Origin,
    };
    let next = advance(origin, world(url));
    assert(first_step(url) == StepView::Fetch { url, then: origin });
    assert(run(first_step(url), world, 1 + MAX_CANDIDATES as nat) == run(
        next,
        world,
        MAX_CANDIDATES as nat,
    ));
    match world(url) {
        FetchView::Body(body) => {
            if is_html_text(body) && !is_oversize(body) {
                let state = ResolverView {
                    origin: url,
                    candidates: candidates_of(body, url),
                    position: 0,
                    stage: Stage::Candidate,
                };
                assert(next == pass_on(state, 0));
                lemma_candidates_run(world, state, 0, MAX_CANDIDATES as nat);
            } else {
                assert(next is Done);
            }
        },
        _ => {
            assert(next == StepView::Done(answer(url, world(url))));
        },
    }
}

} // verus!
