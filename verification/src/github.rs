//! What the comment source's answers mean: the address of an issue's
//! comments, the bodies in one page of them, the link to the next page, and
//! the order in which pages are walked. Sending the requests is left to the
//! caller.

use crate::error::Error;
use crate::pattern::{capture, compile, regex_group, regex_valid};
use crate::payload::{
    elements, json_items, json_member, json_text, json_value, member, parse,
};
use crate::text::{opt_text, opt_texts, present_strings, present_texts, texts};
use json::JsonValue;
use vstd::prelude::*;
use vstd::string::StringExecFns;

verus! {

/// Where the comment source lives.
pub const API_ROOT: &'static str = "https://api.github.com";

/// What a `Link` header says of the next page.
pub const NEXT_LINK: &'static str = "<([^>]*)>; rel=\"next\"";

/// The address of the comments of issue `issue` of repository `repo`.
pub open spec fn comments_url_of(repo: Seq<char>, issue: Seq<char>) -> Seq<char> {
    API_ROOT@ + "/repos/"@ + repo + "/issues/"@ + issue + "/comments"@
}

/// The address of the comments of issue `issue` of repository `repo`.
pub fn comments_url(repo: &str, issue: &str) -> (url: String)
    ensures
        url@ == comments_url_of(repo@, issue@),
{
    let mut url = String::from_str(API_ROOT);
    url.append("/repos/");
    url.append(repo);
    url.append("/issues/");
    url.append(issue);
    url.append("/comments");
    url
}

/// The `Authorization` header that presents the token `key`.
pub fn authorization(key: &str) -> (value: String)
    ensures
        value@ == "token "@ + key@,
{
    let mut value = String::from_str("token ");
    value.append(key);
    value
}

/// The address of the next page that a `Link` header names, if it names one.
pub open spec fn next_link_of(link: Seq<char>) -> Option<Seq<char>> {
    if regex_valid(NEXT_LINK@) {
        regex_group(NEXT_LINK@, link, 1)
    } else {
        None
    }
}

/// The address of the next page that a `Link` header names, if it names one.
pub fn next_link(link: &str) -> (next: Option<String>)
    ensures
        opt_text(next) == next_link_of(link@),
{
    match compile(NEXT_LINK) {
        Some(re) => capture(&re, link, 1),
        None => None,
    }
}

/// What each element of a page holds as a string under `body`.
pub open spec fn body_texts(items: Seq<JsonValue>) -> Seq<Option<Seq<char>>> {
    Seq::new(items.len(), |i: int| json_text(json_member(items[i], "body"@)))
}

/// The comment bodies in a page: those of the elements of the JSON array
/// that have a string under `body`, in order. There are none to speak of
/// where the page is no JSON, or no array.
pub open spec fn page_bodies(content: Seq<char>) -> Option<Seq<Seq<char>>> {
    match json_value(content) {
        Some(value) => match json_items(value) {
            Some(items) => Some(present_texts(body_texts(items))),
            None => None,
        },
        None => None,
    }
}

/// What each element of a page holds as a string under `body`.
pub fn bodies(items: &Vec<JsonValue>) -> (out: Vec<Option<String>>)
    ensures
        opt_texts(out@) == body_texts(items@),
{
    let mut out: Vec<Option<String>> = Vec::new();
    let mut i: usize = 0;
    while i < items.len()
        invariant
            i <= items.len(),
            out.len() == i,
            forall|j: int|
                0 <= j < i ==> opt_text(out[j]) == json_text(json_member(items[j], "body"@)),
        decreases items.len() - i,
    {
        let body = match member(&items[i], "body").as_str() {
            Some(s) => Some(s.to_owned()),
            None => None,
        };
        out.push(body);
        i += 1;
    }
    assert(opt_texts(out@) =~= body_texts(items@));
    out
}

/// Reads the comment bodies out of one page of the comment source's answer.
/// A page that is no JSON array is a format error.
pub fn parse_page(content: &str) -> (page: Result<Vec<String>, Error>)
    ensures
        match page {
            Ok(found) => page_bodies(content@) == Some(texts(found@)),
            Err(e) => e == Error::JsonParseErr && page_bodies(content@) is None,
        },
{
    match parse(content) {
        Some(value) => match elements(&value) {
            Some(items) => Ok(present_strings(&bodies(items))),
            None => Err(Error::JsonParseErr),
        },
        None => Err(Error::JsonParseErr),
    }
}

/// One page of comments, and where the next one is.
pub struct Page {
    pub comments: Vec<String>,
    pub next: Option<String>,
}

/// What is left of a walk through the pages: the comments of the current
/// page that were not handed out yet, and where the next page is.
pub ghost struct CommentsView {
    pub pending: Seq<Seq<char>>,
    pub next: Option<Seq<char>>,
}

/// What the walk asks of its caller.
pub enum Step {
    /// Here is the next comment.
    Comment(String),
    /// The page is used up: fetch the one at this address and load it.
    Fetch(String),
    /// There is nothing left.
    Done,
}

/// What a step amounts to as plain data.
pub ghost enum StepView {
    Comment(Seq<char>),
    Fetch(Seq<char>),
    Done,
}

impl View for Step {
    type V = StepView;

    open spec fn view(&self) -> StepView {
        match self {
            Step::Comment(body) => StepView::Comment(body@),
            Step::Fetch(url) => StepView::Fetch(url@),
            Step::Done => StepView::Done,
        }
    }
}

/// The step that a walk takes: the first pending comment; with none
/// pending, a fetch of the next page; with no next page, the end.
pub open spec fn step_of(c: CommentsView) -> StepView {
    if c.pending.len() > 0 {
        StepView::Comment(c.pending[0])
    } else {
        match c.next {
            Some(url) => StepView::Fetch(url),
            None => StepView::Done,
        }
    }
}

/// The walk after its step: without the comment that was handed out, or
/// without the address that was handed out.
pub open spec fn after_step(c: CommentsView) -> CommentsView {
    if c.pending.len() > 0 {
        CommentsView { pending: c.pending.drop_first(), next: c.next }
    } else {
        CommentsView { pending: c.pending, next: None }
    }
}

/// A walk through the pages of an issue's comments.
pub struct Comments {
    comments: Vec<String>,
    taken: usize,
    next: Option<String>,
}

impl View for Comments {
    type V = CommentsView;

    closed spec fn view(&self) -> CommentsView {
        CommentsView {
            pending: texts(self.comments@).skip(self.taken as int),
            next: opt_text(self.next),
        }
    }
}

impl Comments {
    /// No more comments were handed out than the page holds.
    #[verifier::type_invariant]
    spec fn inv(&self) -> bool {
        self.taken <= self.comments.len()
    }

    /// A walk that starts on `first`.
    pub fn new(first: Page) -> (walk: Comments)
        ensures
            walk@ == (CommentsView { pending: texts(first.comments@), next: opt_text(first.next) }),
    {
        let walk = Comments { comments: first.comments, taken: 0, next: first.next };
        assert(texts(walk.comments@).skip(0) =~= texts(first.comments@));
        walk
    }

    /// Takes one step of the walk and says what to do.
    pub fn advance(&mut self) -> (step: Step)
        ensures
            step@ == step_of(old(self)@),
            final(self)@ == after_step(old(self)@),
    {
        proof {
            use_type_invariant(&*self);
        }
        if self.taken < self.comments.len() {
            let body = self.comments[self.taken].clone();
            self.taken = self.taken + 1;
            assert(self@.pending =~= old(self)@.pending.drop_first());
            Step::Comment(body)
        } else {
            let mut next: Option<String> = None;
            core::mem::swap(&mut self.next, &mut next);
            match next {
                Some(url) => Step::Fetch(url),
                None => Step::Done,
            }
        }
    }

    /// Goes on with a page that was fetched.
    pub fn load(&mut self, page: Page)
        ensures
            final(self)@ == (CommentsView {
                pending: texts(page.comments@),
                next: opt_text(page.next),
            }),
    {
        self.taken = 0;
        self.comments = page.comments;
        self.next = page.next;
        assert(texts(self.comments@).skip(0) =~= texts(page.comments@));
    }
}

} // verus!
