//! The responder: it decides, step by step, what has to be looked up on disk
//! for a request and what is served in the end. It never touches the disk
//! itself: each step hands out one action, and the caller reports what the
//! action found.

use vstd::prelude::*;
use crate::fragments::{
    composed_from, fragment_file, fragment_name, fragment_path, name_of, substitute, substituted,
    FragmentCache,
};
use crate::markup::{markdown_html, render_markdown, wrap_chars, wrapped};
use crate::mime::{content_type, content_type_of, html, is_html, is_textual, spells, textual};
use crate::path::{join, joined, sanitize_chars, sanitized};
use crate::text::{from_chars, to_chars};

verus! {

/// How a request ended.
#[derive(Clone, Copy, Debug, PartialEq, Eq, Structural)]
pub enum Status {
    Success,
    Forbidden,
    NotFound,
    ServerError,
}

/// What is sent back: text, or bytes that are passed through as they are.
#[derive(Debug, PartialEq, Eq)]
pub enum Body {
    Text(String),
    Binary(Vec<u8>),
}

/// The response to a request.
#[derive(Debug, PartialEq, Eq)]
pub struct ServedDocument {
    pub status: Status,
    pub content_type: Option<String>,
    pub body: Body,
}

/// A body as contracts see it.
pub enum BodyView {
    Text(Seq<char>),
    Binary(Seq<u8>),
}

/// A response as contracts see it.
pub struct DocumentView {
    pub status: Status,
    pub content_type: Option<Seq<char>>,
    pub body: BodyView,
}

impl View for Body {
    type V = BodyView;

    open spec fn view(&self) -> BodyView {
        match *self {
            Body::Text(s) => BodyView::Text(s@),
            Body::Binary(b) => BodyView::Binary(b@),
        }
    }
}

impl View for ServedDocument {
    type V = DocumentView;

    open spec fn view(&self) -> DocumentView {
        DocumentView {
            status: self.status,
            content_type: crate::path::text_of(self.content_type),
            body: self.body@,
        }
    }
}

/// The index files of a directory, in the order in which they are tried.
#[derive(Clone, Copy, Debug, PartialEq, Eq, Structural)]
pub enum IndexFile {
    Html,
    Markdown,
}

/// What the responder is waiting for.
#[derive(Debug)]
pub enum Stage {
    /// Whether the target is a directory.
    ProbingDirectory,
    /// Whether an index file exists in the target directory.
    ProbingIndex(IndexFile),
    /// The text of an index file.
    ReadingIndex(IndexFile),
    /// The shell template; it holds the rendered markdown.
    ReadingShell(Vec<char>),
    /// The text of the fragment with this number; it holds the page as far
    /// as it is composed.
    ReadingFragment(usize, Vec<char>),
    /// The content of the target file.
    ReadingAsset,
    /// Nothing: the response was handed out.
    Finished,
}

/// A stage as contracts see it.
pub enum StageView {
    ProbingDirectory,
    ProbingIndex(IndexFile),
    ReadingIndex(IndexFile),
    ReadingShell(Seq<char>),
    ReadingFragment(int, Seq<char>),
    ReadingAsset,
    Finished,
}

impl View for Stage {
    type V = StageView;

    open spec fn view(&self) -> StageView {
        match *self {
            Stage::ProbingDirectory => StageView::ProbingDirectory,
            Stage::ProbingIndex(k) => StageView::ProbingIndex(k),
            Stage::ReadingIndex(k) => StageView::ReadingIndex(k),
            Stage::ReadingShell(r) => StageView::ReadingShell(r@),
            Stage::ReadingFragment(k, w) => StageView::ReadingFragment(k as int, w@),
            Stage::ReadingAsset => StageView::ReadingAsset,
            Stage::Finished => StageView::Finished,
        }
    }
}

/// One request on its way to a response.
#[derive(Debug)]
pub struct Session {
    /// The location on disk that the request resolves to.
    pub target: Vec<char>,
    /// Whether fragments are read from disk for this request, not from the
    /// cache.
    pub live: bool,
    pub stage: Stage,
}

/// A session as contracts see it.
pub struct SessionView {
    pub target: Seq<char>,
    pub live: bool,
    pub stage: StageView,
}

impl View for Session {
    type V = SessionView;

    open spec fn view(&self) -> SessionView {
        SessionView { target: self.target@, live: self.live, stage: self.stage@ }
    }
}

/// What the caller found when it carried out an action.
#[derive(Debug, PartialEq, Eq)]
pub enum Event {
    /// The answer to a question about the disk.
    Flag(bool),
    /// The text of a file, if it could be read as text.
    Text(Option<String>),
    /// The bytes of a file, if it could be read.
    Bytes(Option<Vec<u8>>),
}

/// An event as contracts see it.
pub enum EventView {
    Flag(bool),
    Text(Option<Seq<char>>),
    Bytes(Option<Seq<u8>>),
}

impl View for Event {
    type V = EventView;

    open spec fn view(&self) -> EventView {
        match *self {
            Event::Flag(b) => EventView::Flag(b),
            Event::Text(t) => EventView::Text(crate::path::text_of(t)),
            Event::Bytes(b) => EventView::Bytes(
                match b {
                    Some(v) => Some(v@),
                    None => None,
                },
            ),
        }
    }
}

/// What the caller is to do next.
#[derive(Debug, PartialEq, Eq)]
pub enum Action {
    /// Report whether the path is a directory.
    IsDirectory(String),
    /// Report whether anything exists at the path.
    Exists(String),
    /// Read the file as text.
    ReadText(String),
    /// Read the file as bytes.
    ReadBytes(String),
    /// Send the response; the request is done.
    Respond(ServedDocument),
}

/// An action as contracts see it.
pub enum ActionView {
    IsDirectory(Seq<char>),
    Exists(Seq<char>),
    ReadText(Seq<char>),
    ReadBytes(Seq<char>),
    Respond(DocumentView),
}

impl View for Action {
    type V = ActionView;

    open spec fn view(&self) -> ActionView {
        match *self {
            Action::IsDirectory(p) => ActionView::IsDirectory(p@),
            Action::Exists(p) => ActionView::Exists(p@),
            Action::ReadText(p) => ActionView::ReadText(p@),
            Action::ReadBytes(p) => ActionView::ReadBytes(p@),
            Action::Respond(d) => ActionView::Respond(d@),
        }
    }
}

/// The response to a request whose path was refused.
pub open spec fn forbidden_document() -> DocumentView {
    DocumentView {
        status: Status::Forbidden,
        content_type: None,
        body: BodyView::Text("Invalid or unsafe path"@),
    }
}

/// The response to a request that resolves to nothing that can be served.
pub open spec fn not_found_document() -> DocumentView {
    DocumentView {
        status: Status::NotFound,
        content_type: None,
        body: BodyView::Text("File not found"@),
    }
}

/// A successful response.
pub open spec fn ok_document(mime: Seq<char>, body: BodyView) -> DocumentView {
    DocumentView { status: Status::Success, content_type: Some(mime), body }
}

/// A successful response that carries an HTML page.
pub open spec fn page(body: Seq<char>) -> DocumentView {
    ok_document("text/html; charset=utf-8"@, BodyView::Text(body))
}

/// The relative path of a request: the empty path for the root of the base
/// directory, otherwise what the sanitizer lets through.
pub open spec fn relative_path(raw: Seq<char>) -> Option<Seq<char>> {
    if raw.len() == 0 || raw == "/"@ {
        Some(Seq::empty())
    } else {
        sanitized(raw)
    }
}

/// The name of an index file.
pub open spec fn index_name(which: IndexFile) -> Seq<char> {
    match which {
        IndexFile::Html => "index.html"@,
        IndexFile::Markdown => "main.md"@,
    }
}

/// The file that holds the shell template.
pub open spec fn shell_file() -> Seq<char> {
    "Frontend/static/wikishell.html"@
}

/// The session with its stage changed.
pub open spec fn at_stage(s: SessionView, stage: StageView) -> SessionView {
    SessionView { target: s.target, live: s.live, stage }
}

/// The first step of a request: a refused path is answered at once, without
/// any question about the disk; otherwise the target is probed.
pub open spec fn opened(base: Seq<char>, raw: Seq<char>, live: bool) -> (SessionView, ActionView) {
    match relative_path(raw) {
        None => (
            SessionView { target: base, live, stage: StageView::Finished },
            ActionView::Respond(forbidden_document()),
        ),
        Some(rel) => (
            SessionView { target: joined(base, rel), live, stage: StageView::ProbingDirectory },
            ActionView::IsDirectory(joined(base, rel)),
        ),
    }
}

/// The request ends without anything to serve.
pub open spec fn failed(s: SessionView) -> (SessionView, ActionView) {
    (at_stage(s, StageView::Finished), ActionView::Respond(not_found_document()))
}

/// The request ends with a response.
pub open spec fn answered(s: SessionView, doc: DocumentView) -> (SessionView, ActionView) {
    (at_stage(s, StageView::Finished), ActionView::Respond(doc))
}

/// The question whether an index file exists.
pub open spec fn probing(s: SessionView, which: IndexFile) -> (SessionView, ActionView) {
    (
        at_stage(s, StageView::ProbingIndex(which)),
        ActionView::Exists(joined(s.target, index_name(which))),
    )
}

/// An HTML text is composed with the fragments: from the cache at once, or
/// from disk beginning with the first fragment.
pub open spec fn composing(s: SessionView, t: Seq<char>, cache: Seq<(Seq<char>, Seq<char>)>) -> (
    SessionView,
    ActionView,
) {
    if s.live {
        (
            at_stage(s, StageView::ReadingFragment(0, t)),
            ActionView::ReadText(fragment_file(fragment_name(0))),
        )
    } else {
        answered(s, page(composed_from(t, cache)))
    }
}

/// The step that a session takes on an event: the new session and the
/// action that is handed out.
///
/// A directory is searched for `index.html`, then for `main.md`. An index
/// file is read only after it was found to exist. An `index.html` that
/// exists but cannot be read is passed over and `main.md` is tried; a
/// `main.md` or a shell template that cannot be read ends the request as
/// not found. Any other target is read as text or as bytes, by its content
/// type; only HTML is composed with the fragments. An event that the stage
/// does not wait for ends the request as not found.
pub open spec fn next(s: SessionView, e: EventView, cache: Seq<(Seq<char>, Seq<char>)>) -> (
    SessionView,
    ActionView,
) {
    let mime = content_type(s.target);
    match (s.stage, e) {
        (StageView::ProbingDirectory, EventView::Flag(true)) => probing(s, IndexFile::Html),
        (StageView::ProbingDirectory, EventView::Flag(false)) => (
            at_stage(s, StageView::ReadingAsset),
            if is_textual(mime) {
                ActionView::ReadText(s.target)
            } else {
                ActionView::ReadBytes(s.target)
            },
        ),
        (StageView::ProbingIndex(which), EventView::Flag(true)) => (
            at_stage(s, StageView::ReadingIndex(which)),
            ActionView::ReadText(joined(s.target, index_name(which))),
        ),
        (StageView::ProbingIndex(IndexFile::Html), EventView::Flag(false)) => probing(
            s,
            IndexFile::Markdown,
        ),
        (StageView::ReadingIndex(IndexFile::Html), EventView::Text(Some(t))) => composing(
            s,
            t,
            cache,
        ),
        (StageView::ReadingIndex(IndexFile::Html), EventView::Text(None)) => probing(
            s,
            IndexFile::Markdown,
        ),
        (StageView::ReadingIndex(IndexFile::Markdown), EventView::Text(Some(md))) => (
            at_stage(s, StageView::ReadingShell(markdown_html(md))),
            ActionView::ReadText(shell_file()),
        ),
        (StageView::ReadingShell(rendered), EventView::Text(Some(shell))) => composing(
            s,
            wrapped(shell, rendered),
            cache,
        ),
        (StageView::ReadingFragment(k, working), EventView::Text(found)) => {
            let w = substituted(working, fragment_name(k), found);
            if k >= 2 {
                answered(s, page(w))
            } else {
                (
                    at_stage(s, StageView::ReadingFragment(k + 1, w)),
                    ActionView::ReadText(fragment_file(fragment_name(k + 1))),
                )
            }
        },
        (StageView::ReadingAsset, EventView::Text(Some(t))) => if !is_textual(mime) {
            failed(s)
        } else if is_html(mime) {
            composing(s, t, cache)
        } else {
            answered(s, ok_document(mime, BodyView::Text(t)))
        },
        (StageView::ReadingAsset, EventView::Bytes(Some(b))) => if is_textual(mime) {
            failed(s)
        } else {
            answered(s, ok_document(mime, BodyView::Binary(b)))
        },
        _ => failed(s),
    }
}

/// The response to a refused path.
pub fn forbidden() -> (doc: ServedDocument)
    ensures
        doc@ == forbidden_document(),
{
    ServedDocument {
        status: Status::Forbidden,
        content_type: None,
        body: Body::Text("Invalid or unsafe path".to_owned()),
    }
}

/// The response where nothing can be served.
pub fn not_found() -> (doc: ServedDocument)
    ensures
        doc@ == not_found_document(),
{
    ServedDocument {
        status: Status::NotFound,
        content_type: None,
        body: Body::Text("File not found".to_owned()),
    }
}

/// A successful response with an HTML page.
pub fn html_page(body: &[char]) -> (doc: ServedDocument)
    ensures
        doc@ == page(body@),
{
    ServedDocument {
        status: Status::Success,
        content_type: Some("text/html; charset=utf-8".to_owned()),
        body: Body::Text(from_chars(body)),
    }
}

/// The name of an index file.
pub fn index_file_name(which: IndexFile) -> (r: &'static str)
    ensures
        r@ == index_name(which),
{
    match which {
        IndexFile::Html => "index.html",
        IndexFile::Markdown => "main.md",
    }
}

fn fail(target: Vec<char>, live: bool) -> (r: (Session, Action))
    ensures
        r.0@ == (SessionView { target: target@, live, stage: StageView::Finished }),
        r.1@ == ActionView::Respond(not_found_document()),
{
    (Session { target, live, stage: Stage::Finished }, Action::Respond(not_found()))
}

fn answer(target: Vec<char>, live: bool, doc: ServedDocument) -> (r: (Session, Action))
    ensures
        r.0@ == (SessionView { target: target@, live, stage: StageView::Finished }),
        r.1@ == ActionView::Respond(doc@),
{
    (Session { target, live, stage: Stage::Finished }, Action::Respond(doc))
}

fn probe(target: Vec<char>, live: bool, which: IndexFile) -> (r: (Session, Action))
    ensures
        r.0@ == (SessionView { target: target@, live, stage: StageView::ProbingIndex(which) }),
        r.1@ == ActionView::Exists(joined(target@, index_name(which))),
{
    let name = to_chars(index_file_name(which));
    let candidate = join(target.as_slice(), name.as_slice());
    let path = from_chars(candidate.as_slice());
    (Session { target, live, stage: Stage::ProbingIndex(which) }, Action::Exists(path))
}

fn compose(target: Vec<char>, live: bool, t: Vec<char>, cache: &FragmentCache) -> (r: (
    Session,
    Action,
))
    ensures
        (r.0@, r.1@) == composing(
            SessionView { target: target@, live, stage: StageView::Finished },
            t@,
            cache@,
        ),
{
    if live {
        let path = fragment_path(name_of(0));
        (Session { target, live, stage: Stage::ReadingFragment(0, t) }, Action::ReadText(path))
    } else {
        let body = cache.compose_chars(t);
        answer(target, live, html_page(body.as_slice()))
    }
}

impl Session {
    /// Begins to serve `raw_path` under `base_dir`. An empty path and `/`
    /// stand for the base directory itself. Every other path must pass the
    /// sanitizer: if it does not, the response is forbidden and nothing is
    /// asked of the disk. Otherwise the first action asks whether the
    /// resolved location is a directory.
    pub fn open(base_dir: &str, raw_path: &str, live: bool) -> (r: (Session, Action))
        ensures
            (r.0@, r.1@) == opened(base_dir@, raw_path@, live),
    {
        let base = to_chars(base_dir);
        let raw = to_chars(raw_path);
        let rel: Option<Vec<char>> = if raw.len() == 0 || spells(raw.as_slice(), "/") {
            Some(Vec::new())
        } else {
            sanitize_chars(raw.as_slice())
        };
        match rel {
            None => (
                Session { target: base, live, stage: Stage::Finished },
                Action::Respond(forbidden()),
            ),
            Some(p) => {
                let target = join(base.as_slice(), p.as_slice());
                let path = from_chars(target.as_slice());
                (
                    Session { target, live, stage: Stage::ProbingDirectory },
                    Action::IsDirectory(path),
                )
            },
        }
    }

    /// Takes what the last action found and decides what comes next.
    pub fn step(self, event: Event, cache: &FragmentCache) -> (r: (Session, Action))
        ensures
            (r.0@, r.1@) == next(self@, event@, cache@),
    {
        let Session { target, live, stage } = self;
        match stage {
            Stage::ProbingDirectory => match event {
                Event::Flag(true) => probe(target, live, IndexFile::Html),
                Event::Flag(false) => {
                    let mime = content_type_of(target.as_slice());
                    let path = from_chars(target.as_slice());
                    let action = if textual(mime) {
                        Action::ReadText(path)
                    } else {
                        Action::ReadBytes(path)
                    };
                    (Session { target, live, stage: Stage::ReadingAsset }, action)
                },
                _ => fail(target, live),
            },
            Stage::ProbingIndex(which) => match event {
                Event::Flag(true) => {
                    let name = to_chars(index_file_name(which));
                    let candidate = join(target.as_slice(), name.as_slice());
                    let path = from_chars(candidate.as_slice());
                    (
                        Session { target, live, stage: Stage::ReadingIndex(which) },
                        Action::ReadText(path),
                    )
                },
                Event::Flag(false) => match which {
                    IndexFile::Html => probe(target, live, IndexFile::Markdown),
                    IndexFile::Markdown => fail(target, live),
                },
                _ => fail(target, live),
            },
            Stage::ReadingIndex(IndexFile::Html) => match event {
                Event::Text(Some(t)) => compose(target, live, to_chars(t.as_str()), cache),
                Event::Text(None) => probe(target, live, IndexFile::Markdown),
                _ => fail(target, live),
            },
            Stage::ReadingIndex(IndexFile::Markdown) => match event {
                Event::Text(Some(md)) => {
                    let rendered = render_markdown(md.as_str());
                    let shell = to_chars("Frontend/static/wikishell.html");
                    (
                        Session {
                            target,
                            live,
                            stage: Stage::ReadingShell(to_chars(rendered.as_str())),
                        },
                        Action::ReadText(from_chars(shell.as_slice())),
                    )
                },
                _ => fail(target, live),
            },
            Stage::ReadingShell(rendered) => match event {
                Event::Text(Some(shell)) => {
                    let s = to_chars(shell.as_str());
                    let t = wrap_chars(s.as_slice(), rendered.as_slice());
                    compose(target, live, t, cache)
                },
                _ => fail(target, live),
            },
            Stage::ReadingFragment(k, working) => match event {
                Event::Text(found) => {
                    let html = match found {
                        Some(h) => Some(to_chars(h.as_str())),
                        None => None,
                    };
                    let w = substitute(working, name_of(k), &html);
                    if k >= 2 {
                        answer(target, live, html_page(w.as_slice()))
                    } else {
                        let path = fragment_path(name_of(k + 1));
                        (
                            Session { target, live, stage: Stage::ReadingFragment(k + 1, w) },
                            Action::ReadText(path),
                        )
                    }
                },
                _ => fail(target, live),
            },
            Stage::ReadingAsset => {
                let mime = content_type_of(target.as_slice());
                match event {
                    Event::Text(Some(t)) => {
                        if !textual(mime) {
                            fail(target, live)
                        } else if html(mime) {
                            compose(target, live, to_chars(t.as_str()), cache)
                        } else {
                            let doc = ServedDocument {
                                status: Status::Success,
                                content_type: Some(mime.to_owned()),
                                body: Body::Text(t),
                            };
                            answer(target, live, doc)
                        }
                    },
                    Event::Bytes(Some(b)) => {
                        if textual(mime) {
                            fail(target, live)
                        } else {
                            let doc = ServedDocument {
                                status: Status::Success,
                                content_type: Some(mime.to_owned()),
                                body: Body::Binary(b),
                            };
                            answer(target, live, doc)
                        }
                    },
                    _ => fail(target, live),
                }
            },
            Stage::Finished => fail(target, live),
        }
    }
}

} // verus!
