//! A model of the disk, and what the responder serves when its actions are
//! answered from it.

use vstd::prelude::*;
use crate::fragments::{composed, fragment_file, fragment_name, lookup};
use crate::markup::{markdown_html, wrapped};
use crate::mime::{content_type, is_html, is_textual};
use crate::path::{has_parent_segment, is_absolute, joined, trimmed};
use crate::responder::{
    composing, forbidden_document, index_name, next, not_found_document, ok_document, opened,
    page, relative_path, shell_file, ActionView, BodyView, DocumentView, EventView, IndexFile,
    SessionView, StageView,
};

verus! {

/// What is on disk: the directories, everything that exists, and the files
/// that can be read as text and as bytes.
pub struct Disk {
    pub directories: Set<Seq<char>>,
    pub present: Set<Seq<char>>,
    pub texts: Map<Seq<char>, Seq<char>>,
    pub blobs: Map<Seq<char>, Seq<u8>>,
}

/// The text of a file, if it can be read.
pub open spec fn read_text(disk: Disk, path: Seq<char>) -> Option<Seq<char>> {
    if disk.texts.dom().contains(path) {
        Some(disk.texts[path])
    } else {
        None
    }
}

/// The bytes of a file, if it can be read.
pub open spec fn read_bytes(disk: Disk, path: Seq<char>) -> Option<Seq<u8>> {
    if disk.blobs.dom().contains(path) {
        Some(disk.blobs[path])
    } else {
        None
    }
}

/// What an action finds on this disk.
pub open spec fn found(disk: Disk, action: ActionView) -> EventView {
    match action {
        ActionView::IsDirectory(p) => EventView::Flag(disk.directories.contains(p)),
        ActionView::Exists(p) => EventView::Flag(disk.present.contains(p)),
        ActionView::ReadText(p) => EventView::Text(read_text(disk, p)),
        ActionView::ReadBytes(p) => EventView::Bytes(read_bytes(disk, p)),
        ActionView::Respond(_) => EventView::Flag(false),
    }
}

/// The response that a session reaches when at most `budget` actions are
/// answered from the disk.
pub open spec fn outcome(
    disk: Disk,
    s: SessionView,
    action: ActionView,
    cache: Seq<(Seq<char>, Seq<char>)>,
    budget: nat,
) -> Option<DocumentView>
    decreases budget,
{
    match action {
        ActionView::Respond(doc) => Some(doc),
        _ => if budget == 0 {
            None
        } else {
            let n = next(s, found(disk, action), cache);
            outcome(disk, n.0, n.1, cache, (budget - 1) as nat)
        },
    }
}

/// The most actions that a request can need before its response.
pub open spec fn action_limit() -> nat {
    9
}

/// The response to a request on this disk.
pub open spec fn served(
    disk: Disk,
    base: Seq<char>,
    raw: Seq<char>,
    live: bool,
    cache: Seq<(Seq<char>, Seq<char>)>,
) -> Option<DocumentView> {
    let o = opened(base, raw, live);
    outcome(disk, o.0, o.1, cache, action_limit())
}

/// The fragment with this number as a request sees it: read from disk when
/// the session is live, taken from the cache otherwise.
pub open spec fn fragment_source(
    disk: Disk,
    live: bool,
    cache: Seq<(Seq<char>, Seq<char>)>,
    k: int,
) -> Option<Seq<char>> {
    if live {
        read_text(disk, fragment_file(fragment_name(k)))
    } else {
        lookup(cache, fragment_name(k))
    }
}

/// A template composed with the fragments as a request sees them.
pub open spec fn composed_on(
    disk: Disk,
    live: bool,
    cache: Seq<(Seq<char>, Seq<char>)>,
    t: Seq<char>,
) -> Seq<char> {
    composed(
        t,
        fragment_source(disk, live, cache, 0),
        fragment_source(disk, live, cache, 1),
        fragment_source(disk, live, cache, 2),
    )
}

/// How many actions a stage can still need.
pub open spec fn actions_left(stage: StageView) -> nat {
    match stage {
        StageView::ProbingDirectory => 9,
        StageView::ProbingIndex(IndexFile::Html) => 8,
        StageView::ReadingIndex(IndexFile::Html) => 7,
        StageView::ProbingIndex(IndexFile::Markdown) => 6,
        StageView::ReadingIndex(IndexFile::Markdown) => 5,
        StageView::ReadingShell(_) => 4,
        StageView::ReadingAsset => 4,
        StageView::ReadingFragment(k, _) => if k <= 2 {
            (3 - k) as nat
        } else {
            1
        },
        StageView::Finished => 1,
    }
}

/// Every step either hands out the response or leaves fewer actions to
/// come.
pub proof fn lemma_step_progress(s: SessionView, e: EventView, cache: Seq<(Seq<char>, Seq<char>)>)
    ensures
        next(s, e, cache).1 is Respond || actions_left(next(s, e, cache).0.stage) < actions_left(
            s.stage,
        ),
{
}

/// A session is answered within the actions that its stage has left.
pub proof fn lemma_outcome_exists(
    disk: Disk,
    s: SessionView,
    action: ActionView,
    cache: Seq<(Seq<char>, Seq<char>)>,
    budget: nat,
)
    requires
        action is Respond || actions_left(s.stage) <= budget,
    ensures
        outcome(disk, s, action, cache, budget).is_some(),
    decreases budget,
{
    if !(action is Respond) {
        let n = next(s, found(disk, action), cache);
        lemma_step_progress(s, found(disk, action), cache);
        lemma_outcome_exists(disk, n.0, n.1, cache, (budget - 1) as nat);
    }
}

/// Every request is answered, whatever is on disk, after at most nine
/// actions.
pub proof fn lemma_every_request_is_answered(
    disk: Disk,
    base: Seq<char>,
    raw: Seq<char>,
    live: bool,
    cache: Seq<(Seq<char>, Seq<char>)>,
)
    ensures
        served(disk, base, raw, live, cache).is_some(),
{
    let o = opened(base, raw, live);
    lemma_outcome_exists(disk, o.0, o.1, cache, action_limit());
}

/// The response to a request is determined by the disk, the request and
/// the cache: a request that is repeated on unchanged content is answered
/// with the same document.
pub proof fn lemma_response_is_determined(
    disk: Disk,
    base: Seq<char>,
    raw: Seq<char>,
    live: bool,
    cache: Seq<(Seq<char>, Seq<char>)>,
    first: DocumentView,
    second: DocumentView,
)
    requires
        served(disk, base, raw, live, cache) == Some(first),
        served(disk, base, raw, live, cache) == Some(second),
    ensures
        first == second,
{
}

/// The relative path of a request is never absolute, has no `..` segment,
/// and is empty only for a request of the root.
pub proof fn lemma_relative_path_is_safe(raw: Seq<char>)
    requires
        relative_path(raw).is_some(),
    ensures
        !is_absolute(relative_path(raw).unwrap()),
        !has_parent_segment(relative_path(raw).unwrap()),
        relative_path(raw).unwrap().len() == 0 <==> (raw.len() == 0 || raw == "/"@),
{
    let rel = relative_path(raw).unwrap();
    if raw.len() == 0 || raw == "/"@ {
        assert forall|i: int| !crate::path::parent_segment_at(rel, i) by {}
    }
}

/// The location that a request resolves to lies under its base directory:
/// unless the base directory itself has a `..` segment, the location has
/// none.
pub proof fn lemma_target_stays_under_base(base: Seq<char>, raw: Seq<char>, live: bool)
    requires
        relative_path(raw).is_some(),
        !has_parent_segment(base),
    ensures
        !has_parent_segment(opened(base, raw, live).0.target),
        crate::text::starts_with(opened(base, raw, live).0.target, base),
{
    lemma_relative_path_is_safe(raw);
    crate::path::lemma_join_stays_inside(base, relative_path(raw).unwrap());
}

/// A request whose trimmed path has a `..` segment is answered as forbidden
/// at once: no action on the disk comes before the response.
pub proof fn lemma_traversal_is_forbidden(base: Seq<char>, raw: Seq<char>, live: bool)
    requires
        has_parent_segment(trimmed(raw)),
    ensures
        opened(base, raw, live).1 == ActionView::Respond(forbidden_document()),
{
    reveal_strlit("/");
    let i = choose|i: int| crate::path::parent_segment_at(trimmed(raw), i);
    assert(trimmed(raw).len() >= 2);
    if raw.len() == 0 {
        assert(trimmed(raw) =~= raw);
    } else if raw == "/"@ {
        assert(raw.len() == 1 && raw[0] == '/');
        assert(!crate::path::is_space('/'));
        assert(crate::path::trim_front(raw) == raw);
        assert(trimmed(raw) == raw);
    }
}

/// A request for an absolute path, other than `/` itself, is answered as
/// forbidden at once.
pub proof fn lemma_absolute_is_forbidden(base: Seq<char>, raw: Seq<char>, live: bool)
    requires
        is_absolute(trimmed(raw)),
        raw != "/"@,
    ensures
        opened(base, raw, live).1 == ActionView::Respond(forbidden_document()),
{
    if raw.len() == 0 {
        assert(trimmed(raw) =~= raw);
    }
}

/// Composition ends in an HTML page that holds the template with the
/// fragments as the request sees them.
pub proof fn lemma_composing_outcome(
    disk: Disk,
    s: SessionView,
    t: Seq<char>,
    cache: Seq<(Seq<char>, Seq<char>)>,
    budget: nat,
)
    requires
        budget >= 3,
    ensures
        outcome(disk, composing(s, t, cache).0, composing(s, t, cache).1, cache, budget) == Some(
            page(composed_on(disk, s.live, cache, t)),
        ),
{
    reveal_with_fuel(outcome, 4);
}

/// A directory that holds a readable `index.html` is served as that file's
/// text composed with the fragments, whether or not it holds a `main.md`.
pub proof fn lemma_index_page_is_served(
    disk: Disk,
    base: Seq<char>,
    raw: Seq<char>,
    live: bool,
    cache: Seq<(Seq<char>, Seq<char>)>,
)
    requires
        relative_path(raw).is_some(),
        disk.directories.contains(joined(base, relative_path(raw).unwrap())),
        disk.present.contains(
            joined(joined(base, relative_path(raw).unwrap()), index_name(IndexFile::Html)),
        ),
        disk.texts.dom().contains(
            joined(joined(base, relative_path(raw).unwrap()), index_name(IndexFile::Html)),
        ),
    ensures
        served(disk, base, raw, live, cache) == Some(
            page(
                composed_on(
                    disk,
                    live,
                    cache,
                    disk.texts[joined(
                        joined(base, relative_path(raw).unwrap()),
                        index_name(IndexFile::Html),
                    )],
                ),
            ),
        ),
{
    reveal_with_fuel(outcome, 4);
    let target = joined(base, relative_path(raw).unwrap());
    let s = SessionView { target, live, stage: StageView::ReadingIndex(IndexFile::Html) };
    let t = disk.texts[joined(target, index_name(IndexFile::Html))];
    lemma_composing_outcome(disk, s, t, cache, 6);
}

/// A directory without `index.html` that holds a readable `main.md` is
/// served as the rendered markdown inside the shell template, composed with
/// the fragments.
pub proof fn lemma_markdown_page_is_served(
    disk: Disk,
    base: Seq<char>,
    raw: Seq<char>,
    live: bool,
    cache: Seq<(Seq<char>, Seq<char>)>,
)
    requires
        relative_path(raw).is_some(),
        disk.directories.contains(joined(base, relative_path(raw).unwrap())),
        !disk.present.contains(
            joined(joined(base, relative_path(raw).unwrap()), index_name(IndexFile::Html)),
        ),
        disk.present.contains(
            joined(joined(base, relative_path(raw).unwrap()), index_name(IndexFile::Markdown)),
        ),
        disk.texts.dom().contains(
            joined(joined(base, relative_path(raw).unwrap()), index_name(IndexFile::Markdown)),
        ),
        disk.texts.dom().contains(shell_file()),
    ensures
        served(disk, base, raw, live, cache) == Some(
            page(
                composed_on(
                    disk,
                    live,
                    cache,
                    wrapped(
                        disk.texts[shell_file()],
                        markdown_html(
                            disk.texts[joined(
                                joined(base, relative_path(raw).unwrap()),
                                index_name(IndexFile::Markdown),
                            )],
                        ),
                    ),
                ),
            ),
        ),
{
    reveal_with_fuel(outcome, 6);
    let target = joined(base, relative_path(raw).unwrap());
    let md = disk.texts[joined(target, index_name(IndexFile::Markdown))];
    let s = SessionView { target, live, stage: StageView::ReadingShell(markdown_html(md)) };
    let t = wrapped(disk.texts[shell_file()], markdown_html(md));
    lemma_composing_outcome(disk, s, t, cache, 4);
}

/// An index file is read only after it was found to exist.
pub proof fn lemma_index_is_probed_before_read(
    s: SessionView,
    e: EventView,
    cache: Seq<(Seq<char>, Seq<char>)>,
    which: IndexFile,
)
    requires
        next(s, e, cache).0.stage == StageView::ReadingIndex(which),
    ensures
        s.stage == StageView::ProbingIndex(which),
        e == EventView::Flag(true),
{
}

/// A file with the content type of HTML is served composed with the
/// fragments.
pub proof fn lemma_html_asset_is_composed(
    disk: Disk,
    base: Seq<char>,
    raw: Seq<char>,
    live: bool,
    cache: Seq<(Seq<char>, Seq<char>)>,
)
    requires
        relative_path(raw).is_some(),
        !disk.directories.contains(joined(base, relative_path(raw).unwrap())),
        disk.texts.dom().contains(joined(base, relative_path(raw).unwrap())),
        is_textual(content_type(joined(base, relative_path(raw).unwrap()))),
        is_html(content_type(joined(base, relative_path(raw).unwrap()))),
    ensures
        served(disk, base, raw, live, cache) == Some(
            page(
                composed_on(disk, live, cache, disk.texts[joined(base, relative_path(raw).unwrap())]),
            ),
        ),
{
    reveal_with_fuel(outcome, 3);
    let target = joined(base, relative_path(raw).unwrap());
    let s = SessionView { target, live, stage: StageView::ReadingAsset };
    lemma_composing_outcome(disk, s, disk.texts[target], cache, 7);
}

/// A file with a textual content type other than HTML is served as its own
/// text: nothing is substituted into it.
pub proof fn lemma_text_asset_is_served_unchanged(
    disk: Disk,
    base: Seq<char>,
    raw: Seq<char>,
    live: bool,
    cache: Seq<(Seq<char>, Seq<char>)>,
)
    requires
        relative_path(raw).is_some(),
        !disk.directories.contains(joined(base, relative_path(raw).unwrap())),
        disk.texts.dom().contains(joined(base, relative_path(raw).unwrap())),
        is_textual(content_type(joined(base, relative_path(raw).unwrap()))),
        !is_html(content_type(joined(base, relative_path(raw).unwrap()))),
    ensures
        served(disk, base, raw, live, cache) == Some(
            ok_document(
                content_type(joined(base, relative_path(raw).unwrap())),
                BodyView::Text(disk.texts[joined(base, relative_path(raw).unwrap())]),
            ),
        ),
{
    reveal_with_fuel(outcome, 4);
}

/// A file with any other content type is served as its own bytes.
pub proof fn lemma_binary_asset_is_passed_through(
    disk: Disk,
    base: Seq<char>,
    raw: Seq<char>,
    live: bool,
    cache: Seq<(Seq<char>, Seq<char>)>,
)
    requires
        relative_path(raw).is_some(),
        !disk.directories.contains(joined(base, relative_path(raw).unwrap())),
        disk.blobs.dom().contains(joined(base, relative_path(raw).unwrap())),
        !is_textual(content_type(joined(base, relative_path(raw).unwrap()))),
    ensures
        served(disk, base, raw, live, cache) == Some(
            ok_document(
                content_type(joined(base, relative_path(raw).unwrap())),
                BodyView::Binary(disk.blobs[joined(base, relative_path(raw).unwrap())]),
            ),
        ),
{
    reveal_with_fuel(outcome, 4);
}

/// A path that passes the sanitizer and names nothing on disk is answered
/// as not found.
pub proof fn lemma_missing_is_not_found(
    disk: Disk,
    base: Seq<char>,
    raw: Seq<char>,
    live: bool,
    cache: Seq<(Seq<char>, Seq<char>)>,
)
    requires
        relative_path(raw).is_some(),
        !disk.directories.contains(joined(base, relative_path(raw).unwrap())),
        !disk.texts.dom().contains(joined(base, relative_path(raw).unwrap())),
        !disk.blobs.dom().contains(joined(base, relative_path(raw).unwrap())),
    ensures
        served(disk, base, raw, live, cache) == Some(not_found_document()),
{
    reveal_with_fuel(outcome, 4);
}

/// A directory that holds neither index file is answered as not found.
pub proof fn lemma_empty_directory_is_not_found(
    disk: Disk,
    base: Seq<char>,
    raw: Seq<char>,
    live: bool,
    cache: Seq<(Seq<char>, Seq<char>)>,
)
    requires
        relative_path(raw).is_some(),
        disk.directories.contains(joined(base, relative_path(raw).unwrap())),
        !disk.present.contains(
            joined(joined(base, relative_path(raw).unwrap()), index_name(IndexFile::Html)),
        ),
        !disk.present.contains(
            joined(joined(base, relative_path(raw).unwrap()), index_name(IndexFile::Markdown)),
        ),
    ensures
        served(disk, base, raw, live, cache) == Some(not_found_document()),
{
    reveal_with_fuel(outcome, 5);
}

} // verus!
