//! A content tree held in memory, and serving a request from it.

use vstd::prelude::*;
use crate::disk::{actions_left, found, lemma_step_progress, outcome, served, Disk};
use crate::fragments::FragmentCache;
use crate::path::text_of;
use crate::responder::{Action, Event, ServedDocument, Session};

verus! {

/// One file or directory of the tree. A file may be readable as text, as
/// bytes, both or neither.
#[derive(Debug)]
pub struct FileNode {
    pub path: String,
    pub directory: bool,
    pub text: Option<String>,
    pub bytes: Option<Vec<u8>>,
}

/// A content tree. Of several nodes with one path the first counts.
#[derive(Debug)]
pub struct Snapshot {
    pub nodes: Vec<FileNode>,
}

/// The first node with the given path.
pub open spec fn node_at(nodes: Seq<FileNode>, path: Seq<char>) -> Option<FileNode>
    decreases nodes.len(),
{
    if nodes.len() == 0 {
        None
    } else if nodes[0].path@ == path {
        Some(nodes[0])
    } else {
        node_at(nodes.subrange(1, nodes.len() as int), path)
    }
}

/// The bytes of an optional vector.
pub open spec fn bytes_of(o: Option<Vec<u8>>) -> Option<Seq<u8>> {
    match o {
        Some(v) => Some(v@),
        None => None,
    }
}

impl View for Snapshot {
    type V = Disk;

    open spec fn view(&self) -> Disk {
        let nodes = self.nodes@;
        Disk {
            directories: Set::new(
                |p: Seq<char>| node_at(nodes, p).is_some() && node_at(nodes, p).unwrap().directory,
            ),
            present: Set::new(|p: Seq<char>| node_at(nodes, p).is_some()),
            texts: Map::new(
                |p: Seq<char>| node_at(nodes, p).is_some() && node_at(nodes, p).unwrap().text.is_some(),
                |p: Seq<char>| node_at(nodes, p).unwrap().text.unwrap()@,
            ),
            blobs: Map::new(
                |p: Seq<char>|
                    node_at(nodes, p).is_some() && node_at(nodes, p).unwrap().bytes.is_some(),
                |p: Seq<char>| node_at(nodes, p).unwrap().bytes.unwrap()@,
            ),
        }
    }
}

impl Snapshot {
    /// The position of the first node with the given path.
    pub fn find(&self, path: &String) -> (r: Option<usize>)
        ensures
            match r {
                Some(i) => i < self.nodes@.len() && node_at(self.nodes@, path@) == Some(
                    self.nodes@[i as int],
                ),
                None => node_at(self.nodes@, path@).is_none(),
            },
    {
        let mut i: usize = 0;
        let n: usize = self.nodes.len();
        assert(self.nodes@.subrange(0, n as int) =~= self.nodes@);
        while i < n
            invariant
                n == self.nodes@.len(),
                i <= n,
                node_at(self.nodes@.subrange(i as int, n as int), path@) == node_at(
                    self.nodes@,
                    path@,
                ),
            decreases n - i,
        {
            let ghost rest = self.nodes@.subrange(i as int, n as int);
            assert(rest[0] == self.nodes@[i as int]);
            assert(rest.subrange(1, rest.len() as int) =~= self.nodes@.subrange(i + 1, n as int));
            if self.nodes[i].path == *path {
                return Some(i);
            }
            i += 1;
        }
        None
    }

    /// What an action finds in this tree. A response finds nothing.
    pub fn answer(&self, action: &Action) -> (event: Event)
        ensures
            event@ == found(self@, action@),
    {
        match action {
            Action::IsDirectory(p) => match self.find(p) {
                Some(i) => Event::Flag(self.nodes[i].directory),
                None => Event::Flag(false),
            },
            Action::Exists(p) => match self.find(p) {
                Some(_) => Event::Flag(true),
                None => Event::Flag(false),
            },
            Action::ReadText(p) => match self.find(p) {
                Some(i) => {
                    let t = self.nodes[i].text.clone();
                    assert(text_of(t) == text_of(self.nodes@[i as int].text));
                    Event::Text(t)
                },
                None => Event::Text(None),
            },
            Action::ReadBytes(p) => match self.find(p) {
                Some(i) => {
                    let b = self.nodes[i].bytes.clone();
                    assert(bytes_of(b) == bytes_of(self.nodes@[i as int].bytes));
                    Event::Bytes(b)
                },
                None => Event::Bytes(None),
            },
            Action::Respond(_) => Event::Flag(false),
        }
    }
}

/// Serves `path` under `base_dir` from a content tree in memory: the
/// response is the one that the responder reaches when each of its actions
/// is answered from the tree.
pub fn serve_path(
    base_dir: &str,
    path: &str,
    cache: &FragmentCache,
    live: bool,
    tree: &Snapshot,
) -> (doc: ServedDocument)
    ensures
        served(tree@, base_dir@, path@, live, cache@) == Some(doc@),
{
    let (session, action) = Session::open(base_dir, path, live);
    let mut session = session;
    let mut action = action;
    let mut budget: usize = 9;
    loop
        invariant
            budget <= 9,
            action@ is Respond || actions_left(session@.stage) <= budget,
            outcome(tree@, session@, action@, cache@, budget as nat) == served(
                tree@,
                base_dir@,
                path@,
                live,
                cache@,
            ),
        decreases budget,
    {
        match action {
            Action::Respond(doc) => {
                return doc;
            },
            other => {
                let event = tree.answer(&other);
                proof {
                    lemma_step_progress(session@, event@, cache@);
                }
                let (s, a) = session.step(event, cache);
                session = s;
                action = a;
                budget = budget - 1;
            },
        }
    }
}

} // verus!
