//! The three content roots and the part of a URL path that is resolved
//! under each.

use vstd::prelude::*;
use crate::text::{from_chars, matches_at, starts_with, to_chars};

verus! {

/// The directory trees that requests are served from.
#[derive(Clone, Copy, Debug, PartialEq, Eq, Structural)]
pub enum Root {
    /// Wiki content, reached under `/wiki/`.
    Content,
    /// Static assets, reached under `/static/`.
    Assets,
    /// Pages, reached by every other path.
    Pages,
}

/// The directory of a root.
pub open spec fn base_dir(root: Root) -> Seq<char> {
    match root {
        Root::Content => "Data"@,
        Root::Assets => "Frontend/static"@,
        Root::Pages => "Frontend/pages"@,
    }
}

/// The URL prefix under which a root is reached.
pub open spec fn url_prefix(root: Root) -> Seq<char> {
    match root {
        Root::Content => "/wiki/"@,
        Root::Assets => "/static/"@,
        Root::Pages => "/"@,
    }
}

/// `s` without its leading separators.
pub open spec fn without_leading_slashes(s: Seq<char>) -> Seq<char>
    decreases s.len(),
{
    if s.len() > 0 && s[0] == '/' {
        without_leading_slashes(s.subrange(1, s.len() as int))
    } else {
        s
    }
}

/// The path that is resolved under a root for a URL path: what follows the
/// root's prefix. A URL path without the prefix stands for the root itself,
/// except under the assets root, where it is taken whole; under the assets
/// root leading separators are dropped.
pub open spec fn routed(root: Root, url: Seq<char>) -> Seq<char> {
    let prefix = url_prefix(root);
    let rest = if starts_with(url, prefix) {
        url.subrange(prefix.len() as int, url.len() as int)
    } else if root == Root::Assets {
        url
    } else {
        Seq::empty()
    };
    if root == Root::Assets {
        without_leading_slashes(rest)
    } else {
        rest
    }
}

/// The directory of a root.
pub fn base_directory(root: Root) -> (r: &'static str)
    ensures
        r@ == base_dir(root),
{
    match root {
        Root::Content => "Data",
        Root::Assets => "Frontend/static",
        Root::Pages => "Frontend/pages",
    }
}

/// The path to resolve under `root` for the URL path `url`.
pub fn request_path(root: Root, url: &str) -> (r: String)
    ensures
        r@ == routed(root, url@),
{
    let prefix = to_chars(
        match root {
            Root::Content => "/wiki/",
            Root::Assets => "/static/",
            Root::Pages => "/",
        },
    );
    let u = to_chars(url);
    let assets = match root {
        Root::Assets => true,
        _ => false,
    };
    let mut from: usize = if matches_at(u.as_slice(), prefix.as_slice(), 0) {
        prefix.len()
    } else if assets {
        0
    } else {
        u.len()
    };
    let ghost rest = u@.subrange(from as int, u@.len() as int);
    if assets {
        while from < u.len() && u[from] == '/'
            invariant
                from <= u.len(),
                without_leading_slashes(u@.subrange(from as int, u@.len() as int))
                    == without_leading_slashes(rest),
            decreases u.len() - from,
        {
            assert(u@.subrange(from as int, u@.len() as int).subrange(1, u@.len() - from)
                =~= u@.subrange(from + 1, u@.len() as int));
            from += 1;
        }
    }
    let mut out: Vec<char> = Vec::new();
    let mut i: usize = from;
    while i < u.len()
        invariant
            from <= i <= u.len(),
            out@ == u@.subrange(from as int, i as int),
        decreases u.len() - i,
    {
        out.push(u[i]);
        assert(u@.subrange(from as int, i + 1) =~= u@.subrange(from as int, i as int).push(
            u@[i as int],
        ));
        i += 1;
    }
    assert(u@.subrange(0, u@.len() as int) =~= u@);
    assert(u@.subrange(u@.len() as int, u@.len() as int) =~= Seq::<char>::empty());
    from_chars(out.as_slice())
}

} // verus!
