//! Content types, inferred from a path's extension.

use vstd::prelude::*;
use crate::path::{extension, extension_of};
use crate::text::{contains, has_occurrence, matches_at, same, starts_with, to_chars};

verus! {

/// The extensions that have a content type of their own.
pub open spec fn known_extension(e: Seq<char>) -> bool {
    e == "html"@ || e == "htm"@ || e == "md"@ || e == "css"@ || e == "js"@ || e == "json"@ || e
        == "png"@ || e == "jpg"@ || e == "jpeg"@ || e == "gif"@ || e == "svg"@ || e == "webp"@
        || e == "txt"@ || e == "pdf"@ || e == "zip"@
}

/// The content type that belongs to an extension. Extensions are matched
/// exactly, letter case included. Markdown counts as HTML, since it is
/// rendered before it is served.
pub open spec fn mime_of(ext: Option<Seq<char>>) -> Seq<char> {
    match ext {
        None => "application/octet-stream"@,
        Some(e) => if e == "html"@ || e == "htm"@ || e == "md"@ {
            "text/html; charset=utf-8"@
        } else if e == "css"@ {
            "text/css; charset=utf-8"@
        } else if e == "js"@ {
            "application/javascript; charset=utf-8"@
        } else if e == "json"@ {
            "application/json; charset=utf-8"@
        } else if e == "png"@ {
            "image/png"@
        } else if e == "jpg"@ || e == "jpeg"@ {
            "image/jpeg"@
        } else if e == "gif"@ {
            "image/gif"@
        } else if e == "svg"@ {
            "image/svg+xml"@
        } else if e == "webp"@ {
            "image/webp"@
        } else if e == "txt"@ {
            "text/plain; charset=utf-8"@
        } else if e == "pdf"@ {
            "application/pdf"@
        } else if e == "zip"@ {
            "application/zip"@
        } else {
            "application/octet-stream"@
        },
    }
}

/// The content type of the file that a path names.
pub open spec fn content_type(path: Seq<char>) -> Seq<char> {
    mime_of(extension(path))
}

/// A content type whose body is served as text.
pub open spec fn is_textual(mime: Seq<char>) -> bool {
    starts_with(mime, "text/"@) || contains(mime, "javascript"@) || contains(mime, "json"@)
}

/// The content type of HTML pages, into which fragments are substituted.
pub open spec fn is_html(mime: Seq<char>) -> bool {
    mime == "text/html; charset=utf-8"@
}

/// An extension outside the table, or none at all, gives the generic binary
/// content type.
pub proof fn lemma_unknown_extension_is_binary(ext: Option<Seq<char>>)
    requires
        ext matches Some(e) ==> !known_extension(e),
    ensures
        mime_of(ext) == "application/octet-stream"@,
{
}

/// Two paths with the same extension have the same content type.
pub proof fn lemma_same_extension_same_type(p: Seq<char>, q: Seq<char>)
    requires
        extension(p) == extension(q),
    ensures
        content_type(p) == content_type(q),
{
}

/// Whether the characters spell the given word.
pub fn spells(chars: &[char], word: &str) -> (r: bool)
    ensures
        r == (chars@ == word@),
{
    let w = to_chars(word);
    same(chars, w.as_slice())
}

/// The content type for an extension.
pub fn mime_for(ext: &Option<Vec<char>>) -> (r: &'static str)
    ensures
        r@ == mime_of(
            match *ext {
                Some(e) => Some(e@),
                None => None,
            },
        ),
{
    match ext {
        None => "application/octet-stream",
        Some(v) => {
            let e = v.as_slice();
            if spells(e, "html") || spells(e, "htm") || spells(e, "md") {
                "text/html; charset=utf-8"
            } else if spells(e, "css") {
                "text/css; charset=utf-8"
            } else if spells(e, "js") {
                "application/javascript; charset=utf-8"
            } else if spells(e, "json") {
                "application/json; charset=utf-8"
            } else if spells(e, "png") {
                "image/png"
            } else if spells(e, "jpg") || spells(e, "jpeg") {
                "image/jpeg"
            } else if spells(e, "gif") {
                "image/gif"
            } else if spells(e, "svg") {
                "image/svg+xml"
            } else if spells(e, "webp") {
                "image/webp"
            } else if spells(e, "txt") {
                "text/plain; charset=utf-8"
            } else if spells(e, "pdf") {
                "application/pdf"
            } else if spells(e, "zip") {
                "application/zip"
            } else {
                "application/octet-stream"
            }
        },
    }
}

/// The content type of a path given as characters.
pub fn content_type_of(path: &[char]) -> (r: &'static str)
    ensures
        r@ == content_type(path@),
{
    let ext = extension_of(path);
    mime_for(&ext)
}

/// The content type of the file that `path` names, by its extension alone.
/// Every path has one: without a known extension it is the generic binary
/// type.
pub fn guess_content_type(path: &str) -> (r: &'static str)
    ensures
        r@ == content_type(path@),
{
    let chars = to_chars(path);
    content_type_of(chars.as_slice())
}

/// Whether a body of this content type is served as text.
pub fn textual(mime: &str) -> (r: bool)
    ensures
        r == is_textual(mime@),
{
    let m = to_chars(mime);
    let t = to_chars("text/");
    let js = to_chars("javascript");
    let json = to_chars("json");
    matches_at(m.as_slice(), t.as_slice(), 0) || has_occurrence(m.as_slice(), js.as_slice()) || has_occurrence(
        m.as_slice(),
        json.as_slice(),
    )
}

/// Whether this is the content type of HTML pages.
pub fn html(mime: &str) -> (r: bool)
    ensures
        r == is_html(mime@),
{
    let m = to_chars(mime);
    spells(m.as_slice(), "text/html; charset=utf-8")
}

} // verus!
