//! Rendering of markdown documents into the page shell.

use vstd::prelude::*;
use crate::text::{from_chars, replace_all, replaced, to_chars};

verus! {

/// The HTML that the markdown renderer gives for a source text, with every
/// extension of the renderer switched on.
pub uninterp spec fn markdown_html(source: Seq<char>) -> Seq<char>;

/// Renders markdown by `pulldown_cmark::html::push_html`, fed by
/// `pulldown_cmark::Parser::new_ext` with `Options::all()`. The contract
/// only names the result: the renderer's output depends on the source text
/// alone, and nothing more is claimed of it.
#[verifier::external_body]
pub(crate) fn render_markdown(source: &str) -> (out: String)
    ensures
        out@ == markdown_html(source@),
{
    let parser = pulldown_cmark::Parser::new_ext(source, pulldown_cmark::Options::all());
    let mut out = String::new();
    pulldown_cmark::html::push_html(&mut out, parser);
    out
}

/// The shell template with rendered content put in place of every
/// `{{ content }}` token.
pub open spec fn wrapped(shell: Seq<char>, rendered: Seq<char>) -> Seq<char> {
    replaced(shell, "{{ content }}"@, rendered)
}

/// Puts rendered content into the shell template, on characters.
pub fn wrap_chars(shell: &[char], rendered: &[char]) -> (out: Vec<char>)
    ensures
        out@ == wrapped(shell@, rendered@),
{
    let token = to_chars("{{ content }}");
    replace_all(shell, token.as_slice(), rendered)
}

/// Puts rendered content into the shell template.
pub fn wrap_rendered(shell: &str, rendered: &str) -> (out: String)
    ensures
        out@ == wrapped(shell@, rendered@),
{
    let s = to_chars(shell);
    let r = to_chars(rendered);
    let out = wrap_chars(s.as_slice(), r.as_slice());
    from_chars(out.as_slice())
}

/// Renders a markdown document and puts the result into the shell template.
pub fn render_md(markdown: &str, shell: &str) -> (out: String)
    ensures
        out@ == wrapped(shell@, markdown_html(markdown@)),
{
    let rendered = render_markdown(markdown);
    wrap_rendered(shell, rendered.as_str())
}

} // verus!
