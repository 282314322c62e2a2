//! Shared HTML fragments and their substitution into page templates.

use vstd::prelude::*;
use crate::text::{from_chars, replace_all, replaced, same, to_chars, contains};

verus! {

/// A named piece of HTML.
struct Fragment {
    name: Vec<char>,
    html: Vec<char>,
}

/// The fragments that were loaded at startup, in the order of loading. Once
/// built, a cache does not change.
pub struct FragmentCache {
    entries: Vec<Fragment>,
}

impl View for FragmentCache {
    type V = Seq<(Seq<char>, Seq<char>)>;

    /// The pairs of name and HTML, in the order of loading.
    closed spec fn view(&self) -> Seq<(Seq<char>, Seq<char>)> {
        Seq::new(self.entries@.len(), |i: int| (self.entries@[i].name@, self.entries@[i].html@))
    }
}

/// The HTML stored under a name: of several entries with that name the last
/// one counts.
pub open spec fn lookup(entries: Seq<(Seq<char>, Seq<char>)>, name: Seq<char>) -> Option<
    Seq<char>,
>
    decreases entries.len(),
{
    if entries.len() == 0 {
        None
    } else if entries.last().0 == name {
        Some(entries.last().1)
    } else {
        lookup(entries.drop_last(), name)
    }
}

/// What was loaded for the `i`-th name: a fragment that could not be loaded
/// is empty.
pub open spec fn loaded_text(loaded: Seq<Option<String>>, i: int) -> Seq<char> {
    if 0 <= i < loaded.len() && loaded[i].is_some() {
        loaded[i].unwrap()@
    } else {
        Seq::empty()
    }
}

/// The three fragment names, in the order in which they are substituted.
pub open spec fn fragment_name(k: int) -> Seq<char> {
    if k == 0 {
        "head"@
    } else if k == 1 {
        "navbar"@
    } else {
        "footer"@
    }
}

/// The file that holds a fragment.
pub open spec fn fragment_file(name: Seq<char>) -> Seq<char> {
    "Frontend/components/"@ + name + ".html"@
}

/// The token that stands for a fragment in a template.
pub open spec fn placeholder(name: Seq<char>) -> Seq<char> {
    "{{ "@ + name + " }}"@
}

/// The template after one fragment was substituted; a fragment that is not
/// available leaves the template as it is.
pub open spec fn substituted(t: Seq<char>, name: Seq<char>, html: Option<Seq<char>>) -> Seq<char> {
    match html {
        Some(h) => replaced(t, placeholder(name), h),
        None => t,
    }
}

/// The template after the three fragments were substituted in their order.
pub open spec fn composed(
    t: Seq<char>,
    head: Option<Seq<char>>,
    navbar: Option<Seq<char>>,
    footer: Option<Seq<char>>,
) -> Seq<char> {
    substituted(
        substituted(substituted(t, fragment_name(0), head), fragment_name(1), navbar),
        fragment_name(2),
        footer,
    )
}

/// The template composed with the fragments of a cache.
pub open spec fn composed_from(t: Seq<char>, cache: Seq<(Seq<char>, Seq<char>)>) -> Seq<char> {
    composed(
        t,
        lookup(cache, fragment_name(0)),
        lookup(cache, fragment_name(1)),
        lookup(cache, fragment_name(2)),
    )
}

/// A template that holds none of the three placeholders is left as it is,
/// whatever the fragments are.
pub proof fn lemma_compose_without_placeholders(
    t: Seq<char>,
    head: Option<Seq<char>>,
    navbar: Option<Seq<char>>,
    footer: Option<Seq<char>>,
)
    requires
        forall|k: int| 0 <= k < 3 ==> !contains(t, placeholder(#[trigger] fragment_name(k))),
    ensures
        composed(t, head, navbar, footer) == t,
{
    assert(!contains(t, placeholder(fragment_name(0))));
    assert(!contains(t, placeholder(fragment_name(1))));
    assert(!contains(t, placeholder(fragment_name(2))));
    if head is Some {
        crate::text::lemma_replaced_absent(t, placeholder(fragment_name(0)), head.unwrap());
    }
    if navbar is Some {
        crate::text::lemma_replaced_absent(t, placeholder(fragment_name(1)), navbar.unwrap());
    }
    if footer is Some {
        crate::text::lemma_replaced_absent(t, placeholder(fragment_name(2)), footer.unwrap());
    }
}

/// The name of the `k`-th fragment.
pub fn name_of(k: usize) -> (r: &'static str)
    ensures
        r@ == fragment_name(k as int),
{
    if k == 0 {
        "head"
    } else if k == 1 {
        "navbar"
    } else {
        "footer"
    }
}

/// The path of the file that holds the fragment of this name.
pub fn fragment_path(name: &str) -> (r: String)
    ensures
        r@ == fragment_file(name@),
{
    let mut out = to_chars("Frontend/components/");
    let n = to_chars(name);
    let tail = to_chars(".html");
    out.extend_from_slice(n.as_slice());
    out.extend_from_slice(tail.as_slice());
    from_chars(out.as_slice())
}

/// Substitutes one fragment into a template.
pub fn substitute(t: Vec<char>, name: &str, html: &Option<Vec<char>>) -> (out: Vec<char>)
    ensures
        out@ == substituted(
            t@,
            name@,
            match *html {
                Some(h) => Some(h@),
                None => None,
            },
        ),
{
    match html {
        Some(h) => {
            let mut token = to_chars("{{ ");
            let n = to_chars(name);
            let close = to_chars(" }}");
            token.extend_from_slice(n.as_slice());
            token.extend_from_slice(close.as_slice());
            assert(token@ =~= placeholder(name@));
            replace_all(t.as_slice(), token.as_slice(), h.as_slice())
        },
        None => t,
    }
}

impl FragmentCache {
    /// Builds the cache from the fragment names and from what was loaded
    /// for each: the `i`-th entry belongs to the `i`-th name. A fragment
    /// that could not be loaded is stored as the empty text, so every name
    /// has an entry.
    pub fn preload_components(names: &Vec<String>, loaded: &Vec<Option<String>>) -> (cache:
        FragmentCache)
        ensures
            cache@.len() == names@.len(),
            forall|i: int|
                0 <= i < names@.len() ==> #[trigger] cache@[i] == (
                    names@[i]@,
                    loaded_text(loaded@, i),
                ),
    {
        let mut entries: Vec<Fragment> = Vec::new();
        let mut i: usize = 0;
        while i < names.len()
            invariant
                i <= names.len(),
                entries@.len() == i,
                forall|j: int|
                    0 <= j < i ==> (#[trigger] entries@[j]).name@ == names@[j]@ && entries@[j].html@
                        == loaded_text(loaded@, j),
            decreases names.len() - i,
        {
            let name = to_chars(names[i].as_str());
            let html = if i < loaded.len() {
                match &loaded[i] {
                    Some(s) => to_chars(s.as_str()),
                    None => Vec::new(),
                }
            } else {
                Vec::new()
            };
            entries.push(Fragment { name, html });
            i += 1;
        }
        let cache = FragmentCache { entries };
        assert forall|i: int| 0 <= i < names@.len() implies #[trigger] cache@[i] == (
            names@[i]@,
            loaded_text(loaded@, i),
        ) by {
            assert(cache.entries@[i].name@ == names@[i]@);
        }
        cache
    }

    /// The HTML stored under a name.
    pub fn fetch(&self, name: &str) -> (r: Option<Vec<char>>)
        ensures
            match r {
                Some(h) => lookup(self@, name@) == Some(h@),
                None => lookup(self@, name@).is_none(),
            },
    {
        let key = to_chars(name);
        let mut i: usize = self.entries.len();
        assert(self@.take(i as int) =~= self@);
        while i > 0
            invariant
                i <= self.entries.len(),
                key@ == name@,
                lookup(self@.take(i as int), name@) == lookup(self@, name@),
            decreases i,
        {
            assert(self@.take(i as int).drop_last() =~= self@.take(i - 1));
            assert(self@.take(i as int).last() == self@[i - 1]);
            if same(self.entries[i - 1].name.as_slice(), key.as_slice()) {
                return Some(self.entries[i - 1].html.clone());
            }
            i -= 1;
        }
        None
    }

    /// The HTML stored under a name, as a string.
    pub fn get(&self, name: &str) -> (r: Option<String>)
        ensures
            crate::path::text_of(r) == lookup(self@, name@),
    {
        match self.fetch(name) {
            Some(h) => Some(from_chars(h.as_slice())),
            None => None,
        }
    }

    /// Substitutes the cached fragments into a template given as
    /// characters.
    pub fn compose_chars(&self, t: Vec<char>) -> (out: Vec<char>)
        ensures
            out@ == composed_from(t@, self@),
    {
        let head = self.fetch(name_of(0));
        let navbar = self.fetch(name_of(1));
        let footer = self.fetch(name_of(2));
        let a = substitute(t, name_of(0), &head);
        let b = substitute(a, name_of(1), &navbar);
        substitute(b, name_of(2), &footer)
    }
}

/// Substitutes the three fragments into a template: every occurrence of
/// `{{ head }}`, then of `{{ navbar }}`, then of `{{ footer }}` is replaced
/// by that fragment's HTML. A fragment that is not available leaves its
/// placeholder in the text.
pub fn compose(
    template: &str,
    head: Option<&str>,
    navbar: Option<&str>,
    footer: Option<&str>,
) -> (out: String)
    ensures
        out@ == composed(
            template@,
            match head {
                Some(h) => Some(h@),
                None => None,
            },
            match navbar {
                Some(h) => Some(h@),
                None => None,
            },
            match footer {
                Some(h) => Some(h@),
                None => None,
            },
        ),
{
    let h = match head {
        Some(s) => Some(to_chars(s)),
        None => None,
    };
    let n = match navbar {
        Some(s) => Some(to_chars(s)),
        None => None,
    };
    let f = match footer {
        Some(s) => Some(to_chars(s)),
        None => None,
    };
    let a = substitute(to_chars(template), name_of(0), &h);
    let b = substitute(a, name_of(1), &n);
    let c = substitute(b, name_of(2), &f);
    from_chars(c.as_slice())
}

/// Substitutes the fragments of the cache into a template.
pub fn apply_template(template: &str, cache: &FragmentCache) -> (out: String)
    ensures
        out@ == composed_from(template@, cache@),
{
    let c = cache.compose_chars(to_chars(template));
    from_chars(c.as_slice())
}

} // verus!
