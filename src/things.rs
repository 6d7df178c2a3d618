//! The suggestion list: loading it from YAML and selecting from it.

use rand::seq::SliceRandom;
use serde_yaml::Error as YamlError;
use vstd::prelude::*;

verus! {

#[verifier::external_type_specification]
#[verifier::external_body]
pub struct ExYamlError(YamlError);

/// The list of strings that the YAML text `src` holds, where `src` is a YAML
/// sequence of strings; `None` where it is not.
pub uninterp spec fn yaml_strings(src: Seq<char>) -> Option<Seq<Seq<char>>>;

/// The HTML fragment that the markdown text `markdown` renders to, with no
/// markdown extensions enabled.
pub uninterp spec fn markdown_html(markdown: Seq<char>) -> Seq<char>;

/// Relies on `serde_yaml::from_str` read as `Vec<String>`: the strings of a
/// YAML sequence, or an error; the outcome depends on the text alone.
#[verifier::external_body]
fn parse_yaml_strings(src: &str) -> (r: Result<Vec<String>, YamlError>)
    ensures
        match r {
            Ok(v) => yaml_strings(src@) == Some(v@.map_values(|s: String| s@)),
            Err(_) => yaml_strings(src@) is None,
        },
{
    serde_yaml::from_str::<Vec<String>>(src)
}

/// Relies on `pulldown_cmark::Parser::new_ext` with `Options::empty()` and
/// `pulldown_cmark::html::push_html` into an empty `String`: the HTML that
/// the markdown renders to, which depends on the text alone.
#[verifier::external_body]
fn render_markdown(markdown: &str) -> (r: String)
    ensures
        r@ == markdown_html(markdown@),
{
    let parser = pulldown_cmark::Parser::new_ext(markdown, pulldown_cmark::Options::empty());
    let mut html = String::new();
    pulldown_cmark::html::push_html(&mut html, parser);
    html
}

/// Relies on `rand::seq::SliceRandom::choose` with `rand::thread_rng()`:
/// `None` for an empty slice, otherwise one of its entries, drawn uniformly.
/// Hands out the position that the drawn entry carries.
#[verifier::external_body]
fn choose_entry(entries: &Vec<(usize, Thing)>) -> (r: Option<usize>)
    ensures
        r is None <==> entries@.len() == 0,
        r matches Some(k) ==> exists|i: int| 0 <= i < entries@.len() && #[trigger] entries@[i].0 == k,
{
    entries.choose(&mut rand::thread_rng()).map(|e| e.0)
}

/// One suggestion: its markdown source and the HTML rendered from it.
#[derive(Debug)]
pub struct Thing {
    pub markdown: String,
    pub html: String,
}

impl Thing {
    /// The HTML field is the rendering of the markdown field.
    pub open spec fn wf(&self) -> bool {
        self.html@ == markdown_html(self.markdown@)
    }

    /// A suggestion whose text is `markdown`, rendered to HTML.
    pub fn new(markdown: String) -> (r: Thing)
        ensures
            r.wf(),
            r.markdown@ == markdown@,
    {
        let html = render_markdown(markdown.as_str());
        Thing { markdown, html }
    }
}

/// The suggestion list. Each entry carries its position in the list, which
/// is its permanent identity.
#[derive(Debug)]
pub struct Things {
    pub entries: Vec<(usize, Thing)>,
}

/// Why the suggestion list could not be loaded.
#[derive(Debug)]
pub enum Error {
    /// The YAML text is not a sequence of strings.
    DeserializeError(YamlError),
}

impl View for Things {
    type V = Seq<Seq<char>>;

    /// The markdown texts of the suggestions, in list order.
    open spec fn view(&self) -> Seq<Seq<char>> {
        self.entries@.map_values(|e: (usize, Thing)| e.1.markdown@)
    }
}

impl Things {
    /// Every entry carries its own position and well-formed suggestion.
    pub open spec fn wf(&self) -> bool {
        forall|i: int|
            0 <= i < self.entries@.len() ==> (#[trigger] self.entries@[i]).0 == i
                && self.entries@[i].1.wf()
    }

    /// The suggestion list whose texts are `raw`, in that order.
    pub fn new(raw: Vec<String>) -> (r: Things)
        ensures
            r.wf(),
            r@ == raw@.map_values(|s: String| s@),
    {
        let mut entries: Vec<(usize, Thing)> = Vec::new();
        let mut i: usize = 0;
        while i < raw.len()
            invariant
                i <= raw@.len(),
                entries@.len() == i,
                forall|j: int|
                    0 <= j < i ==> (#[trigger] entries@[j]).0 == j && entries@[j].1.wf()
                        && entries@[j].1.markdown@ == raw@[j]@,
            decreases raw@.len() - i,
        {
            let thing = Thing::new(raw[i].clone());
            entries.push((i, thing));
            i = i + 1;
        }
        let r = Things { entries };
        assert(r@ =~= raw@.map_values(|s: String| s@));
        r
    }

    /// Number of suggestions.
    pub fn len(&self) -> (r: usize)
        ensures
            r == self@.len(),
    {
        self.entries.len()
    }

    /// The suggestion at position `index`.
    pub fn thing(&self, index: usize) -> (r: &Thing)
        requires
            self.wf(),
            index < self@.len(),
        ensures
            r.wf(),
            r.markdown@ == self@[index as int],
    {
        &self.entries[index].1
    }

    /// The position of the suggestion that `item` selects: `item` itself
    /// where it lies in the list, none where it does not. Where `item` is
    /// none, a position drawn at random, none only for an empty list.
    pub fn select(&self, item: Option<usize>) -> (r: Option<usize>)
        requires
            self.wf(),
        ensures
            item matches Some(k) ==> r == (if k < self@.len() {
                Some(k)
            } else {
                None::<usize>
            }),
            item is None ==> (r is None <==> self@.len() == 0),
            r matches Some(k) ==> k < self@.len(),
    {
        match item {
            Some(k) => {
                if k < self.entries.len() {
                    Some(self.entries[k].0)
                } else {
                    None
                }
            },
            None => choose_entry(&self.entries),
        }
    }
}

/// Loads the suggestion list from YAML text holding a sequence of strings.
pub fn load_things(src: &str) -> (r: Result<Things, Error>)
    ensures
        match r {
            Ok(things) => things.wf() && yaml_strings(src@) == Some(things@),
            Err(_) => yaml_strings(src@) is None,
        },
{
    match parse_yaml_strings(src) {
        Ok(raw) => Ok(Things::new(raw)),
        Err(e) => Err(Error::DeserializeError(e)),
    }
}

} // verus!
