//! The URL collaborator: raw text is parsed by the `url` crate, and the
//! library stores only the serialization of a successfully parsed URL.

use vstd::prelude::*;

verus! {

/// What `url::Url::parse` makes of a piece of text: `None` when the text is
/// not an absolute URL, otherwise the serialization of the parsed URL.
/// The result depends on the text alone.
pub uninterp spec fn parse_url_spec(s: Seq<char>) -> Option<Seq<char>>;

/// An absolute URL, held as the serialization that the `url` crate produced
/// for it (or, for a plain sample value, as given text).
#[derive(Debug)]
pub struct Url {
    text: String,
}

impl View for Url {
    type V = Seq<char>;

    closed spec fn view(&self) -> Seq<char> {
        self.text@
    }
}

impl DeepView for Url {
    type V = Seq<char>;

    open spec fn deep_view(&self) -> Seq<char> {
        self@
    }
}

/// Relies on `url::Url::parse` and `url::Url::as_str`: parsing either fails
/// or yields a URL whose serialization `as_str` returns; both depend on the
/// input text alone.
#[verifier::external_body]
fn parse_via_url_crate(s: &str) -> (r: Option<String>)
    ensures
        match r {
            Some(t) => parse_url_spec(s@) == Some(t@),
            None => parse_url_spec(s@) is None,
        },
{
    match url::Url::parse(s) {
        Ok(u) => Some(String::from(u.as_str())),
        Err(_) => None,
    }
}

impl Url {
    /// Parse raw text into a URL, or fail: the boundary stated in the
    /// data model for `url`/`cover` fields.
    pub fn parse(s: &str) -> (r: Option<Url>)
        ensures
            match r {
                Some(u) => parse_url_spec(s@) == Some(u@),
                None => parse_url_spec(s@) is None,
            },
    {
        match parse_via_url_crate(s) {
            Some(t) => Some(Url { text: t }),
            None => None,
        }
    }

    /// A URL made directly of the given text, for fixed sample values.
    pub fn from_text(text: String) -> (r: Url)
        ensures
            r@ == text@,
    {
        Url { text }
    }

    /// The URL's serialization.
    pub fn as_str(&self) -> (r: &str)
        ensures
            r@ == self@,
    {
        self.text.as_str()
    }
}

impl Clone for Url {
    fn clone(&self) -> (r: Self)
        ensures
            r == *self,
    {
        Url { text: self.text.clone() }
    }
}

impl PartialEq for Url {
    fn eq(&self, other: &Self) -> (r: bool)
    {
        self.text == other.text
    }
}

impl vstd::std_specs::cmp::PartialEqSpecImpl for Url {
    open spec fn obeys_eq_spec() -> bool {
        true
    }

    open spec fn eq_spec(&self, other: &Self) -> bool {
        self@ == other@
    }
}

} // verus!
