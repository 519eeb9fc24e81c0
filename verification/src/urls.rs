//! What the rest of the crate reads from a URL.
use vstd::prelude::*;
use crate::text::{chars_of, slice_chars, spec_strip_end, string_of, strip_end, CharClass};

verus! {

/// The parts of a parsed URL that routing looks at.
pub struct ParsedUrl {
    /// The host, where the URL has one.
    pub host: Option<String>,
    /// The path, percent-encoded as the URL holds it.
    pub path: String,
}

/// The mathematical content of a `ParsedUrl`.
pub struct UrlParts {
    pub host: Option<Seq<char>>,
    pub path: Seq<char>,
}

impl View for ParsedUrl {
    type V = UrlParts;

    open spec fn view(&self) -> UrlParts {
        UrlParts {
            host: match self.host {
                Some(h) => Some(h@),
                None => None,
            },
            path: self.path@,
        }
    }
}

/// Host and path of the URL written as `url`; `None` where `url` does not
/// parse as a URL.
pub uninterp spec fn spec_url_parts(url: Seq<char>) -> Option<UrlParts>;

/// What `str::to_lowercase` makes of a text.
pub uninterp spec fn spec_lowercase(s: Seq<char>) -> Seq<char>;

/// `url::Url::parse`, with the host (`host_str`) and the path (`path`) of
/// the result copied out. The contract names the result and claims nothing
/// more of it.
#[verifier::external_body]
pub(crate) fn parse_url(url: &str) -> (parsed: Option<ParsedUrl>)
    ensures
        parsed is Some == spec_url_parts(url@) is Some,
        parsed is Some ==> parsed->0@ == spec_url_parts(url@)->0,
{
    match url::Url::parse(url) {
        Ok(u) => Some(ParsedUrl { host: u.host_str().map(String::from), path: String::from(u.path()) }),
        Err(_) => None,
    }
}

/// `str::to_lowercase`. The contract names the result and claims nothing
/// more of it.
#[verifier::external_body]
pub(crate) fn lowercase(s: &str) -> (out: String)
    ensures
        out@ == spec_lowercase(s@),
{
    s.to_lowercase()
}

/// The last segment of a URL path: the text behind its last `/`. A path
/// that does not begin with `/` has no segments.
pub open spec fn spec_last_segment(path: Seq<char>) -> Option<Seq<char>> {
    if path.len() > 0 && path[0] == '/' {
        Some(path.skip(spec_strip_end(path, CharClass::NotSlash).len() as int))
    } else {
        None
    }
}

/// The last segment of a URL path.
pub fn last_segment(path: &str) -> (seg: Option<String>)
    ensures
        seg is Some == spec_last_segment(path@) is Some,
        seg is Some ==> seg->0@ == spec_last_segment(path@)->0,
{
    let p = chars_of(path);
    if p.len() > 0 && p[0] == '/' {
        let parent = strip_end(&p, CharClass::NotSlash);
        let last = slice_chars(&p, parent.len(), p.len());
        proof {
            assert(p@.skip(parent@.len() as int) =~= p@.subrange(
                parent@.len() as int,
                p@.len() as int,
            ));
        }
        Some(string_of(&last))
    } else {
        None
    }
}

} // verus!
