use vstd::prelude::*;

verus! {

/// What URL parsing yields for an input string: `None` when the text is
/// not an absolute URL; otherwise the URL's host, when it has one, and
/// the URL's normalized string form.
pub uninterp spec fn url_parse_of(s: Seq<char>) -> Option<(Option<Seq<char>>, Seq<char>)>;

/// Relies on url::Url::parse, Url::host_str and Url::as_str: the parsed
/// URL's host and its serialization; the result depends on the input
/// text alone.
#[verifier::external_body]
fn parse_url_raw(s: &str) -> (r: Option<(Option<String>, String)>)
    ensures
        r.deep_view() == url_parse_of(s@),
{
    match url::Url::parse(s) {
        Ok(u) => Some((u.host_str().map(|h| h.to_string()), u.as_str().to_string())),
        Err(_) => None,
    }
}

/// The input URL, reduced to what routing reads of it: its host and its
/// full string form.
pub struct ParsedUrl {
    pub host: String,
    pub full: String,
}

pub struct ParsedUrlV {
    pub host: Seq<char>,
    pub full: Seq<char>,
}

impl View for ParsedUrl {
    type V = ParsedUrlV;

    open spec fn view(&self) -> ParsedUrlV {
        ParsedUrlV { host: self.host@, full: self.full@ }
    }
}

impl DeepView for ParsedUrl {
    type V = ParsedUrlV;

    open spec fn deep_view(&self) -> ParsedUrlV {
        self.view()
    }
}

/// The host and full form routing runs on: present exactly when the
/// text parses as a URL that has a host.
pub open spec fn parsed_url_of(s: Seq<char>) -> Option<ParsedUrlV> {
    match url_parse_of(s) {
        Some((Some(h), full)) => Some(ParsedUrlV { host: h, full: full }),
        _ => None,
    }
}

/// Parse the command-line URL argument. `None` — text that is not a
/// URL, or a URL without a host — is a fatal input error for the
/// caller; no command is built from it.
pub fn parse_input_url(s: &str) -> (r: Option<ParsedUrl>)
    ensures
        r.deep_view() == parsed_url_of(s@),
{
    match parse_url_raw(s) {
        None => None,
        Some((host_opt, full)) => match host_opt {
            None => None,
            Some(h) => Some(ParsedUrl { host: h, full }),
        },
    }
}

} // verus!
