//! Web addresses: parsing, relative resolution, fragment removal and the
//! filter that decides which discovered links the crawler follows.

use vstd::prelude::*;

verus! {

/// Why a text was not accepted as an absolute URL.
#[derive(Clone, Copy, Debug, PartialEq, Eq, Structural)]
pub enum UrlParseError {
    /// The text is a relative reference: it needs a base URL.
    RelativeUrlWithoutBase,
    /// Any other syntax error.
    Invalid,
}

/// What `url::Url::parse` makes of a text: the serialization of the parsed
/// URL, or the kind of error.
pub uninterp spec fn parse_outcome(s: Seq<char>) -> Result<Seq<char>, UrlParseError>;

/// The serialization of `url::Url::join` of a reference against the URL that
/// `base` serializes, if the reference resolves.
pub uninterp spec fn joined(base: Seq<char>, reference: Seq<char>) -> Option<Seq<char>>;

/// The serialization of a URL after `url::Url::set_fragment(None)`.
pub uninterp spec fn unfragmented(t: Seq<char>) -> Seq<char>;

/// The scheme (`url::Url::scheme`) of the URL that `t` serializes.
pub uninterp spec fn scheme_of(t: Seq<char>) -> Seq<char>;

/// The domain (`url::Url::domain`) of the URL that `t` serializes, if its
/// host is a domain name.
pub uninterp spec fn domain_of(t: Seq<char>) -> Option<Seq<char>>;

/// An absolute URL, held as its canonical serialization.
#[derive(Clone, Debug)]
pub struct WebUrl {
    text: String,
}

impl View for WebUrl {
    type V = Seq<char>;

    closed spec fn view(&self) -> Seq<char> {
        self.text@
    }
}

/// Relies on `url::Url::parse`: parses an absolute URL and serializes it.
#[verifier::external_body]
fn parse_text(s: &str) -> (r: Result<String, UrlParseError>)
    ensures
        match r {
            Ok(t) => parse_outcome(s@) == Ok::<Seq<char>, UrlParseError>(t@),
            Err(e) => parse_outcome(s@) == Err::<Seq<char>, UrlParseError>(e),
        },
{
    match url::Url::parse(s) {
        Ok(u) => Ok(u.as_str().to_string()),
        Err(url::ParseError::RelativeUrlWithoutBase) => Err(UrlParseError::RelativeUrlWithoutBase),
        Err(_) => Err(UrlParseError::Invalid),
    }
}

/// Relies on `url::Url::join`: resolves `reference` against the URL that
/// `base` serializes.
#[verifier::external_body]
fn join_text(base: &str, reference: &str) -> (r: Option<String>)
    ensures
        match r {
            Some(t) => joined(base@, reference@) == Some(t@),
            None => joined(base@, reference@) is None,
        },
{
    url::Url::parse(base).and_then(|b| b.join(reference)).ok().map(|u| u.as_str().to_string())
}

/// Relies on `url::Url::set_fragment(None)`: drops the fragment. The result
/// has no fragment left, so doing it again changes nothing.
#[verifier::external_body]
fn clear_fragment(t: &str) -> (r: String)
    ensures
        r@ == unfragmented(t@),
        unfragmented(r@) == r@,
{
    match url::Url::parse(t) {
        Ok(mut u) => {
            u.set_fragment(None);
            u.as_str().to_string()
        },
        Err(_) => t.to_string(),
    }
}

/// Relies on `url::Url::scheme`.
#[verifier::external_body]
fn scheme_text(t: &str) -> (r: String)
    ensures
        r@ == scheme_of(t@),
{
    url::Url::parse(t).map(|u| u.scheme().to_string()).unwrap_or_default()
}

/// Relies on `url::Url::domain`.
#[verifier::external_body]
fn domain_text(t: &str) -> (r: Option<String>)
    ensures
        match r {
            Some(d) => domain_of(t@) == Some(d@),
            None => domain_of(t@) is None,
        },
{
    url::Url::parse(t).ok().and_then(|u| u.domain().map(|d| d.to_string()))
}

/// The URL that a link `raw` found on a page at `base` denotes: `raw` itself
/// when it is absolute, `raw` resolved against `base` when it is a relative
/// reference, and none otherwise.
pub open spec fn resolved(base: Seq<char>, raw: Seq<char>) -> Option<Seq<char>> {
    match parse_outcome(raw) {
        Ok(t) => Some(t),
        Err(UrlParseError::RelativeUrlWithoutBase) => joined(base, raw),
        Err(UrlParseError::Invalid) => None,
    }
}

/// The schemes that the crawler follows.
pub open spec fn is_web_scheme(scheme: Seq<char>) -> bool {
    scheme == "http"@ || scheme == "https"@
}

/// A candidate is eligible from the current page when its scheme is http or
/// https, it is not the current page itself, and it has the same domain.
pub open spec fn eligible(current: Seq<char>, candidate: Seq<char>) -> bool {
    is_web_scheme(scheme_of(candidate)) && candidate != current && domain_of(candidate)
        == domain_of(current)
}

/// What a link `raw` on the page at `current` adds to the frontier, if anything.
pub open spec fn enqueued(current: Seq<char>, raw: Seq<char>) -> Option<Seq<char>> {
    match resolved(current, raw) {
        Some(t) => if eligible(current, unfragmented(t)) {
            Some(unfragmented(t))
        } else {
            None
        },
        None => None,
    }
}

/// The text of an optional string.
pub open spec fn opt_text(o: Option<String>) -> Option<Seq<char>> {
    match o {
        Some(x) => Some(x@),
        None => None,
    }
}

/// The serialization of an optional address.
pub open spec fn opt_url(o: Option<WebUrl>) -> Option<Seq<char>> {
    match o {
        Some(u) => Some(u@),
        None => None,
    }
}

fn string_eq(a: &String, b: &String) -> (r: bool)
    ensures
        r == (a@ == b@),
{
    *a == *b
}

/// Whether `s` is "http" or "https".
pub fn is_web_scheme_str(s: &str) -> (r: bool)
    ensures
        r == is_web_scheme(s@),
{
    let s = s.to_string();
    let http = "http".to_string();
    let https = "https".to_string();
    proof {
        reveal_strlit("http");
        reveal_strlit("https");
    }
    string_eq(&s, &http) || string_eq(&s, &https)
}

fn option_string_eq(a: &Option<String>, b: &Option<String>) -> (r: bool)
    ensures
        r == (opt_text(*a) == opt_text(*b)),
{
    match (a, b) {
        (Some(x), Some(y)) => string_eq(x, y),
        (None, None) => true,
        _ => false,
    }
}

impl WebUrl {
    /// Parses an absolute URL.
    pub fn parse(s: &str) -> (r: Result<WebUrl, UrlParseError>)
        ensures
            match r {
                Ok(u) => parse_outcome(s@) == Ok::<Seq<char>, UrlParseError>(u@),
                Err(e) => parse_outcome(s@) == Err::<Seq<char>, UrlParseError>(e),
            },
    {
        match parse_text(s) {
            Ok(t) => Ok(WebUrl { text: t }),
            Err(e) => Err(e),
        }
    }

    /// A copy of this address.
    pub fn duplicate(&self) -> (r: WebUrl)
        ensures
            r@ == self@,
    {
        WebUrl { text: self.text.clone() }
    }

    /// The canonical serialization.
    pub fn as_str(&self) -> (r: &str)
        ensures
            r@ == self@,
    {
        self.text.as_str()
    }

    /// Exact equality of the canonical serializations.
    pub fn same_as(&self, other: &WebUrl) -> (r: bool)
        ensures
            r == (self@ == other@),
    {
        string_eq(&self.text, &other.text)
    }

    /// The scheme, as `url` reports it.
    pub fn scheme(&self) -> (r: String)
        ensures
            r@ == scheme_of(self@),
    {
        scheme_text(self.text.as_str())
    }

    /// The domain, as `url` reports it; none when the host is not a domain.
    pub fn domain(&self) -> (r: Option<String>)
        ensures
            opt_text(r) == domain_of(self@),
    {
        domain_text(self.text.as_str())
    }

    /// The address with its fragment removed. Removing it twice gives the
    /// same address as removing it once.
    pub fn strip_fragment(&self) -> (r: WebUrl)
        ensures
            r@ == unfragmented(self@),
            unfragmented(unfragmented(self@)) == unfragmented(self@),
    {
        WebUrl { text: clear_fragment(self.text.as_str()) }
    }

    /// Resolves a link found on the page at `self`: an absolute link as it
    /// stands, a relative one against `self`; none for anything else.
    pub fn resolve(&self, raw: &str) -> (r: Option<WebUrl>)
        ensures
            opt_url(r) == resolved(self@, raw@),
    {
        let parsed = parse_text(raw);
        self.resolve_parsed(raw, parsed)
    }

    /// The rest of `resolve`, given what parsing `raw` on its own gave.
    pub fn resolve_parsed(&self, raw: &str, parsed: Result<String, UrlParseError>) -> (r: Option<
        WebUrl,
    >)
        ensures
            match parsed {
                Ok(t) => opt_url(r) == Some(t@),
                Err(UrlParseError::RelativeUrlWithoutBase) => opt_url(r) == joined(
                    self@,
                    raw@,
                ),
                Err(UrlParseError::Invalid) => r is None,
            },
    {
        match parsed {
            Ok(t) => Some(WebUrl { text: t }),
            Err(UrlParseError::RelativeUrlWithoutBase) => match join_text(
                self.text.as_str(),
                raw,
            ) {
                Some(t) => Some(WebUrl { text: t }),
                None => None,
            },
            Err(UrlParseError::Invalid) => None,
        }
    }

    /// Whether the crawler follows `candidate` from the page at `self`: its
    /// scheme is http or https, it is not `self`, and its domain equals the
    /// domain of `self` (hosts compared exactly; ports ignored).
    pub fn is_eligible(&self, candidate: &WebUrl) -> (r: bool)
        ensures
            r == eligible(self@, candidate@),
            !is_web_scheme(scheme_of(candidate@)) ==> !r,
            candidate@ == self@ ==> !r,
    {
        let scheme = candidate.scheme();
        let own = self.domain();
        let theirs = candidate.domain();
        self.is_eligible_parts(candidate, scheme.as_str(), &own, &theirs)
    }

    /// The decision of `is_eligible`, given the candidate's scheme and the two
    /// domains.
    pub fn is_eligible_parts(
        &self,
        candidate: &WebUrl,
        scheme: &str,
        own_domain: &Option<String>,
        candidate_domain: &Option<String>,
    ) -> (r: bool)
        ensures
            r == (is_web_scheme(scheme@) && candidate@ != self@ && opt_text(*own_domain) == opt_text(
                *candidate_domain,
            )),
    {
        is_web_scheme_str(scheme) && !self.same_as(candidate) && option_string_eq(
            own_domain,
            candidate_domain,
        )
    }

    /// The frontier entry that a link `raw` on the page at `self` yields:
    /// resolved, stripped of its fragment, and kept only when eligible.
    pub fn can_enqueue(&self, raw: &str) -> (r: Option<WebUrl>)
        ensures
            opt_url(r) == enqueued(self@, raw@),
            match r {
                Some(u) => {
                    &&& u@ != self@
                    &&& is_web_scheme(scheme_of(u@))
                    &&& domain_of(u@) == domain_of(self@)
                    &&& unfragmented(u@) == u@
                },
                None => true,
            },
    {
        match self.resolve(raw) {
            Some(u) => {
                let v = u.strip_fragment();
                if self.is_eligible(&v) {
                    Some(v)
                } else {
                    None
                }
            },
            None => None,
        }
    }
}

} // verus!
