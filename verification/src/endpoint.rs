//! Service addresses: parsed and adjusted by the `url` crate that `reqwest` re-exports.
use reqwest::Url;
use vstd::prelude::*;
use vstd::utf8::encode_utf8;

use crate::text::{chars_of, is_whitespace_spec, lemma_trim_bounds, push_str, same_text, trim, trim_spec};

verus! {

/// The parts of a URL that the library reads.
pub struct UrlView {
    pub href: Seq<char>,
    pub scheme: Seq<char>,
    pub host: Option<Seq<char>>,
    pub path: Seq<char>,
    pub query: Option<Seq<char>>,
    pub fragment: Option<Seq<char>>,
}

/// A parsed service address. Only the functions of this module build one, each from the
/// `url` crate's own value, so the text fields always describe `url`.
pub struct Endpoint {
    url: Url,
    href: String,
    scheme: String,
    host: Option<String>,
    path: String,
    query: Option<String>,
    fragment: Option<String>,
}

impl View for Endpoint {
    type V = UrlView;

    closed spec fn view(&self) -> UrlView {
        UrlView {
            href: self.href@,
            scheme: self.scheme@,
            host: match self.host {
                Some(h) => Some(h@),
                None => None,
            },
            path: self.path@,
            query: match self.query {
                Some(q) => Some(q@),
                None => None,
            },
            fragment: match self.fragment {
                Some(f) => Some(f@),
                None => None,
            },
        }
    }
}

/// The `url` crate's address type, carried through opaquely.
#[verifier::external_type_specification]
#[verifier::external_body]
pub struct ExUrl(Url);

/// What `Url::parse` reads from `text`; `None` where it refuses the text.
pub uninterp spec fn url_parse(text: Seq<char>) -> Option<UrlView>;

/// The URL `href` after `Url::set_query(query)`.
pub uninterp spec fn url_query_set(href: Seq<char>, query: Option<Seq<char>>) -> UrlView;

/// The URL `href` after `Url::set_fragment(None)`.
pub uninterp spec fn url_fragment_cleared(href: Seq<char>) -> UrlView;

/// The URL `href` after `Url::set_path(path)`.
pub uninterp spec fn url_path_set(href: Seq<char>, path: Seq<char>) -> UrlView;

/// What the `url` crate keeps true of every HTTP or HTTPS address it builds (its
/// `Url::check_invariants` states these invariants, which its methods rely on):
/// parsing the serialization again gives the same address; the serialization holds no
/// whitespace, since spaces and every non-ASCII character are percent-encoded and a host
/// holds neither; and removing a query or a fragment that is not there changes nothing.
pub open spec fn settled(v: UrlView) -> bool {
    web_scheme(v.scheme) ==> {
        &&& url_parse(v.href) == Some(v)
        &&& forall|i: int| 0 <= i < v.href.len() ==> !is_whitespace_spec(#[trigger] v.href[i])
        &&& (v.query is None ==> url_query_set(v.href, None) == v)
        &&& (v.fragment is None ==> url_fragment_cleared(v.href) == v)
    }
}

/// Whether the `url` crate can add `added` to the address `href` without overflowing: it
/// keeps the positions of the parts of an address as `u32` and unwraps them when the
/// query or the path is replaced, and it writes at most three bytes (`%XX`) for each byte
/// it is given, so the edited address must stay within `u32::MAX` bytes.
pub open spec fn fits_after_adding(href: Seq<char>, added: Seq<char>) -> bool {
    encode_utf8(href).len() + 3 * encode_utf8(added).len() + 1 <= u32::MAX
}

/// Whether `added` can be added to `href` (see `fits_after_adding`).
pub(crate) fn fits_after_adding_exec(href: &str, added: &str) -> (r: bool)
    ensures
        r == fits_after_adding(href@, added@),
{
    let h = href.as_bytes().len();
    let a = added.as_bytes().len();
    (h as u128) + 3 * (a as u128) + 1 <= 0xFFFF_FFFFu128
}

/// `Url::parse`: the address written in `text`, or `None` when it is not one. What it
/// accepts and how it normalises the text is named (`url_parse`), not stated; the address
/// is `settled`.
#[verifier::external_body]
fn parse_url(text: &str) -> (r: Option<Endpoint>)
    ensures
        match r {
            Some(e) => url_parse(text@) == Some(e@) && settled(e@),
            None => url_parse(text@) is None,
        },
{
    let url = match Url::parse(text) {
        Ok(url) => url,
        Err(_) => return None,
    };
    Some(Endpoint {
        href: url.as_str().to_string(),
        scheme: url.scheme().to_string(),
        host: url.host_str().map(|h| h.to_string()),
        path: url.path().to_string(),
        query: url.query().map(|q| q.to_string()),
        fragment: url.fragment().map(|f| f.to_string()),
        url,
    })
}

/// `Url::set_query`: the address with its query replaced (`None` removes it); the scheme
/// and the fragment stay, and the address is `settled`.
#[verifier::external_body]
fn with_query(e: Endpoint, query: Option<&str>) -> (r: Endpoint)
    requires
        query matches Some(q) ==> fits_after_adding(e@.href, q@),
    ensures
        r@ == url_query_set(e@.href, match query {
            Some(q) => Some(q@),
            None => None,
        }),
        query is None ==> r@.query is None,
        r@.scheme == e@.scheme,
        r@.fragment == e@.fragment,
        settled(r@),
{
    let mut url = e.url;
    url.set_query(query);
    Endpoint {
        href: url.as_str().to_string(),
        scheme: url.scheme().to_string(),
        host: url.host_str().map(|h| h.to_string()),
        path: url.path().to_string(),
        query: url.query().map(|q| q.to_string()),
        fragment: url.fragment().map(|f| f.to_string()),
        url,
    }
}

/// `Url::set_fragment(None)`: the address without its fragment; the scheme and the query
/// stay, and the address is `settled`.
#[verifier::external_body]
fn without_fragment(e: Endpoint) -> (r: Endpoint)
    ensures
        r@ == url_fragment_cleared(e@.href),
        r@.fragment is None,
        r@.scheme == e@.scheme,
        r@.query == e@.query,
        settled(r@),
{
    let mut url = e.url;
    url.set_fragment(None);
    Endpoint {
        href: url.as_str().to_string(),
        scheme: url.scheme().to_string(),
        host: url.host_str().map(|h| h.to_string()),
        path: url.path().to_string(),
        query: url.query().map(|q| q.to_string()),
        fragment: url.fragment().map(|f| f.to_string()),
        url,
    }
}

/// `Url::set_path`: the address with its path replaced; the scheme, the query and the
/// fragment stay, and the address is `settled`. For an HTTP or HTTPS address, a path that
/// ends with `/chat/completions` still ends so once set: those two segments are plain
/// ASCII letters, so they are neither percent-encoded nor removed as dot segments.
#[verifier::external_body]
fn with_path(e: Endpoint, path: &str) -> (r: Endpoint)
    requires
        fits_after_adding(e@.href, path@),
    ensures
        r@ == url_path_set(e@.href, path@),
        r@.scheme == e@.scheme,
        r@.query == e@.query,
        r@.fragment == e@.fragment,
        settled(r@),
        web_scheme(e@.scheme) && "/chat/completions"@.is_suffix_of(path@) ==> "/chat/completions"@.is_suffix_of(r@.path),
{
    let mut url = e.url;
    url.set_path(path);
    Endpoint {
        href: url.as_str().to_string(),
        scheme: url.scheme().to_string(),
        host: url.host_str().map(|h| h.to_string()),
        path: url.path().to_string(),
        query: url.query().map(|q| q.to_string()),
        fragment: url.fragment().map(|f| f.to_string()),
        url,
    }
}

/// The address with its query set to `query`.
pub(crate) fn with_query_text(e: Endpoint, query: &str) -> (r: Endpoint)
    requires
        fits_after_adding(e@.href, query@),
    ensures
        r@ == url_query_set(e@.href, Some(query@)),
{
    with_query(e, Some(query))
}

impl Endpoint {
    /// The serialization of the address.
    pub fn as_str(&self) -> (r: &str)
        ensures
            r@ == self@.href,
    {
        self.href.as_str()
    }

    /// The scheme, lower-cased.
    pub fn scheme(&self) -> (r: &str)
        ensures
            r@ == self@.scheme,
    {
        self.scheme.as_str()
    }

    /// The host, if the address has one.
    pub fn host(&self) -> (r: Option<&str>)
        ensures
            match r {
                Some(h) => self@.host == Some(h@),
                None => self@.host is None,
            },
    {
        match &self.host {
            Some(h) => Some(h.as_str()),
            None => None,
        }
    }

    /// The path.
    pub fn path(&self) -> (r: &str)
        ensures
            r@ == self@.path,
    {
        self.path.as_str()
    }
}

/// The error for an address that is not one.
pub open spec fn invalid_address(service: Seq<char>) -> Seq<char> {
    service + " 服务地址格式无效"@
}

/// Whether an address of `scheme` may be used: only `http` and `https`.
pub open spec fn web_scheme(scheme: Seq<char>) -> bool {
    scheme == "http"@ || scheme == "https"@
}

/// What `normalized_endpoint` gives for `value`: the trimmed text parsed as an address,
/// which must use HTTP or HTTPS, without its query and fragment; or the error message.
pub open spec fn normalized_outcome(value: Seq<char>, service: Seq<char>) -> Result<UrlView, Seq<char>> {
    match url_parse(trim_spec(value)) {
        None => Err(invalid_address(service)),
        Some(u) => if !web_scheme(u.scheme) {
            Err(service + " 服务地址只支持 HTTP 或 HTTPS"@)
        } else {
            Ok(url_fragment_cleared(url_query_set(u.href, None).href))
        },
    }
}

/// A text without whitespace is its own trimmed form.
proof fn lemma_trim_no_whitespace(s: Seq<char>)
    requires
        forall|i: int| 0 <= i < s.len() ==> !is_whitespace_spec(#[trigger] s[i]),
    ensures
        trim_spec(s) == s,
{
    let (a, b) = lemma_trim_bounds(s);
    if a > 0 {
        assert(is_whitespace_spec(s[0]));
    }
    if b < s.len() {
        assert(is_whitespace_spec(s[b]));
    }
    assert(s.subrange(0, s.len() as int) =~= s);
}

/// A settled HTTP or HTTPS address without query and fragment normalises to itself.
proof fn lemma_settled_renormalizes(v: UrlView, service: Seq<char>)
    requires
        settled(v),
        web_scheme(v.scheme),
        v.query is None,
        v.fragment is None,
    ensures
        normalized_outcome(v.href, service) == Ok::<UrlView, Seq<char>>(v),
{
    lemma_trim_no_whitespace(v.href);
}

/// `r` is the outcome `o`: the address it describes, or the error message.
pub open spec fn outcome_is(r: Result<Endpoint, String>, o: Result<UrlView, Seq<char>>) -> bool {
    match o {
        Ok(v) => r matches Ok(e) && e@ == v,
        Err(m) => r matches Err(x) && x@ == m,
    }
}

fn message(service: &str, tail: &str) -> (r: String)
    ensures
        r@ == service@ + tail@,
{
    let mut m = String::new();
    push_str(&mut m, service);
    push_str(&mut m, tail);
    m
}

/// Parses a configured service address: trimmed, HTTP or HTTPS only, without query and
/// fragment. `service` names the service in the error messages.
pub fn normalized_endpoint(value: &str, service: &str) -> (r: Result<Endpoint, String>)
    ensures
        outcome_is(r, normalized_outcome(value@, service@)),
        r matches Ok(e) ==> {
            &&& web_scheme(e@.scheme)
            &&& e@.query is None
            &&& e@.fragment is None
            &&& settled(e@)
            &&& normalized_outcome(e@.href, service@) == Ok::<UrlView, Seq<char>>(e@)
        },
{
    let url = match parse_url(trim(value)) {
        Some(u) => u,
        None => {
            return Err(message(service, " 服务地址格式无效"));
        },
    };
    if !(same_text(url.scheme(), "http") || same_text(url.scheme(), "https")) {
        return Err(message(service, " 服务地址只支持 HTTP 或 HTTPS"));
    }
    let url = with_query(url, None);
    let url = without_fragment(url);
    proof {
        lemma_settled_renormalizes(url@, service@);
    }
    Ok(url)
}

/// `s` without its trailing `/` characters.
pub open spec fn trim_end_slashes(s: Seq<char>) -> Seq<char>
    decreases s.len(),
{
    if s.len() > 0 && s.last() == '/' {
        trim_end_slashes(s.drop_last())
    } else {
        s
    }
}

/// The path that leads to the chat-completions resource under `path`: unchanged
/// (`None`) when it already ends there, else the path without trailing slashes followed
/// by `/chat/completions`.
pub open spec fn completions_path(path: Seq<char>) -> Option<Seq<char>> {
    let current = trim_end_slashes(path);
    if "/chat/completions"@.is_suffix_of(current) {
        None
    } else {
        Some(current + "/chat/completions"@)
    }
}

/// What `chat_completions_endpoint` gives for `base_url`: the normalised address, with
/// `/chat/completions` appended to its path unless the path already ends there.
pub open spec fn completions_outcome(base_url: Seq<char>) -> Result<UrlView, Seq<char>> {
    match normalized_outcome(base_url, "大模型"@) {
        Err(m) => Err(m),
        Ok(e) => match completions_path(e.path) {
            None => Ok(e),
            Some(p) => if !fits_after_adding(e.href, p) {
                Err(invalid_address("大模型"@))
            } else {
                Ok(url_path_set(e.href, p))
            },
        },
    }
}

/// The path without trailing slashes, and whether it then ends with `/chat/completions`.
fn trimmed_path(s: &str) -> (r: (bool, Vec<char>))
    ensures
        r.1@ == trim_end_slashes(s@),
        r.0 == "/chat/completions"@.is_suffix_of(trim_end_slashes(s@)),
{
    let cs = chars_of(s);
    let mut end: usize = cs.len();
    assert(cs@.subrange(0, end as int) =~= cs@);
    while end > 0 && cs[end - 1] == '/'
        invariant
            cs@ == s@,
            end <= cs.len(),
            trim_end_slashes(s@) == trim_end_slashes(cs@.subrange(0, end as int)),
        decreases end,
    {
        assert(cs@.subrange(0, end as int).drop_last() =~= cs@.subrange(0, end - 1));
        end = end - 1;
    }
    let mut kept: Vec<char> = Vec::new();
    let mut i: usize = 0;
    while i < end
        invariant
            end <= cs.len(),
            i <= end,
            kept@ == cs@.subrange(0, i as int),
        decreases end - i,
    {
        kept.push(cs[i]);
        assert(kept@ =~= cs@.subrange(0, i + 1));
        i = i + 1;
    }
    assert(trim_end_slashes(cs@.subrange(0, end as int)) == cs@.subrange(0, end as int));
    let suffix = chars_of("/chat/completions");
    let n = suffix.len();
    if n > end {
        return (false, kept);
    }
    let mut j: usize = 0;
    while j < n
        invariant
            n == suffix@.len(),
            suffix@ == "/chat/completions"@,
            kept@ == trim_end_slashes(s@),
            n <= end,
            kept@.len() == end,
            j <= n,
            forall|k: int| 0 <= k < j ==> suffix@[k] == kept@[end - n + k],
        decreases n - j,
    {
        if suffix[j] != kept[end - n + j] {
            proof {
                if "/chat/completions"@.is_suffix_of(kept@) {
                    assert(kept@.subrange(end - n, end as int) == suffix@);
                    assert(kept@.subrange(end - n, end as int)[j as int] == kept@[end - n + j]);
                }
            }
            return (false, kept);
        }
        j = j + 1;
    }
    assert(kept@.subrange(end - n, end as int) =~= suffix@);
    (true, kept)
}

/// The chat-completions address of a model service: its base address, normalised, with
/// `/chat/completions` appended to the path unless it already ends there.
pub fn chat_completions_endpoint(base_url: &str) -> (r: Result<Endpoint, String>)
    ensures
        outcome_is(r, completions_outcome(base_url@)),
        r matches Ok(e) ==> {
            &&& e@.query is None
            &&& e@.fragment is None
            &&& "/chat/completions"@.is_suffix_of(trim_end_slashes(e@.path))
            &&& completions_outcome(e@.href) == Ok::<UrlView, Seq<char>>(e@)
        },
{
    let url = normalized_endpoint(base_url, "大模型")?;
    let (ends, current) = trimmed_path(url.path());
    if ends {
        assert(completions_path(url@.path) is None);
        return Ok(url);
    }
    let mut next = crate::text::string_from_chars(current.as_slice());
    push_str(&mut next, "/chat/completions");
    if !fits_after_adding_exec(url.as_str(), next.as_str()) {
        return Err(message("大模型", " 服务地址格式无效"));
    }
    let r = with_path(url, next.as_str());
    proof {
        reveal_strlit("/chat/completions");
        assert("/chat/completions"@.is_suffix_of(next@)) by {
            assert(next@.subrange(next@.len() - 17, next@.len() as int) =~= "/chat/completions"@);
        }
        lemma_completions_suffix_kept(r@.path);
        lemma_settled_renormalizes(r@, "大模型"@);
    }
    Ok(r)
}

/// A path that ends with `/chat/completions` keeps no trailing slash to trim and asks for
/// nothing more.
proof fn lemma_completions_suffix_kept(path: Seq<char>)
    requires
        "/chat/completions"@.is_suffix_of(path),
    ensures
        trim_end_slashes(path) == path,
        completions_path(path) is None,
{
    reveal_strlit("/chat/completions");
    assert(path[path.len() - 1] == "/chat/completions"@[16]);
    assert(path.last() == 's');
}

/// Appending `/chat/completions` happens once: the path it produces already ends there.
pub proof fn law_completions_path_appended_once(path: Seq<char>)
    ensures
        completions_path(path) matches Some(p) ==> completions_path(p) is None,
{
    if completions_path(path) is Some {
        let p = trim_end_slashes(path) + "/chat/completions"@;
        reveal_strlit("/chat/completions");
        assert(p.last() == 's');
        assert(trim_end_slashes(p) == p);
        assert(p.subrange(p.len() - "/chat/completions"@.len(), p.len() as int) =~= "/chat/completions"@);
    }
}

} // verus!
