//! Configuration of the HTTP client: user agent, default headers, proxy
//! and cookies, each checked before any client is built.

use crate::text::{chars_of, starts_with, texts};
use vstd::prelude::*;
use vstd::string::*;

verus! {

/// Which traffic goes through the proxy, and the proxy's address.
#[derive(Debug, Clone, PartialEq, Eq)]
pub enum ProxyConfig {
    Http(String),
    Https(String),
}

/// Why no client can be built from the options.
#[derive(Debug, Clone, Copy, PartialEq, Eq, Structural)]
pub enum ClientError {
    /// A header name came without a value.
    UnpairedHeader,
    /// The name of the header pair with this index is malformed.
    InvalidHeaderName(usize),
    /// The value of the header pair with this index is malformed.
    InvalidHeaderValue(usize),
    /// The proxy address starts with neither `http://` nor `https://`.
    UnsupportedProxyScheme,
    /// The proxy address is malformed.
    InvalidProxy,
    /// A seed cookie came without its origin URL.
    UnpairedCookie,
    /// The origin URL of the seed cookie with this index is malformed.
    InvalidCookieUrl(usize),
}

/// Everything a client is built from.
#[derive(Debug, Clone, PartialEq, Eq)]
pub struct ClientConfig {
    pub user_agent: String,
    /// Default headers, name then value.
    pub headers: Vec<(String, String)>,
    pub proxy: Option<ProxyConfig>,
    /// Whether a cookie store is attached.
    pub cookie_store: bool,
    /// One cookie value sent from the start.
    pub seed_cookie: Option<String>,
    /// Seed cookies, set-cookie text then origin URL.
    pub seed_cookies: Vec<(String, String)>,
}

/// Whether `HeaderName` of the HTTP library accepts a text as a header name.
pub uninterp spec fn valid_header_name(s: Seq<char>) -> bool;

/// Whether a character may stand in a header value: the tabulator, and
/// everything from the space on but the delete character.
pub open spec fn is_header_value_char(c: char) -> bool {
    c == '\t' || (c as u32 >= 32 && c as u32 != 127)
}

/// Whether a text is a header value: each of its characters may stand in
/// one.
pub open spec fn valid_header_value(s: Seq<char>) -> bool {
    forall|i: int| 0 <= i < s.len() ==> is_header_value_char(#[trigger] s[i])
}

/// Whether `Url::parse` accepts a text.
pub uninterp spec fn valid_url(s: Seq<char>) -> bool;

/// Whether `Proxy::http` accepts an address.
pub uninterp spec fn valid_http_proxy(s: Seq<char>) -> bool;

/// Whether `Proxy::https` accepts an address.
pub uninterp spec fn valid_https_proxy(s: Seq<char>) -> bool;

/// `HeaderName::from_str` of the HTTP library, as reqwest hands it on:
/// whether it accepts the text, which depends on the text alone.
#[verifier::external_body]
fn header_name_parses(s: &str) -> (b: bool)
    ensures
        b == valid_header_name(s@),
{
    s.parse::<reqwest::header::HeaderName>().is_ok()
}

/// `HeaderValue::from_str` of the HTTP library, as reqwest hands it on:
/// whether it accepts the text. It refuses a text exactly when one of its
/// bytes is a control character other than the tabulator; the bytes of a
/// character beyond ASCII are none of these.
#[verifier::external_body]
fn header_value_parses(s: &str) -> (b: bool)
    ensures
        b == valid_header_value(s@),
{
    s.parse::<reqwest::header::HeaderValue>().is_ok()
}

/// `Url::parse`, as reqwest hands it on: whether it accepts the text,
/// which depends on the text alone.
#[verifier::external_body]
fn url_parses(s: &str) -> (b: bool)
    ensures
        b == valid_url(s@),
{
    reqwest::Url::parse(s).is_ok()
}

/// `reqwest::Proxy::http`: whether it accepts the address, which depends
/// on the address alone.
#[verifier::external_body]
fn http_proxy_parses(s: &str) -> (b: bool)
    ensures
        b == valid_http_proxy(s@),
{
    reqwest::Proxy::http(s).is_ok()
}

/// `reqwest::Proxy::https`: whether it accepts the address, which depends
/// on the address alone.
#[verifier::external_body]
fn https_proxy_parses(s: &str) -> (b: bool)
    ensures
        b == valid_https_proxy(s@),
{
    reqwest::Proxy::https(s).is_ok()
}

/// The texts of a list of pairs of strings.
pub open spec fn pair_texts(v: Seq<(String, String)>) -> Seq<(Seq<char>, Seq<char>)> {
    v.map_values(|p: (String, String)| (p.0@, p.1@))
}

/// A flat list read two items at a time.
pub open spec fn paired(items: Seq<Seq<char>>) -> Seq<(Seq<char>, Seq<char>)> {
    Seq::new(items.len() / 2, |i: int| (items[2 * i], items[2 * i + 1]))
}

/// The first fault among the header pairs from pair `k` on.
pub open spec fn header_fault_from(items: Seq<Seq<char>>, k: nat) -> Option<ClientError>
    decreases items.len() - 2 * k,
{
    if 2 * k + 1 >= items.len() {
        None
    } else if !valid_header_name(items[2 * k as int]) {
        Some(ClientError::InvalidHeaderName(k as usize))
    } else if !valid_header_value(items[2 * k as int + 1]) {
        Some(ClientError::InvalidHeaderValue(k as usize))
    } else {
        header_fault_from(items, k + 1)
    }
}

/// The first fault of a flat list of header names and values.
pub open spec fn header_fault(items: Seq<Seq<char>>) -> Option<ClientError> {
    if items.len() % 2 != 0 {
        Some(ClientError::UnpairedHeader)
    } else {
        header_fault_from(items, 0)
    }
}

/// The first fault among the seed cookies from pair `k` on.
pub open spec fn cookie_fault_from(items: Seq<Seq<char>>, k: nat) -> Option<ClientError>
    decreases items.len() - 2 * k,
{
    if 2 * k + 1 >= items.len() {
        None
    } else if !valid_url(items[2 * k as int + 1]) {
        Some(ClientError::InvalidCookieUrl(k as usize))
    } else {
        cookie_fault_from(items, k + 1)
    }
}

/// The first fault of a flat list of set-cookie texts and origin URLs.
pub open spec fn cookie_fault(items: Seq<Seq<char>>) -> Option<ClientError> {
    if items.len() % 2 != 0 {
        Some(ClientError::UnpairedCookie)
    } else {
        cookie_fault_from(items, 0)
    }
}

/// The fault of a proxy address, if it has one.
pub open spec fn proxy_fault(addr: Seq<char>) -> Option<ClientError> {
    if "http://"@.is_prefix_of(addr) {
        if valid_http_proxy(addr) {
            None
        } else {
            Some(ClientError::InvalidProxy)
        }
    } else if "https://"@.is_prefix_of(addr) {
        if valid_https_proxy(addr) {
            None
        } else {
            Some(ClientError::InvalidProxy)
        }
    } else {
        Some(ClientError::UnsupportedProxyScheme)
    }
}

/// Reads a flat list two items at a time; an item left over is dropped.
pub fn pair_up(items: &Vec<String>) -> (r: Vec<(String, String)>)
    ensures
        pair_texts(r@) == paired(texts(items@)),
{
    let mut r: Vec<(String, String)> = Vec::new();
    let mut i: usize = 0;
    while i < items.len() && i + 1 < items.len()
        invariant
            i <= items.len(),
            i % 2 == 0,
            r.len() == i / 2,
            forall|j: int|
                0 <= j < r.len() ==> (#[trigger] r@[j]).0@ == items@[2 * j]@ && r@[j].1@
                    == items@[2 * j + 1]@,
        decreases items.len() - i,
    {
        r.push((items[i].clone(), items[i + 1].clone()));
        i = i + 2;
    }
    assert(r.len() == items.len() / 2);
    assert(pair_texts(r@) =~= paired(texts(items@)));
    r
}

/// Checks a flat list of header names and values.
pub fn check_headers(items: &Vec<String>) -> (r: Result<(), ClientError>)
    ensures
        r is Ok <==> header_fault(texts(items@)) is None,
        r is Err ==> header_fault(texts(items@)) == Some(r->Err_0),
{
    if items.len() % 2 != 0 {
        return Err(ClientError::UnpairedHeader);
    }
    let ghost t = texts(items@);
    let mut k: usize = 0;
    while 2 * k + 1 < items.len()
        invariant
            2 * k <= items.len(),
            items.len() % 2 == 0,
            t == texts(items@),
            header_fault_from(t, 0) == header_fault_from(t, k as nat),
        decreases items.len() - 2 * k,
    {
        assert(t[2 * k as int] == items@[2 * k as int]@);
        assert(t[2 * k + 1] == items@[2 * k + 1]@);
        if !header_name_parses(items[2 * k].as_str()) {
            return Err(ClientError::InvalidHeaderName(k));
        }
        if !header_value_parses(items[2 * k + 1].as_str()) {
            return Err(ClientError::InvalidHeaderValue(k));
        }
        k = k + 1;
    }
    Ok(())
}

/// Checks a flat list of set-cookie texts and origin URLs.
pub fn check_cookies(items: &Vec<String>) -> (r: Result<(), ClientError>)
    ensures
        r is Ok <==> cookie_fault(texts(items@)) is None,
        r is Err ==> cookie_fault(texts(items@)) == Some(r->Err_0),
{
    if items.len() % 2 != 0 {
        return Err(ClientError::UnpairedCookie);
    }
    let ghost t = texts(items@);
    let mut k: usize = 0;
    while 2 * k + 1 < items.len()
        invariant
            2 * k <= items.len(),
            items.len() % 2 == 0,
            t == texts(items@),
            cookie_fault_from(t, 0) == cookie_fault_from(t, k as nat),
        decreases items.len() - 2 * k,
    {
        assert(t[2 * k + 1] == items@[2 * k + 1]@);
        if !url_parses(items[2 * k + 1].as_str()) {
            return Err(ClientError::InvalidCookieUrl(k));
        }
        k = k + 1;
    }
    Ok(())
}

/// Reads a proxy address: the scheme selects an HTTP or an HTTPS proxy.
pub fn proxy_address_parser(s: &str) -> (r: Result<ProxyConfig, ClientError>)
    ensures
        r is Ok <==> proxy_fault(s@) is None,
        r is Err ==> proxy_fault(s@) == Some(r->Err_0),
        r is Ok ==> match r->Ok_0 {
            ProxyConfig::Http(a) => a@ == s@ && "http://"@.is_prefix_of(s@),
            ProxyConfig::Https(a) => a@ == s@ && !"http://"@.is_prefix_of(s@),
        },
{
    let v = chars_of(s);
    if starts_with(&v, "http://") {
        if http_proxy_parses(s) {
            Ok(ProxyConfig::Http(String::from_str(s)))
        } else {
            Err(ClientError::InvalidProxy)
        }
    } else if starts_with(&v, "https://") {
        if https_proxy_parses(s) {
            Ok(ProxyConfig::Https(String::from_str(s)))
        } else {
            Err(ClientError::InvalidProxy)
        }
    } else {
        Err(ClientError::UnsupportedProxyScheme)
    }
}

/// Whether a proxy address starts with `http://` or `https://`.
pub fn proxy_address_validator(s: &str) -> (r: Result<(), ClientError>)
    ensures
        r is Ok <==> "http://"@.is_prefix_of(s@) || "https://"@.is_prefix_of(s@),
        r is Err ==> r->Err_0 == ClientError::UnsupportedProxyScheme,
{
    let v = chars_of(s);
    if starts_with(&v, "http://") || starts_with(&v, "https://") {
        Ok(())
    } else {
        Err(ClientError::UnsupportedProxyScheme)
    }
}

/// The first fault of a set of client options: headers are judged first,
/// then the proxy, then the seed cookies.
pub open spec fn config_fault(
    header: Seq<Seq<char>>,
    proxy: Option<Seq<char>>,
    set_cookie: Seq<Seq<char>>,
) -> Option<ClientError> {
    if header_fault(header) is Some {
        header_fault(header)
    } else if proxy is Some && proxy_fault(proxy->Some_0) is Some {
        proxy_fault(proxy->Some_0)
    } else {
        cookie_fault(set_cookie)
    }
}

/// The text of an optional string.
pub open spec fn optional_text(p: Option<String>) -> Option<Seq<char>> {
    match p {
        Some(t) => Some(t@),
        None => None,
    }
}

/// Whether a configuration is the one that the options ask for.
pub open spec fn is_config_of(
    c: ClientConfig,
    user_agent: Seq<char>,
    header: Seq<Seq<char>>,
    proxy: Option<Seq<char>>,
    enable_cookies: bool,
    cookie: Option<String>,
    set_cookie: Seq<Seq<char>>,
) -> bool {
    &&& c.user_agent@ == user_agent
    &&& pair_texts(c.headers@) == paired(header)
    &&& c.proxy is Some <==> proxy is Some
    &&& proxy is Some ==> match c.proxy->Some_0 {
        ProxyConfig::Http(a) => a@ == proxy->Some_0 && "http://"@.is_prefix_of(a@),
        ProxyConfig::Https(a) => a@ == proxy->Some_0 && !"http://"@.is_prefix_of(a@),
    }
    &&& c.cookie_store == (enable_cookies || cookie is Some || set_cookie.len() > 0)
    &&& c.seed_cookie == cookie
    &&& pair_texts(c.seed_cookies@) == paired(set_cookie)
}

/// Assembles the client configuration from the independent options.
/// The user agent is always set; cookies are stored as soon as any cookie
/// option is given.
pub fn client_config(
    user_agent: &str,
    header: &Vec<String>,
    proxy: &Option<String>,
    enable_cookies: bool,
    cookie: &Option<String>,
    set_cookie: &Vec<String>,
) -> (r: Result<ClientConfig, ClientError>)
    ensures
        match config_fault(texts(header@), optional_text(*proxy), texts(set_cookie@)) {
            Some(e) => r == Err::<ClientConfig, ClientError>(e),
            None => r is Ok && is_config_of(
                r->Ok_0,
                user_agent@,
                texts(header@),
                optional_text(*proxy),
                enable_cookies,
                *cookie,
                texts(set_cookie@),
            ),
        },
{
    match check_headers(header) {
        Err(e) => {
            return Err(e);
        },
        Ok(_) => {},
    }
    let proxy_config = match proxy {
        None => None,
        Some(p) => match proxy_address_parser(p.as_str()) {
            Err(e) => {
                return Err(e);
            },
            Ok(c) => Some(c),
        },
    };
    match check_cookies(set_cookie) {
        Err(e) => {
            return Err(e);
        },
        Ok(_) => {},
    }
    Ok(
        ClientConfig {
            user_agent: String::from_str(user_agent),
            headers: pair_up(header),
            proxy: proxy_config,
            cookie_store: enable_cookies || cookie.is_some() || set_cookie.len() > 0,
            seed_cookie: cookie.clone(),
            seed_cookies: pair_up(set_cookie),
        },
    )
}

impl ClientError {
    /// The text shown to the user for this failure.
    pub fn message(&self) -> (r: String)
        ensures
            r@ == match *self {
                ClientError::UnpairedHeader => "a header needs a name and a value"@,
                ClientError::InvalidHeaderName(_) => "invalid header name"@,
                ClientError::InvalidHeaderValue(_) => "invalid header value"@,
                ClientError::UnsupportedProxyScheme =>
                    "Proxy address should start with `http(s)://` only"@,
                ClientError::InvalidProxy => "couldn't parse proxy address"@,
                ClientError::UnpairedCookie => "a cookie needs the url it came from"@,
                ClientError::InvalidCookieUrl(_) => "invalid cookie url"@,
            },
    {
        match self {
            ClientError::UnpairedHeader => String::from_str("a header needs a name and a value"),
            ClientError::InvalidHeaderName(_) => String::from_str("invalid header name"),
            ClientError::InvalidHeaderValue(_) => String::from_str("invalid header value"),
            ClientError::UnsupportedProxyScheme => String::from_str(
                "Proxy address should start with `http(s)://` only",
            ),
            ClientError::InvalidProxy => String::from_str("couldn't parse proxy address"),
            ClientError::UnpairedCookie => String::from_str("a cookie needs the url it came from"),
            ClientError::InvalidCookieUrl(_) => String::from_str("invalid cookie url"),
        }
    }
}

} // verus!
