//! Decisions of the web scraping loader: which hosts are only reachable from here, and how the
//! Spider Cloud settings read.
use vstd::prelude::*;
use crate::pdf::{spec_trim, trim};
use crate::text::{chars_of, ascii_lower, ascii_lower_code, string_from_chars};

verus! {

/// The host of a URL.
pub enum UrlHost {
    /// A domain name.
    Domain(String),
    /// An IPv4 address, by its four octets.
    Ipv4(u8, u8, u8, u8),
    /// An IPv6 address, by its eight 16-bit segments.
    Ipv6(u16, u16, u16, u16, u16, u16, u16, u16),
}

/// The host of a URL as plain values.
pub enum UrlHostView {
    Domain(Seq<char>),
    Ipv4(u8, u8, u8, u8),
    Ipv6(u16, u16, u16, u16, u16, u16, u16, u16),
}

/// The view of a parse outcome: `None` for a URL that does not parse, else its host if it has
/// one.
pub open spec fn host_outcome_view(h: Option<Option<UrlHost>>) -> Option<Option<UrlHostView>> {
    match h {
        None => None,
        Some(None) => Some(None),
        Some(Some(UrlHost::Domain(d))) => Some(Some(UrlHostView::Domain(d@))),
        Some(Some(UrlHost::Ipv4(a, b, c, d))) => Some(Some(UrlHostView::Ipv4(a, b, c, d))),
        Some(Some(UrlHost::Ipv6(a, b, c, d, e, f, g, h))) => Some(
            Some(UrlHostView::Ipv6(a, b, c, d, e, f, g, h)),
        ),
    }
}

/// What the `url` crate makes of a URL: `None` when it does not parse, else its host, if any.
pub uninterp spec fn parsed_url_host(url: Seq<char>) -> Option<Option<UrlHostView>>;

/// Parses a URL with the `url` crate (`Url::parse`) and gives its host (`Url::host`).
#[verifier::external_body]
fn url_host(url: &str) -> (r: Option<Option<UrlHost>>)
    ensures
        host_outcome_view(r) == parsed_url_host(url@),
{
    let parsed = url::Url::parse(url).ok()?;
    Some(parsed.host().map(|host| match host {
        url::Host::Domain(d) => UrlHost::Domain(d.to_owned()),
        url::Host::Ipv4(ip) => {
            let [a, b, c, d] = ip.octets();
            UrlHost::Ipv4(a, b, c, d)
        },
        url::Host::Ipv6(ip) => {
            let [a, b, c, d, e, f, g, h] = ip.segments();
            UrlHost::Ipv6(a, b, c, d, e, f, g, h)
        },
    }))
}

/// A domain reachable only from here: `localhost`, or a name ending in `.localhost` or
/// `.local`.
pub open spec fn spec_is_local_domain(d: Seq<char>) -> bool {
    ||| d == "localhost"@
    ||| (d.len() >= 10 && d.subrange(d.len() - 10, d.len() as int) == ".localhost"@)
    ||| (d.len() >= 6 && d.subrange(d.len() - 6, d.len() as int) == ".local"@)
}

/// An IPv4 address reachable only from here: loopback (127.0.0.0/8), private (10.0.0.0/8,
/// 172.16.0.0/12, 192.168.0.0/16), link-local (169.254.0.0/16) or unspecified (0.0.0.0).
pub open spec fn spec_is_local_ipv4(a: u8, b: u8, c: u8, d: u8) -> bool {
    ||| a == 127
    ||| a == 10
    ||| (a == 172 && 16 <= b <= 31)
    ||| (a == 192 && b == 168)
    ||| (a == 169 && b == 254)
    ||| (a == 0 && b == 0 && c == 0 && d == 0)
}

/// An IPv6 address reachable only from here: loopback (`::1`) or unspecified (`::`).
pub open spec fn spec_is_local_ipv6(s: Seq<u16>) -> bool {
    &&& s.len() == 8
    &&& forall|i: int| 0 <= i < 7 ==> s[i] == 0
    &&& (s[7] == 0 || s[7] == 1)
}

/// Whether the outcome of parsing a URL names a host reachable only from here (see
/// [`spec_is_local_domain`], [`spec_is_local_ipv4`], [`spec_is_local_ipv6`]). URLs that do not
/// parse, and URLs without a host, are not.
pub open spec fn spec_is_local_host(h: Option<Option<UrlHostView>>) -> bool {
    match h {
        Some(Some(UrlHostView::Domain(d))) => spec_is_local_domain(d),
        Some(Some(UrlHostView::Ipv4(a, b, c, d))) => spec_is_local_ipv4(a, b, c, d),
        Some(Some(UrlHostView::Ipv6(a, b, c, d, e, f, g, h))) => spec_is_local_ipv6(
            seq![a, b, c, d, e, f, g, h],
        ),
        _ => false,
    }
}

/// A URL whose host is only reachable from here, so that a fetching service elsewhere cannot
/// reach it (see [`spec_is_local_host`]).
pub open spec fn spec_is_locally_routable(url: Seq<char>) -> bool {
    spec_is_local_host(parsed_url_host(url))
}

/// Whether `s` ends with `suffix`.
fn ends_with(s: &[char], suffix: &str) -> (r: bool)
    ensures
        r == (s@.len() >= suffix@.len() && s@.subrange(s@.len() - suffix@.len(), s@.len() as int)
            == suffix@),
{
    let t = chars_of(suffix);
    if s.len() < t.len() {
        return false;
    }
    let off = s.len() - t.len();
    let mut i: usize = 0;
    while i < t.len()
        invariant
            i <= t@.len(),
            off + t@.len() == s@.len(),
            off + t.len() == s.len(),
            t@ == suffix@,
            forall|j: int| 0 <= j < i ==> s@[off + j] == t@[j],
        decreases t@.len() - i,
    {
        if s[off + i] != t[i] {
            assert(s@.subrange(off as int, s@.len() as int)[i as int] != t@[i as int]);
            return false;
        }
        i = i + 1;
    }
    assert(s@.subrange(off as int, s@.len() as int) =~= t@);
    true
}

/// Whether a domain is reachable only from here (see [`spec_is_local_domain`]).
pub fn is_local_domain(domain: &String) -> (r: bool)
    ensures
        r == spec_is_local_domain(domain@),
{
    let d = chars_of(domain.as_str());
    let local = chars_of("localhost");
    if crate::text::chars_eq(d.as_slice(), local.as_slice()) {
        return true;
    }
    proof {
        reveal_strlit(".localhost");
        reveal_strlit(".local");
    }
    ends_with(d.as_slice(), ".localhost") || ends_with(d.as_slice(), ".local")
}

/// Whether the outcome of parsing a URL names a host reachable only from here (see
/// [`spec_is_local_host`]).
pub fn is_local_host(host: &Option<Option<UrlHost>>) -> (r: bool)
    ensures
        r == spec_is_local_host(host_outcome_view(*host)),
{
    match host {
        Some(Some(UrlHost::Domain(d))) => is_local_domain(d),
        Some(Some(UrlHost::Ipv4(a, b, c, d))) => {
            let (a, b, c, d) = (*a, *b, *c, *d);
            a == 127 || a == 10 || (a == 172 && 16 <= b && b <= 31) || (a == 192 && b == 168) || (a
                == 169 && b == 254) || (a == 0 && b == 0 && c == 0 && d == 0)
        },
        Some(Some(UrlHost::Ipv6(a, b, c, d, e, f, g, h))) => {
            let (a, b, c, d, e, f, g, h) = (*a, *b, *c, *d, *e, *f, *g, *h);
            let r = a == 0 && b == 0 && c == 0 && d == 0 && e == 0 && f == 0 && g == 0 && (h == 0
                || h == 1);
            proof {
                let s = seq![a, b, c, d, e, f, g, h];
                if r {
                    assert forall|i: int| 0 <= i < 7 implies s[i] == 0 by {}
                } else {
                    if forall|i: int| 0 <= i < 7 ==> s[i] == 0 {
                        assert(s[0] == a && s[1] == b && s[2] == c && s[3] == d);
                        assert(s[4] == e && s[5] == f && s[6] == g && s[7] == h);
                    }
                }
            }
            r
        },
        _ => false,
    }
}

/// Whether a URL's host is only reachable from here (see [`spec_is_locally_routable`]).
pub fn is_locally_routable(url: &str) -> (r: bool)
    ensures
        r == spec_is_locally_routable(url@),
{
    let host = url_host(url);
    is_local_host(&host)
}

/// How Spider Cloud fetches pages.
#[derive(Debug, PartialEq, Eq, Structural, Clone, Copy)]
pub enum SpiderCloudMode {
    Proxy,
    Api,
    Unblocker,
    Fallback,
    Smart,
}

/// The mode a setting names, read trimmed and without regard to ASCII case: `proxy`, `api`,
/// `unblocker` and `fallback` name theirs, and anything else means `Smart`.
pub open spec fn spec_spider_cloud_mode(setting: Seq<char>) -> SpiderCloudMode {
    let t = spec_trim(setting).map_values(|c: char| ascii_lower(c));
    if t == "proxy"@.map_values(|c: char| c as u32) {
        SpiderCloudMode::Proxy
    } else if t == "api"@.map_values(|c: char| c as u32) {
        SpiderCloudMode::Api
    } else if t == "unblocker"@.map_values(|c: char| c as u32) {
        SpiderCloudMode::Unblocker
    } else if t == "fallback"@.map_values(|c: char| c as u32) {
        SpiderCloudMode::Fallback
    } else {
        SpiderCloudMode::Smart
    }
}

/// The code points of `t` equal the characters of `word`.
fn codes_equal(t: &Vec<u32>, word: &str) -> (r: bool)
    ensures
        r == (t@ == word@.map_values(|c: char| c as u32)),
{
    let w = chars_of(word);
    let ghost wv = word@.map_values(|c: char| c as u32);
    if t.len() != w.len() {
        return false;
    }
    let mut i: usize = 0;
    while i < t.len()
        invariant
            i <= t@.len(),
            t@.len() == w@.len(),
            w@ == word@,
            wv == word@.map_values(|c: char| c as u32),
            forall|j: int| 0 <= j < i ==> t@[j] == wv[j],
        decreases t@.len() - i,
    {
        if t[i] != w[i] as u32 {
            assert(t@[i as int] != wv[i as int]);
            return false;
        }
        i = i + 1;
    }
    assert(t@ =~= wv);
    true
}

/// The Spider Cloud mode a setting names (see [`spec_spider_cloud_mode`]).
pub fn spider_cloud_mode(setting: &str) -> (r: SpiderCloudMode)
    ensures
        r == spec_spider_cloud_mode(setting@),
{
    let c = chars_of(setting);
    let t = trim(c.as_slice());
    let mut codes: Vec<u32> = Vec::new();
    let mut i: usize = 0;
    while i < t.len()
        invariant
            i <= t@.len(),
            codes@ == t@.subrange(0, i as int).map_values(|c: char| ascii_lower(c)),
        decreases t@.len() - i,
    {
        codes.push(ascii_lower_code(t[i]));
        proof {
            assert(t@.subrange(0, i + 1).map_values(|c: char| ascii_lower(c)) =~= t@.subrange(
                0,
                i as int,
            ).map_values(|c: char| ascii_lower(c)).push(ascii_lower(t@[i as int])));
        }
        i = i + 1;
    }
    proof {
        assert(t@.subrange(0, t@.len() as int) =~= t@);
    }
    if codes_equal(&codes, "proxy") {
        SpiderCloudMode::Proxy
    } else if codes_equal(&codes, "api") {
        SpiderCloudMode::Api
    } else if codes_equal(&codes, "unblocker") {
        SpiderCloudMode::Unblocker
    } else if codes_equal(&codes, "fallback") {
        SpiderCloudMode::Fallback
    } else {
        SpiderCloudMode::Smart
    }
}

/// A Spider Cloud API key or URL setting, trimmed; `None` when nothing but whitespace remains.
pub fn trimmed_setting(raw: &str) -> (r: Option<String>)
    ensures
        match r {
            Some(s) => s@ == spec_trim(raw@) && s@.len() > 0,
            None => spec_trim(raw@).len() == 0,
        },
{
    let c = chars_of(raw);
    let t = trim(c.as_slice());
    if t.len() == 0 {
        None
    } else {
        Some(string_from_chars(t.as_slice()))
    }
}

/// How pages are fetched through Spider Cloud: the API key, the mode, and the API address when
/// one is set.
#[derive(Debug)]
pub struct SpiderCloudSettings {
    pub api_key: String,
    pub mode: SpiderCloudMode,
    pub api_url: Option<String>,
}

/// The Spider Cloud settings from the configured values (each `None` when not set): none
/// without an API key that is more than whitespace; otherwise the trimmed key, the mode the mode
/// setting names (see [`spec_spider_cloud_mode`], `Smart` when unset), and the trimmed API address
/// when it is more than whitespace.
pub fn spider_cloud_settings(
    api_key: Option<String>,
    mode: Option<String>,
    api_url: Option<String>,
) -> (r: Option<SpiderCloudSettings>)
    ensures
        match api_key {
            None => r is None,
            Some(k) => if spec_trim(k@).len() == 0 {
                r is None
            } else {
                r matches Some(c) && c.api_key@ == spec_trim(k@) && c.mode == spec_spider_cloud_mode(
                    match mode {
                        Some(m) => m@,
                        None => Seq::<char>::empty(),
                    },
                ) && match api_url {
                    Some(u) => if spec_trim(u@).len() == 0 {
                        c.api_url is None
                    } else {
                        c.api_url matches Some(x) && x@ == spec_trim(u@)
                    },
                    None => c.api_url is None,
                }
            },
        },
{
    let key = match &api_key {
        Some(k) => k,
        None => return None,
    };
    let trimmed_key = match trimmed_setting(key.as_str()) {
        Some(t) => t,
        None => return None,
    };
    let chosen_mode = match &mode {
        Some(m) => spider_cloud_mode(m.as_str()),
        None => {
            proof {
                reveal_strlit("");
                assert(""@ =~= Seq::<char>::empty());
            }
            spider_cloud_mode("")
        },
    };
    let trimmed_url = match &api_url {
        Some(u) => trimmed_setting(u.as_str()),
        None => None,
    };
    assert(chosen_mode == spec_spider_cloud_mode(
        match mode {
            Some(m) => m@,
            None => Seq::<char>::empty(),
        },
    ));
    Some(SpiderCloudSettings { api_key: trimmed_key, mode: chosen_mode, api_url: trimmed_url })
}

/// Whether a page is fetched through Spider Cloud: when it is configured and the URL's host is
/// not only reachable from here (see [`spec_is_locally_routable`]).
pub fn uses_spider_cloud(configured: bool, url: &str) -> (r: bool)
    ensures
        r == (configured && !spec_is_locally_routable(url@)),
{
    configured && !is_locally_routable(url)
}

} // verus!
