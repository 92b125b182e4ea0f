//! Absolute URLs.

use crate::text;
use vstd::prelude::*;

verus! {

/// The host of a URL.
#[derive(Debug, Clone, PartialEq, Eq)]
pub enum UrlHost {
    /// A name.
    Domain(String),
    /// An IPv4 address, the first octet highest.
    V4(u32),
    /// An IPv6 address, the first octet highest.
    V6(u128),
}

/// The parts of an absolute URL.
#[derive(Debug, PartialEq, Eq)]
pub(crate) struct UrlParts {
    pub(crate) href: String,
    pub(crate) scheme: String,
    pub(crate) host: Option<UrlHost>,
    pub(crate) host_text: Option<String>,
    pub(crate) path: String,
    pub(crate) query: Option<String>,
    pub(crate) fragment: Option<String>,
}

/// An absolute URL: what the URL crate holds of it, and the parts of that.
#[derive(Debug, PartialEq, Eq)]
pub struct WebUrl {
    url: url::Url,
    parts: UrlParts,
}

/// What a host holds.
pub enum HostModel {
    Domain(Seq<char>),
    V4(u32),
    V6(u128),
}

/// What a URL holds: its serialization and the parts of it.
pub struct UrlModel {
    pub href: Seq<char>,
    pub scheme: Seq<char>,
    pub host: Option<HostModel>,
    pub host_text: Option<Seq<char>>,
    pub path: Seq<char>,
    pub query: Option<Seq<char>>,
    pub fragment: Option<Seq<char>>,
}

impl View for UrlHost {
    type V = HostModel;

    open spec fn view(&self) -> HostModel {
        match *self {
            UrlHost::Domain(d) => HostModel::Domain(d@),
            UrlHost::V4(n) => HostModel::V4(n),
            UrlHost::V6(n) => HostModel::V6(n),
        }
    }
}

impl View for WebUrl {
    type V = UrlModel;

    closed spec fn view(&self) -> UrlModel {
        self.parts.model()
    }
}

impl UrlParts {
    pub closed spec fn model(&self) -> UrlModel {
        UrlModel {
            href: self.href@,
            scheme: self.scheme@,
            host: match self.host {
                Some(h) => Some(h@),
                None => None,
            },
            host_text: text::opt_view(self.host_text),
            path: self.path@,
            query: text::opt_view(self.query),
            fragment: text::opt_view(self.fragment),
        }
    }
}

/// Declares `url::Url`.
#[verifier::external_type_specification]
#[verifier::external_body]
pub struct ExUrl(url::Url);

/// What a URL of the URL crate holds.
pub uninterp spec fn url_value(u: url::Url) -> UrlModel;

/// The URL that a text parses to, or what is wrong with the text.
pub uninterp spec fn url_of(s: Seq<char>) -> Result<UrlModel, Seq<char>>;

/// The URL that a reference stands for, relative to a base URL, or what is
/// wrong with the reference.
pub uninterp spec fn url_joined(base: UrlModel, reference: Seq<char>) -> Result<
    UrlModel,
    Seq<char>,
>;

/// The name-value pairs that a form-encoded text stands for, decoded.
pub uninterp spec fn form_pairs(encoded: Seq<char>) -> Seq<(Seq<char>, Seq<char>)>;

/// The form-encoded text of name-value pairs.
pub uninterp spec fn form_text(pairs: Seq<(Seq<char>, Seq<char>)>) -> Seq<char>;

// ---------------------------------------------------------------------------
// The layout of a URL
// ---------------------------------------------------------------------------

/// A part behind its mark, or nothing where there is no such part.
pub open spec fn marked(mark: char, part: Option<Seq<char>>) -> Seq<char> {
    match part {
        Some(p) => seq![mark] + p,
        None => Seq::empty(),
    }
}

/// The query and the fragment of a URL, as they stand in it.
pub open spec fn ending(u: UrlModel) -> Seq<char> {
    marked('?', u.query) + marked('#', u.fragment)
}

/// What follows the scheme and the authority of a URL.
pub open spec fn tail(u: UrlModel) -> Seq<char> {
    u.path + ending(u)
}

/// The scheme and the authority of a URL.
pub open spec fn front(u: UrlModel) -> Seq<char> {
    u.href.take(u.href.len() - tail(u).len())
}

/// The parts stand in the serialization in their order: the scheme and the
/// authority, the path, the query, the fragment.
pub open spec fn laid_out(u: UrlModel) -> bool {
    tail(u).is_suffix_of(u.href) && (u.scheme + ":"@).is_prefix_of(front(u))
}

/// The text of a URL with another query.
pub open spec fn requeried(u: UrlModel, query: Seq<char>) -> Seq<char> {
    front(u) + u.path + marked('?', Some(query)) + marked('#', u.fragment)
}

/// A URL with another query. Nothing else changes.
pub open spec fn requeried_url(u: UrlModel, query: Seq<char>) -> UrlModel {
    UrlModel { href: requeried(u, query), query: Some(query), ..u }
}

/// The query and the fragment of a URL with another query would start at
/// positions that 32 bits hold. The URL crate keeps positions in so many.
pub open spec fn query_fits(u: UrlModel, query: Seq<char>) -> bool {
    &&& text::byte_len(front(u) + u.path) <= u32::MAX
    &&& u.fragment is Some ==> text::byte_len(front(u) + u.path + marked('?', Some(query)))
        <= u32::MAX
}

/// A character of form-encoded text.
pub open spec fn form_char(c: char) -> bool {
    ||| text::is_upper(c) || text::is_lower(c) || text::is_digit(c)
    ||| c == '*' || c == '-' || c == '.' || c == '_' || c == '+' || c == '%' || c == '&' || c == '='
}

/// Form-encoded text: nothing in it has to be escaped in a query.
pub open spec fn form_encoded(s: Seq<char>) -> bool {
    forall|i: int| 0 <= i < s.len() ==> form_char(#[trigger] s[i])
}

/// What a list of string pairs holds.
pub open spec fn pair_views(v: Seq<(String, String)>) -> Seq<(Seq<char>, Seq<char>)> {
    Seq::new(v.len(), |i: int| (v[i].0@, v[i].1@))
}

/// Parses with `url::Url::parse`. Whether a text parses, and to what, depends on
/// the text alone.
#[verifier::external_body]
fn parse_url(s: &str) -> (r: Result<url::Url, String>)
    ensures
        match r {
            Ok(u) => url_of(s@) == Ok::<UrlModel, Seq<char>>(url_value(u)),
            Err(e) => url_of(s@) == Err::<UrlModel, Seq<char>>(e@),
        },
{
    url::Url::parse(s).map_err(|e| e.to_string())
}

/// Reads the parts of a `url::Url` with its accessors. Path, query and fragment
/// are slices of the serialization, in this order and at its end, each behind
/// its mark; the scheme and a colon stand in front.
#[verifier::external_body]
fn parts_of(u: &url::Url) -> (r: UrlParts)
    ensures
        r.model() == url_value(*u),
        laid_out(r.model()),
{
    let host = u.host().map(|h| match h {
        url::Host::Domain(d) => UrlHost::Domain(d.into()),
        url::Host::Ipv4(a) => UrlHost::V4(a.into()),
        url::Host::Ipv6(a) => UrlHost::V6(a.into()),
    });
    UrlParts {
        href: u.as_str().into(),
        scheme: u.scheme().into(),
        host,
        host_text: u.host_str().map(Into::into),
        path: u.path().into(),
        query: u.query().map(Into::into),
        fragment: u.fragment().map(Into::into),
    }
}

/// Copies a `url::Url`.
#[verifier::external_body]
fn copy_url(u: &url::Url) -> (r: url::Url)
    ensures
        url_value(r) == url_value(*u),
{
    u.clone()
}

/// Resolves a reference against a base with `url::Url::join`. The result depends
/// on what the base holds and on the reference alone.
#[verifier::external_body]
fn join_url(base: &url::Url, reference: &str) -> (r: Result<url::Url, String>)
    ensures
        match r {
            Ok(u) => url_joined(url_value(*base), reference@) == Ok::<UrlModel, Seq<char>>(
                url_value(u),
            ),
            Err(e) => url_joined(url_value(*base), reference@) == Err::<UrlModel, Seq<char>>(e@),
        },
{
    base.join(reference).map_err(|e| e.to_string())
}

/// Replaces the scheme with `url::Url::set_scheme`. From `http` to `https` it
/// never fails on a URL with a host: the scheme changes, and a port of 443,
/// which `https` implies, goes. The URL crate keeps positions in 32 bits, so
/// the last part has to start early enough for one more character.
#[verifier::external_body]
fn https_of(u: &url::Url) -> (r: Option<url::Url>)
    requires
        url_value(*u).scheme == "http"@,
        url_value(*u).host is Some,
        last_mark(url_value(*u)) < u32::MAX,
    ensures
        r is Some,
        url_value(r->Some_0) == https_url(url_value(*u)),
{
    let mut v = u.clone();
    v.set_scheme("https").ok()?;
    Some(v)
}

/// Replaces the query with `url::Url::set_query`. Form-encoded text goes in as
/// it is, and nothing but the query changes.
#[verifier::external_body]
fn requery_url(u: &url::Url, query: &str) -> (r: url::Url)
    requires
        form_encoded(query@),
        query_fits(url_value(*u), query@),
    ensures
        url_value(r) == requeried_url(url_value(*u), query@),
{
    let mut v = u.clone();
    v.set_query(Some(query));
    v
}

/// Reads form-encoded text with `url::form_urlencoded::parse`, which is what
/// `url::Url::query_pairs` calls on the query: percent-decoded pairs, in order.
#[verifier::external_body]
fn pairs_of_form(encoded: &str) -> (r: Vec<(String, String)>)
    ensures
        pair_views(r@) == form_pairs(encoded@),
{
    url::form_urlencoded::parse(encoded.as_bytes()).into_owned().collect()
}

/// Writes pairs, in order, with `url::form_urlencoded::Serializer`, which is
/// what `url::Url::query_pairs_mut` puts into the query. Reading the text gives
/// the same pairs, and it holds nothing that a query has to escape.
#[verifier::external_body]
fn form_of_pairs(pairs: &Vec<(String, String)>) -> (r: String)
    ensures
        r@ == form_text(pair_views(pairs@)),
        form_pairs(r@) == pair_views(pairs@),
        form_encoded(r@),
{
    url::form_urlencoded::Serializer::new(String::new()).extend_pairs(pairs).finish()
}

/// A result and what it holds.
pub open spec fn holds(r: Result<WebUrl, String>, m: Result<UrlModel, Seq<char>>) -> bool {
    match m {
        Ok(u) => r is Ok && r->Ok_0@ == u,
        Err(e) => r is Err && r->Err_0@ == e,
    }
}

/// The decoded name-value pairs of a URL's query.
pub open spec fn url_query_pairs(u: UrlModel) -> Seq<(Seq<char>, Seq<char>)> {
    match u.query {
        Some(q) => form_pairs(q),
        None => Seq::empty(),
    }
}

/// What [`WebUrl::with_query`] makes of a URL and pairs: the URL with that query,
/// unless its parts would start too late.
pub open spec fn url_with_query(u: UrlModel, pairs: Seq<(Seq<char>, Seq<char>)>) -> Result<
    UrlModel,
    Seq<char>,
> {
    if query_fits(u, form_text(pairs)) {
        Ok(requeried_url(u, form_text(pairs)))
    } else {
        Err("URLs more than 4 GB are not supported"@)
    }
}

/// The scheme, the authority and the path of a URL.
fn before_query(u: &UrlParts) -> (r: String)
    requires
        laid_out(u.model()),
    ensures
        r@ == front(u.model()) + u.path@,
{
    let v = text::chars_of(u.href.as_str());
    let len = v.len();
    let ghost m = u.model();
    let ghost ends = ending(m);
    let mut kept: usize = len;
    assert(u.href@.len() >= tail(m).len());
    match &u.query {
        Some(q) => {
            kept = kept - 1 - text::chars_of(q.as_str()).len();
        },
        None => {},
    }
    match &u.fragment {
        Some(f) => {
            kept = kept - 1 - text::chars_of(f.as_str()).len();
        },
        None => {},
    }
    proof {
        assert(kept == len - ends.len());
        let n = len - tail(m).len();
        assert(m.href.skip(n) == tail(m));
        assert(m.href.subrange(0, kept as int) =~= front(m) + m.path) by {
            assert forall|i: int| 0 <= i < m.path.len() implies m.href[n + i] == m.path[i] by {
                assert(m.href.skip(n)[i] == m.href[n + i]);
                assert(tail(m)[i] == m.path[i]);
            }
        }
    }
    text::string_of(vstd::slice::slice_subrange(v.as_slice(), 0, kept))
}

fn requery(u: &UrlParts, query: &str) -> (r: String)
    requires
        laid_out(u.model()),
    ensures
        r@ == requeried(u.model(), query@),
{
    proof {
        reveal_strlit("?");
        reveal_strlit("#");
        assert("?"@ =~= seq!['?']);
        assert("#"@ =~= seq!['#']);
    }
    let r = before_query(u).concat("?").concat(query);
    let whole = match &u.fragment {
        Some(f) => r.concat("#").concat(f.as_str()),
        None => r,
    };
    assert(whole@ =~= requeried(u.model(), query@));
    whole
}

fn fits(u: &UrlParts, query: &str) -> (r: bool)
    requires
        laid_out(u.model()),
    ensures
        r == query_fits(u.model(), query@),
{
    let start = before_query(u);
    if text::byte_len_of(start.as_str()) as u64 > u32::MAX as u64 {
        return false;
    }
    match &u.fragment {
        None => true,
        Some(_) => {
            proof {
                reveal_strlit("?");
                assert("?"@ =~= seq!['?']);
            }
            let end = start.concat("?").concat(query);
            assert(end@ =~= front(u.model()) + u.path@ + marked('?', Some(query@)));
            text::byte_len_of(end.as_str()) as u64 <= u32::MAX as u64
        },
    }
}

fn pairs_in(u: &UrlParts) -> (r: Vec<(String, String)>)
    ensures
        pair_views(r@) == url_query_pairs(u.model()),
{
    match &u.query {
        Some(q) => pairs_of_form(q.as_str()),
        None => {
            let none: Vec<(String, String)> = Vec::new();
            assert(pair_views(none@) =~= Seq::<(Seq<char>, Seq<char>)>::empty());
            none
        },
    }
}

impl WebUrl {
    #[verifier::type_invariant]
    closed spec fn wf(&self) -> bool {
        self.parts.model() == url_value(self.url) && laid_out(self.parts.model())
    }

    /// Takes over a URL of the URL crate.
    pub fn from_url(url: url::Url) -> (r: WebUrl)
        ensures
            r@ == url_value(url),
            laid_out(r@),
    {
        let parts = parts_of(&url);
        WebUrl { url, parts }
    }

    /// The URL, for the URL crate.
    pub fn as_url(&self) -> (r: &url::Url)
        ensures
            url_value(*r) == self@,
    {
        proof {
            use_type_invariant(self);
        }
        &self.url
    }

    /// Parses an absolute URL.
    pub fn parse(s: &str) -> (r: Result<WebUrl, String>)
        ensures
            holds(r, url_of(s@)),
    {
        match parse_url(s) {
            Ok(u) => Ok(WebUrl::from_url(u)),
            Err(e) => Err(e),
        }
    }

    /// Resolves a reference against this URL.
    pub fn join(&self, reference: &str) -> (r: Result<WebUrl, String>)
        ensures
            holds(r, url_joined(self@, reference@)),
    {
        proof {
            use_type_invariant(self);
        }
        match join_url(&self.url, reference) {
            Ok(u) => Ok(WebUrl::from_url(u)),
            Err(e) => Err(e),
        }
    }

    /// This URL with its query replaced by the given pairs. Reading the query
    /// back gives the pairs, and nothing but the query changes. It fails only
    /// where a part would start behind the first 4 GiB.
    pub fn with_query(&self, pairs: &Vec<(String, String)>) -> (r: Result<WebUrl, String>)
        ensures
            holds(r, url_with_query(self@, pair_views(pairs@))),
            r is Ok ==> url_query_pairs(r->Ok_0@) == pair_views(pairs@),
    {
        proof {
            use_type_invariant(self);
        }
        let query = form_of_pairs(pairs);
        if fits(&self.parts, query.as_str()) {
            Ok(WebUrl::from_url(requery_url(&self.url, query.as_str())))
        } else {
            Err("URLs more than 4 GB are not supported".to_string())
        }
    }

    /// The name-value pairs of the query, decoded.
    pub fn query_pairs(&self) -> (r: Vec<(String, String)>)
        ensures
            pair_views(r@) == url_query_pairs(self@),
    {
        pairs_in(&self.parts)
    }

    /// The serialization.
    pub fn href(&self) -> (r: &str)
        ensures
            r@ == self@.href,
    {
        self.parts.href.as_str()
    }

    /// The scheme, in lower case.
    pub fn scheme(&self) -> (r: &str)
        ensures
            r@ == self@.scheme,
    {
        self.parts.scheme.as_str()
    }

    /// The path.
    pub fn path(&self) -> (r: &str)
        ensures
            r@ == self@.path,
    {
        self.parts.path.as_str()
    }

    /// The host, as it stands in the serialization.
    pub fn host_str(&self) -> (r: Option<&String>)
        ensures
            match self@.host_text {
                Some(h) => r is Some && r->Some_0@ == h,
                None => r is None,
            },
    {
        self.parts.host_text.as_ref()
    }
}

impl Clone for WebUrl {
    fn clone(&self) -> (r: Self)
        ensures
            r@ == self@,
    {
        proof {
            use_type_invariant(self);
        }
        WebUrl::from_url(copy_url(&self.url))
    }
}

// ---------------------------------------------------------------------------
// Scheme upgrade
// ---------------------------------------------------------------------------

/// `localhost` or a name below it, in any case.
pub open spec fn localhost_domain(d: Seq<char>) -> bool {
    let low = text::lower(d);
    low == "localhost"@ || (".localhost"@.is_suffix_of(low) && d.len() > 10)
}

/// `::1`, or an IPv4 loopback address in IPv6 clothes.
pub open spec fn ipv6_loopback(n: u128) -> bool {
    n == 1 || 0xFFFF_7F00_0000 <= n <= 0xFFFF_7FFF_FFFF
}

/// The host is this machine.
pub open spec fn loopback_host(h: HostModel) -> bool {
    match h {
        HostModel::Domain(d) => localhost_domain(d),
        HostModel::V4(n) => 0x7F00_0000 <= n <= 0x7FFF_FFFF,
        HostModel::V6(n) => ipv6_loopback(n),
    }
}

/// Where the last part of a URL starts, in bytes: the fragment, else the query,
/// else the path.
pub open spec fn last_mark(u: UrlModel) -> int {
    text::byte_len(u.href) - (match (u.query, u.fragment) {
        (_, Some(f)) => 1 + text::byte_len(f),
        (Some(q), None) => 1 + text::byte_len(q),
        (None, None) => text::byte_len(u.path),
    })
}

/// A text without an ending.
pub open spec fn without_ending(s: Seq<char>, e: Seq<char>) -> Seq<char> {
    if e.is_suffix_of(s) {
        s.take(s.len() - e.len())
    } else {
        s
    }
}

/// The text of a plain `http` URL over `https`: the scheme is replaced, and a
/// port of 443 is left out.
pub open spec fn https_text(u: UrlModel) -> Seq<char> {
    "https"@ + without_ending(front(u).skip(4), ":443"@) + tail(u)
}

/// A plain `http` URL over `https`.
pub open spec fn https_url(u: UrlModel) -> UrlModel {
    UrlModel { href: https_text(u), scheme: "https"@, ..u }
}

/// The URL is plain `http` to another machine.
pub open spec fn exposed(u: UrlModel) -> bool {
    u.scheme == "http"@ && u.host is Some && !loopback_host(u.host->Some_0)
}

/// The URL that is requested in place of `u`: the same over `https` where `u`
/// is plain `http` to another machine, `u` itself otherwise. A URL whose parts
/// could not move by one more character, at 4 GiB, stays as it is.
pub open spec fn upgraded(u: UrlModel) -> UrlModel {
    if exposed(u) && last_mark(u) < u32::MAX {
        https_url(u)
    } else {
        u
    }
}

/// Where the last part of a URL starts, in bytes.
fn last_mark_of(u: &UrlParts) -> (r: i128)
    ensures
        r == last_mark(u.model()),
{
    let all = text::byte_len_of(u.href.as_str()) as i128;
    match (&u.query, &u.fragment) {
        (_, Some(f)) => all - 1 - text::byte_len_of(f.as_str()) as i128,
        (Some(q), None) => all - 1 - text::byte_len_of(q.as_str()) as i128,
        (None, None) => all - text::byte_len_of(u.path.as_str()) as i128,
    }
}

/// Whether a name is `localhost` or below it, in any case.
pub fn is_localhost_domain(d: &str) -> (r: bool)
    ensures
        r == localhost_domain(d@),
{
    let low = text::lower_of(d);
    if text::same(low.as_str(), "localhost") {
        return true;
    }
    let v = text::chars_of(low.as_str());
    let suffix = text::chars_of(".localhost");
    proof {
        reveal_strlit(".localhost");
    }
    v.len() > suffix.len() && text::ends_with(v.as_slice(), suffix.as_slice())
}

/// Whether an IPv6 address is `::1` or an IPv4-mapped loopback address.
pub fn is_ipv6_loopback(n: u128) -> (r: bool)
    ensures
        r == ipv6_loopback(n),
{
    n == 1 || (0xFFFF_7F00_0000 <= n && n <= 0xFFFF_7FFF_FFFF)
}

/// Replaces `http` by `https`, except on this machine.
///
/// Nothing but the scheme changes, and a port that `https` implies goes; host,
/// path, query and fragment stay as they are.
pub fn upgrade_http_to_https(url: &WebUrl) -> (r: WebUrl)
    ensures
        r@ == upgraded(url@),
        laid_out(url@),
        laid_out(r@),
{
    proof {
        use_type_invariant(url);
    }
    if !text::same(url.parts.scheme.as_str(), "http") {
        return url.clone();
    }
    match &url.parts.host {
        None => return url.clone(),
        Some(UrlHost::Domain(d)) => if is_localhost_domain(d.as_str()) {
            return url.clone();
        },
        Some(UrlHost::V4(n)) => if 0x7F00_0000 <= *n && *n <= 0x7FFF_FFFF {
            return url.clone();
        },
        Some(UrlHost::V6(n)) => if is_ipv6_loopback(*n) {
            return url.clone();
        },
    }
    if last_mark_of(&url.parts) >= u32::MAX as i128 {
        return url.clone();
    }
    match https_of(&url.url) {
        Some(secure) => WebUrl::from_url(secure),
        None => url.clone(),
    }
}

/// Plain `http` to another machine becomes `https` with the host, the path, the
/// query and the fragment kept; unless it names port 443, only the scheme
/// changes in its text. Every other URL stays as it is, and upgrading twice is
/// upgrading once.
pub proof fn law_plain_http_becomes_https(u: UrlModel)
    ensures
        !exposed(u) ==> upgraded(u) == u,
        exposed(u) && last_mark(u) < u32::MAX ==> {
            let v = upgraded(u);
            &&& v.scheme == "https"@
            &&& v.host == u.host && v.host_text == u.host_text
            &&& v.path == u.path && v.query == u.query && v.fragment == u.fragment
            &&& tail(u).is_suffix_of(v.href)
            &&& laid_out(u) && !":443"@.is_suffix_of(front(u)) ==> v.href == "https"@
                + u.href.skip(4)
        },
        upgraded(upgraded(u)) == upgraded(u),
{
    reveal_strlit("http");
    reveal_strlit("https");
    reveal_strlit(":443");
    reveal_strlit(":");
    assert("http"@.len() != "https"@.len());
    if exposed(u) && last_mark(u) < u32::MAX {
        let f = front(u);
        let m = f.skip(4);
        let v = upgraded(u);
        let w = "https"@ + without_ending(m, ":443"@);
        assert(v.href =~= w + tail(u));
        assert(v.href.skip(w.len() as int) =~= tail(u));
        if laid_out(u) && !":443"@.is_suffix_of(f) {
            assert(f.len() >= 5);
            assert(!":443"@.is_suffix_of(m)) by {
                if ":443"@.is_suffix_of(m) {
                    assert(f.skip(f.len() - 4) =~= m.skip(m.len() - 4));
                }
            }
            assert(u.href.skip(u.href.len() - tail(u).len()) == tail(u));
            assert(f + tail(u) =~= u.href);
            assert("https"@ + m + tail(u) =~= "https"@ + u.href.skip(4));
        }
    }
}

// ---------------------------------------------------------------------------
// Queries
// ---------------------------------------------------------------------------

/// The name of the query parameter that carries a secret.
pub open spec fn secret_name() -> Seq<char> {
    "api_key"@
}

/// A pair with its value hidden where it is a secret.
pub open spec fn redact_pair(p: (Seq<char>, Seq<char>)) -> (Seq<char>, Seq<char>) {
    if p.0 == secret_name() {
        (p.0, "REDACTED"@)
    } else {
        p
    }
}

/// Every pair, in order, with the secrets hidden.
pub open spec fn redact_pairs(v: Seq<(Seq<char>, Seq<char>)>) -> Seq<(Seq<char>, Seq<char>)> {
    Seq::new(v.len(), |i: int| redact_pair(v[i]))
}

/// One of the pairs is a secret.
pub open spec fn has_secret(v: Seq<(Seq<char>, Seq<char>)>) -> bool {
    exists|i: int| 0 <= i < v.len() && (#[trigger] v[i]).0 == secret_name()
}

/// A URL's text with the secrets of its query hidden.
pub open spec fn redacted_href(u: UrlModel) -> Seq<char> {
    if has_secret(url_query_pairs(u)) {
        requeried(u, form_text(redact_pairs(url_query_pairs(u))))
    } else {
        u.href
    }
}

/// Renders a URL with the value of every `api_key` query parameter replaced by
/// `REDACTED`. The other pairs and the order are kept; a URL without such a
/// parameter is rendered as it is.
pub fn redact_api_key_query(url: &WebUrl) -> (r: String)
    ensures
        r@ == redacted_href(url@),
        has_secret(url_query_pairs(url@)) ==> form_pairs(
            form_text(redact_pairs(url_query_pairs(url@))),
        ) == redact_pairs(url_query_pairs(url@)),
{
    proof {
        use_type_invariant(url);
    }
    let pairs = pairs_in(&url.parts);
    let ghost all = pair_views(pairs@);
    let mut out: Vec<(String, String)> = Vec::new();
    let mut found = false;
    let mut i: usize = 0;
    while i < pairs.len()
        invariant
            i <= pairs.len(),
            all == pair_views(pairs@),
            out@.len() == i,
            forall|j: int|
                0 <= j < i ==> ((#[trigger] out@[j]).0@, out@[j].1@) == redact_pair(all[j]),
            found == exists|j: int| 0 <= j < i && (#[trigger] all[j]).0 == secret_name(),
        decreases pairs.len() - i,
    {
        let (k, v) = &pairs[i];
        assert(all[i as int] == (k@, v@));
        if text::same(k.as_str(), "api_key") {
            found = true;
            out.push((k.clone(), "REDACTED".to_string()));
        } else {
            out.push((k.clone(), v.clone()));
        }
        i += 1;
    }
    if !found {
        return url.parts.href.clone();
    }
    assert(pair_views(out@) =~= redact_pairs(all));
    let query = form_of_pairs(&out);
    requery(&url.parts, query.as_str())
}

/// No value of an `api_key` parameter outlives the redaction, and every other
/// pair stays where it was.
pub proof fn law_redaction_hides_secrets_only(v: Seq<(Seq<char>, Seq<char>)>, i: int)
    requires
        0 <= i < v.len(),
    ensures
        redact_pairs(v).len() == v.len(),
        redact_pairs(v)[i].0 == v[i].0,
        v[i].0 == "api_key"@ ==> redact_pairs(v)[i].1 == "REDACTED"@,
        v[i].0 != "api_key"@ ==> redact_pairs(v)[i].1 == v[i].1,
{
}

/// A loopback host is `localhost` or a name below it, in any case; an IPv4 address
/// whose first byte is 127; or the IPv6 loopback address, or such an IPv4 address
/// mapped into IPv6.
pub proof fn law_loopback_hosts(d: Seq<char>, n: u32, w: u128)
    ensures
        loopback_host(HostModel::Domain(d)) <==> text::lower(d) == "localhost"@ || exists|
            sub: Seq<char>,
        |
            sub.len() > 0 && text::lower(d) == #[trigger] (sub + ".localhost"@),
        loopback_host(HostModel::V4(n)) <==> n / 0x100_0000 == 127,
        loopback_host(HostModel::V6(w)) <==> w == 1 || w / 0x100_0000 == 0xFFFF_7F,
{
    reveal_strlit(".localhost");
    let low = text::lower(d);
    if ".localhost"@.is_suffix_of(low) && d.len() > 10 {
        let sub = low.take(low.len() - 10);
        assert(low =~= sub + ".localhost"@);
    }
    if exists|sub: Seq<char>| sub.len() > 0 && low == #[trigger] (sub + ".localhost"@) {
        let sub = choose|sub: Seq<char>| sub.len() > 0 && low == #[trigger] (sub + ".localhost"@);
        assert(low.subrange(low.len() - 10, low.len() as int) =~= ".localhost"@);
    }
}

/// A plain HTTP address that names the port of HTTPS loses the port when it is
/// made one of HTTPS.
pub proof fn law_default_ports_are_left_out(u: UrlModel, authority: Seq<char>)
    requires
        laid_out(u),
        exposed(u),
        last_mark(u) < u32::MAX,
        u.href == "http"@ + authority + ":443"@ + tail(u),
    ensures
        upgraded(u).href == "https"@ + authority + tail(u),
{
    reveal_strlit("http");
    reveal_strlit(":443");
    let f = front(u);
    assert(f =~= "http"@ + authority + ":443"@);
    let rest = f.skip(4);
    assert(rest =~= authority + ":443"@);
    assert(rest.subrange(rest.len() - 4, rest.len() as int) =~= ":443"@);
    assert(rest.take(rest.len() - 4) =~= authority);
}

/// An address is shown as it is where its query holds no secret; else with a
/// query in its place in which each secret is masked and nothing else changed.
pub proof fn law_shown_addresses_differ_in_secrets_only(u: UrlModel)
    ensures
        (forall|i: int|
            0 <= i < url_query_pairs(u).len() ==> (#[trigger] url_query_pairs(u)[i]).0
                != "api_key"@) ==> redacted_href(u) == u.href,
        (exists|i: int|
            0 <= i < url_query_pairs(u).len() && (#[trigger] url_query_pairs(u)[i]).0
                == "api_key"@) ==> redacted_href(u) == u.href.take(u.href.len() - tail(u).len())
            + u.path + (seq!['?'] + form_text(redact_pairs(url_query_pairs(u)))) + (
        match u.fragment {
            Some(f) => seq!['#'] + f,
            None => Seq::empty(),
        }),
{
}

/// A query stands between the path and the fragment; the rest of the address is
/// kept.
pub proof fn law_queries_stand_in_their_place(u: UrlModel, query: Seq<char>, before: Seq<char>)
    requires
        laid_out(u),
        u.href == before + u.path + marked('?', u.query) + marked('#', u.fragment),
    ensures
        requeried(u, query) == before + u.path + (seq!['?'] + query) + (match u.fragment {
            Some(f) => seq!['#'] + f,
            None => Seq::empty(),
        }),
        requeried_url(u, query).query == Some(query),
        requeried_url(u, query).path == u.path,
        requeried_url(u, query).fragment == u.fragment,
        requeried_url(u, query).host == u.host,
        requeried_url(u, query).host_text == u.host_text,
        requeried_url(u, query).scheme == u.scheme,
        requeried_url(u, query).href == requeried(u, query),
{
    assert(front(u) =~= before);
}

/// An address is made one of HTTPS where it is one of plain HTTP to another
/// machine; one to this machine, and one of any other scheme, is left as it is.
pub proof fn law_addresses_of_this_machine_are_left(u: UrlModel, h: HostModel)
    ensures
        u.scheme != "http"@ ==> upgraded(u) == u,
        u.host is None ==> upgraded(u) == u,
        u.host == Some(h) && loopback_host(h) ==> upgraded(u) == u,
        u.scheme == "http"@ && u.host == Some(h) && !loopback_host(h) && last_mark(u) < u32::MAX
            ==> upgraded(u).scheme == "https"@,
{
}

} // verus!
