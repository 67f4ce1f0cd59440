//! The address of the service, and the redirection of plain requests to it.

use crate::reply::{Head, Reply};
use crate::request::Request;
use crate::text::same_text;
use hyper::http::uri::InvalidUri;
use vstd::prelude::*;
use vstd::slice::slice_to_vec;
use vstd::string::*;

verus! {

/// hyper's error for a text that is not a URI.
#[verifier::external_type_specification]
#[verifier::external_body]
pub struct ExInvalidUri(hyper::http::uri::InvalidUri);

/// The parts of a URI that this crate asks for.
pub struct UriParts {
    pub scheme: Option<String>,
    pub authority: Option<String>,
    pub host: Option<String>,
}

/// What the parts of a URI hold.
pub struct UriPartsView {
    pub scheme: Option<Seq<char>>,
    pub authority: Option<Seq<char>>,
    pub host: Option<Seq<char>>,
}

/// The text in an `Option`, where there is one.
pub open spec fn text_of(text: Option<String>) -> Option<Seq<char>> {
    match text {
        Some(s) => Some(s@),
        None => None,
    }
}

impl View for UriParts {
    type V = UriPartsView;

    open spec fn view(&self) -> UriPartsView {
        UriPartsView {
            scheme: text_of(self.scheme),
            authority: text_of(self.authority),
            host: text_of(self.host),
        }
    }
}

/// The parts of the URI that hyper reads from a text, `None` where the text is
/// not a URI.
pub uninterp spec fn uri_parts(text: Seq<char>) -> Option<UriPartsView>;

/// The texts that hyper reads as the authority of some URI.
pub open spec fn is_authority(text: Seq<char>) -> bool {
    exists|uri: Seq<char>| #[trigger]
        uri_parts(uri) matches Some(parts) && parts.authority == Some(text)
}

/// The text of the URI that hyper builds with the scheme `https` from an
/// authority and a path with its query, `None` where it refuses one of them.
pub uninterp spec fn https_uri(authority: Seq<char>, path_and_query: Seq<char>) -> Option<Seq<char>>;

/// The characters that may stand in a path.
pub open spec fn path_char(c: char) -> bool {
    ||| c == '!'
    ||| c == '"'
    ||| '$' <= c <= ';'
    ||| c == '='
    ||| '@' <= c <= '_'
    ||| 'a' <= c <= '~'
}

/// The characters that may stand in a query.
pub open spec fn query_char(c: char) -> bool {
    ||| c == '!'
    ||| '$' <= c <= ';'
    ||| c == '='
    ||| '?' <= c <= '~'
}

/// The path and query of a request to this service: an absolute path or nothing,
/// and behind the first `?`, where there is one, a query.
pub open spec fn is_target(text: Seq<char>) -> bool {
    &&& 0 < text.len() < 65535
    &&& text[0] == '/' || text[0] == '?'
    &&& forall|i: int|
        0 <= i < text.len() ==> if text.take(i).contains('?') {
            query_char(#[trigger] text[i])
        } else {
            text[i] == '?' || path_char(text[i])
        }
}

/// A path and query with the root for a path that is missing.
pub open spec fn rooted(target: Seq<char>) -> Seq<char> {
    if target[0] == '?' {
        seq!['/'] + target
    } else {
        target
    }
}

/// Text of printable ASCII characters, without spaces.
pub open spec fn is_graphic(text: Seq<char>) -> bool {
    forall|i: int| 0 <= i < text.len() ==> '!' <= #[trigger] text[i] <= '~'
}

/// `Uri::from_str`, of hyper, with the scheme, the authority and the host of the
/// URI that it reads. There is a host exactly where there is an authority.
#[verifier::external_body]
fn parse_uri(text: &str) -> (r: Result<UriParts, InvalidUri>)
    ensures
        match r {
            Ok(parts) => uri_parts(text@) == Some(parts@),
            Err(_) => uri_parts(text@) is None,
        },
        r matches Ok(parts) ==> (parts.authority is Some <==> parts.host is Some),
{
    let uri: hyper::Uri = text.parse()?;
    Ok(UriParts {
        scheme: uri.scheme_str().map(|s| s.to_string()),
        authority: uri.authority().map(|a| a.as_str().to_string()),
        host: uri.host().map(|h| h.to_string()),
    })
}

/// `Uri::builder`, of hyper, with the scheme `https`, an authority and a path
/// with its query, and the text of the URI that comes of it. The text starts
/// with the scheme and the authority, and holds graphic characters only, unless
/// the path is so long that hyper cannot count up to the query. What hyper reads
/// as an authority, and the path and query of a request, are taken, and stand in
/// the text as they are, but for the root in place of a path that is missing.
#[verifier::external_body]
fn build_https_uri(authority: &str, path_and_query: &str) -> (r: Option<String>)
    ensures
        text_of(r) == https_uri(authority@, path_and_query@),
        r matches Some(text) ==> ("https://"@ + authority@).is_prefix_of(text@),
        r matches Some(text) ==> path_and_query@.len() < 65535 ==> is_graphic(text@),
        is_authority(authority@) && is_target(path_and_query@) ==> text_of(r) == Some(
            "https://"@ + authority@ + rooted(path_and_query@),
        ),
{
    hyper::Uri::builder()
        .scheme(hyper::http::uri::Scheme::HTTPS)
        .authority(authority)
        .path_and_query(path_and_query)
        .build()
        .ok()
        .map(|uri| uri.to_string())
}

/// Why a text cannot be the address of the service.
pub enum HookUrlError {
    /// It is not a URI.
    Malformed(InvalidUri),
    /// It names no authority.
    NoAuthority,
}

/// The address of the service.
pub struct HookUrl {
    url: String,
    scheme: Option<String>,
    authority: String,
    host: String,
}

/// What the address of the service holds.
pub struct HookUrlView {
    pub url: Seq<char>,
    pub scheme: Option<Seq<char>>,
    pub authority: Seq<char>,
    pub host: Seq<char>,
}

impl View for HookUrl {
    type V = HookUrlView;

    closed spec fn view(&self) -> HookUrlView {
        HookUrlView {
            url: self.url@,
            scheme: text_of(self.scheme),
            authority: self.authority@,
            host: self.host@,
        }
    }
}

/// The path and query that a plain request is sent to.
pub open spec fn redirect_target(request: Request) -> Seq<char> {
    match request.target {
        Some(text) => text@,
        None => "/"@,
    }
}

/// Where a plain request is sent.
pub open spec fn redirect_location(hook: HookUrlView, request: Request) -> Seq<char> {
    match https_uri(hook.authority, redirect_target(request)) {
        Some(text) => text,
        None => "https://snd.one/error"@,
    }
}

/// The answer that sends a request to `location`.
pub open spec fn redirect_reply(location: Seq<char>) -> crate::reply::ReplyView {
    crate::reply::ReplyView {
        head: crate::reply::HeadView { status: 308, fields: seq![] }.with_text(
            "location"@,
            location,
        ),
        body: vstd::utf8::encode_utf8("Hint: add -L to your curl command\n"@),
    }
}

/// The answer that says nothing at all.
pub open spec fn blank_reply() -> crate::reply::ReplyView {
    crate::reply::ReplyView { head: crate::reply::plain_head(), body: seq![] }
}

/// The answer that sends a request to `location`; a blank one where `location`
/// cannot stand in a header field.
pub open spec fn reply_to(location: Seq<char>) -> crate::reply::ReplyView {
    if crate::headers::valid_value(vstd::utf8::encode_utf8(location)) {
        redirect_reply(location)
    } else {
        blank_reply()
    }
}

/// The answer that sends a request to `location`; a blank one where `location`
/// cannot stand in a header field.
pub fn redirect_to(location: &str) -> (r: Reply)
    ensures
        r@ == reply_to(location@),
{
    let mut head = Head::new();
    match hyper::header::HeaderValue::from_str(location) {
        Ok(value) => {
            head.status = 308;
            head.push("location", value);
            let r = Reply {
                head,
                body: slice_to_vec("Hint: add -L to your curl command\n".as_bytes()),
            };
            r
        },
        Err(_) => {
            let r = Reply { head, body: Vec::new() };
            proof {
                assert(r.body@ =~= seq![]);
            }
            r
        },
    }
}

impl HookUrl {
    /// The authority is one that hyper takes.
    pub open spec fn wf(&self) -> bool {
        is_authority(self@.authority)
    }

    /// Makes the address of the service from the parts of its URI. It needs an
    /// authority, and the host in it.
    pub fn from_parts(url: &str, parts: UriParts) -> (r: Result<HookUrl, HookUrlError>)
        ensures
            match r {
                Ok(hook) => {
                    &&& hook@.url == url@
                    &&& hook@.scheme == parts@.scheme
                    &&& Some(hook@.authority) == parts@.authority
                    &&& Some(hook@.host) == parts@.host
                },
                Err(e) => e is NoAuthority && (parts.authority is None || parts.host is None),
            },
    {
        match (parts.authority, parts.host) {
            (Some(authority), Some(host)) => Ok(
                HookUrl { url: url.to_owned(), scheme: parts.scheme, authority, host },
            ),
            _ => Err(HookUrlError::NoAuthority),
        }
    }

    /// Reads the address of the service.
    pub fn parse(url: &str) -> (r: Result<HookUrl, HookUrlError>)
        ensures
            match r {
                Ok(hook) => {
                    &&& hook.wf()
                    &&& hook@.url == url@
                    &&& uri_parts(url@) == Some(
                        UriPartsView {
                            scheme: hook@.scheme,
                            authority: Some(hook@.authority),
                            host: Some(hook@.host),
                        },
                    )
                },
                Err(HookUrlError::Malformed(_)) => uri_parts(url@) is None,
                Err(HookUrlError::NoAuthority) => uri_parts(url@) matches Some(parts)
                    && parts.authority is None,
            },
    {
        match parse_uri(url) {
            Ok(parts) => HookUrl::from_parts(url, parts),
            Err(e) => Err(HookUrlError::Malformed(e)),
        }
    }

    /// The address as it was given.
    pub fn url(&self) -> (r: &str)
        ensures
            r@ == self@.url,
    {
        self.url.as_str()
    }

    /// Where the renewal configuration of the service's certificate lies, where
    /// the service is offered over HTTPS.
    pub fn tls_config_path(&self) -> (r: Option<String>)
        ensures
            text_of(r) == if self@.scheme == Some("https"@) {
                Some("/etc/letsencrypt/renewal/"@ + self@.host + ".conf"@)
            } else {
                None
            },
    {
        match &self.scheme {
            Some(scheme) => if same_text(scheme.as_str(), "https") {
                Some(
                    "/etc/letsencrypt/renewal/".to_owned().concat(self.host.as_str()).concat(
                        ".conf",
                    ),
                )
            } else {
                None
            },
            None => None,
        }
    }
}

/// Where a plain request is sent: the URI that was built for it, or a fixed one
/// where none could be built.
pub fn location_or_error(built: Option<String>) -> (r: String)
    ensures
        r@ == match built {
            Some(text) => text@,
            None => "https://snd.one/error"@,
        },
{
    match built {
        Some(text) => text,
        None => "https://snd.one/error".to_owned(),
    }
}

/// Answers a plain request: it is sent to the same place under HTTPS. Unless the
/// path and query are too long for a URI, the answer is a redirection to an
/// `https` URI in any case. Where a URI can be built, it begins with the service's
/// authority; for the path and query of a request to this service one can, and it
/// goes to the very same path and query at that authority.
pub fn serve_non_https(hook: &HookUrl, request: &Request) -> (r: Reply)
    ensures
        r@ == reply_to(redirect_location(hook@, *request)),
        https_uri(hook@.authority, redirect_target(*request)) is Some ==> ("https://"@
            + hook@.authority).is_prefix_of(redirect_location(hook@, *request)),
        redirect_target(*request).len() < 65535 ==> r@ == redirect_reply(
            redirect_location(hook@, *request),
        ) && "https://"@.is_prefix_of(redirect_location(hook@, *request)),
        hook.wf() && is_target(redirect_target(*request)) ==> r@ == redirect_reply(
            "https://"@ + hook@.authority + rooted(redirect_target(*request)),
        ),
        hook.wf() && (request.target matches Some(text) && is_target(text@)) ==> r@
            == redirect_reply("https://"@ + hook@.authority + rooted(request.target->0@)),
        hook.wf() && request.target is None ==> r@ == redirect_reply(
            "https://"@ + hook@.authority + "/"@,
        ),
{
    let path_and_query: &str = match &request.target {
        Some(text) => text.as_str(),
        None => "/",
    };
    proof {
        reveal_strlit("/");
        reveal_strlit("https://");
        reveal_strlit("https://snd.one/error");
        assert(is_target("/"@));
    }
    let built = build_https_uri(hook.authority.as_str(), path_and_query);
    let location = location_or_error(built);
    proof {
        if path_and_query@.len() < 65535 {
            crate::reply::lemma_printable_is_valid(location@);
        }
        assert("https://"@.is_prefix_of(location@));
    }
    redirect_to(location.as_str())
}

/// Nothing of a plain request counts but its path and query: two requests that
/// have these in common are sent to the same place, whatever their methods, their
/// header fields and the rest of their URIs.
pub proof fn law_only_the_target_counts(hook: HookUrlView, a: Request, b: Request)
    requires
        redirect_target(a) == redirect_target(b),
    ensures
        reply_to(redirect_location(hook, a)) == reply_to(redirect_location(hook, b)),
{
}

/// An answer that sends a request to these bytes for good, with a hint in its body.
pub open spec fn sends_to(reply: Reply, location: Seq<u8>) -> bool {
    &&& reply.head.status == 308
    &&& reply.head.headers@.len() == 1
    &&& crate::reply::field_is(reply.head.headers@[0], "location"@, location, false)
    &&& reply.body@ == vstd::utf8::encode_utf8("Hint: add -L to your curl command\n"@)
}

proof fn lemma_sends_to(reply: Reply, location: Seq<char>)
    requires
        reply@ == redirect_reply(location),
    ensures
        sends_to(reply, vstd::utf8::encode_utf8(location)),
{
    assert(reply.head@.fields.len() == reply.head.headers@.len());
    assert(reply.head@.fields[0] == reply.head.headers@[0]@);
}

/// A plain request is sent to the very path and query that it asked for, at the
/// authority of the service's address, under HTTPS: nothing of them is lost, nothing
/// is added, and nothing else of the request counts.
pub proof fn law_path_and_query_are_kept(
    url: &str,
    parts: UriPartsView,
    hook: HookUrl,
    request: Request,
    path: Seq<char>,
    query: Option<Seq<char>>,
    r: Reply,
)
    requires
        call_ensures(HookUrl::parse, (url,), Ok(hook)),
        uri_parts(url@) == Some(parts),
        request.target matches Some(text) && text@ == path + match query {
            Some(q) => seq!['?'] + q,
            None => seq![],
        },
        path.len() > 0 && path[0] == '/',
        forall|i: int| 0 <= i < path.len() ==> path_char(#[trigger] path[i]),
        query matches Some(q) ==> forall|i: int| 0 <= i < q.len() ==> query_char(#[trigger] q[i]),
        request.target->0@.len() < 65535,
        call_ensures(serve_non_https, (&hook, &request), r),
    ensures
        parts.authority matches Some(authority) && sends_to(
            r,
            vstd::utf8::encode_utf8("https://"@) + vstd::utf8::encode_utf8(authority)
                + vstd::utf8::encode_utf8(path) + match query {
                Some(q) => vstd::utf8::encode_utf8(seq!['?']) + vstd::utf8::encode_utf8(q),
                None => seq![],
            },
        ),
{
    let text = request.target->0@;
    let authority = hook@.authority;
    assert forall|i: int| 0 <= i < text.len() implies if text.take(i).contains('?') {
        query_char(#[trigger] text[i])
    } else {
        text[i] == '?' || path_char(text[i])
    } by {
        if i < path.len() {
            assert(text[i] == path[i]);
            if text.take(i).contains('?') {
                let k = choose|k: int| 0 <= k < i && text.take(i)[k] == '?';
                assert(path[k] == '?');
                assert(path_char(path[k]));
            }
        } else if i == path.len() {
            assert(text[i] == '?');
            if text.take(i).contains('?') {
                let k = choose|k: int| 0 <= k < i && text.take(i)[k] == '?';
                assert(path[k] == '?');
                assert(path_char(path[k]));
            }
        } else {
            assert(text.take(i)[path.len() as int] == '?');
            assert(text[i] == query->0[i - path.len() - 1]);
        }
    }
    assert(text[0] == path[0]);
    assert(is_target(text));
    let location = "https://"@ + authority + text;
    assert(r@ == redirect_reply(location));
    lemma_sends_to(r, location);
    crate::text::lemma_encode_utf8_concat("https://"@, authority);
    crate::text::lemma_encode_utf8_concat("https://"@ + authority, text);
    match query {
        Some(q) => {
            crate::text::lemma_encode_utf8_concat(path, seq!['?'] + q);
            crate::text::lemma_encode_utf8_concat(seq!['?'], q);
        },
        None => {
            assert(text =~= path);
        },
    }
    let base = vstd::utf8::encode_utf8("https://"@) + vstd::utf8::encode_utf8(authority);
    assert(vstd::utf8::encode_utf8(location) =~= base + vstd::utf8::encode_utf8(path)
        + match query {
        Some(q) => vstd::utf8::encode_utf8(seq!['?']) + vstd::utf8::encode_utf8(q),
        None => seq![],
    });
}

/// The path and query of a request, as far as hyper takes them, are what it is sent
/// to; a request without any is sent to the root.
pub proof fn law_target_is_the_destination(hook: HookUrl, request: Request, r: Reply)
    requires
        hook.wf(),
        call_ensures(serve_non_https, (&hook, &request), r),
    ensures
        request.target matches Some(text) ==> is_target(text@) && text@[0] == '/' ==> sends_to(
            r,
            vstd::utf8::encode_utf8("https://"@ + hook@.authority + text@),
        ),
        request.target matches Some(text) ==> is_target(text@) && text@[0] == '?' ==> sends_to(
            r,
            vstd::utf8::encode_utf8("https://"@ + hook@.authority + seq!['/'] + text@),
        ),
        request.target is None ==> sends_to(
            r,
            vstd::utf8::encode_utf8("https://"@ + hook@.authority + "/"@),
        ),
{
    match request.target {
        Some(text) => {
            if is_target(text@) {
                lemma_sends_to(r, "https://"@ + hook@.authority + rooted(text@));
                if text@[0] == '?' {
                    assert("https://"@ + hook@.authority + (seq!['/'] + text@) =~= "https://"@
                        + hook@.authority + seq!['/'] + text@);
                }
            }
        },
        None => {
            lemma_sends_to(r, "https://"@ + hook@.authority + "/"@);
        },
    }
}

/// Requests for different places are sent to different places.
pub proof fn law_different_targets_stay_different(
    hook: HookUrl,
    a: Request,
    b: Request,
    to_a: Reply,
    to_b: Reply,
)
    requires
        hook.wf(),
        a.target matches Some(text) && is_target(text@) && text@[0] == '/',
        b.target matches Some(text) && is_target(text@) && text@[0] == '/',
        a.target->0@ != b.target->0@,
        call_ensures(serve_non_https, (&hook, &a), to_a),
        call_ensures(serve_non_https, (&hook, &b), to_b),
    ensures
        crate::headers::value_bytes(to_a.head.headers@[0].value) != crate::headers::value_bytes(
            to_b.head.headers@[0].value,
        ),
{
    law_target_is_the_destination(hook, a, to_a);
    law_target_is_the_destination(hook, b, to_b);
    let base = "https://"@ + hook@.authority;
    let x = base + a.target->0@;
    let y = base + b.target->0@;
    crate::text::lemma_encode_utf8_injective(x, y);
    if x == y {
        assert(x.skip(base.len() as int) =~= a.target->0@);
        assert(y.skip(base.len() as int) =~= b.target->0@);
    }
}

/// The letters, the digits and the marks that usual paths are made of may stand in a
/// path, and with the question mark in a query.
pub proof fn law_usual_characters_are_taken(c: char)
    ensures
        'a' <= c <= 'z' || 'A' <= c <= 'Z' || '0' <= c <= '9' || c == '/' || c == '-' || c == '_'
            || c == '.' || c == '~' || c == '%' || c == '+' || c == '=' || c == '&' || c == ':'
            || c == '@' || c == ',' || c == ';' || c == '!' || c == '*' || c == '(' || c == ')'
            ==> path_char(c) && query_char(c),
        c == '?' ==> query_char(c) && !path_char(c),
{
}

/// Where no URI can be built, a plain request is sent to a fixed one; where it can,
/// to that one; and an answer with a location that cannot stand in a field is blank.
pub proof fn law_location_is_used(
    built: Option<String>,
    chosen: String,
    location: &str,
    r: Reply,
)
    requires
        call_ensures(location_or_error, (built,), chosen),
        call_ensures(redirect_to, (location,), r),
    ensures
        built matches Some(text) ==> chosen@ == text@,
        built is None ==> chosen@ == "https://snd.one/error"@,
        crate::headers::valid_value(vstd::utf8::encode_utf8(location@)) ==> sends_to(
            r,
            vstd::utf8::encode_utf8(location@),
        ),
        !crate::headers::valid_value(vstd::utf8::encode_utf8(location@)) ==> r.head.status == 200
            && r.head.headers@.len() == 0 && r.body@.len() == 0,
{
    if crate::headers::valid_value(vstd::utf8::encode_utf8(location@)) {
        lemma_sends_to(r, location@);
    } else {
        assert(r.head@.fields.len() == r.head.headers@.len());
    }
}

/// The address of the service is any URI with an authority, and is kept as it was
/// given; the certificate is looked for under its host, where its scheme is `https`,
/// and nowhere else.
pub proof fn law_address_is_taken(
    url: &str,
    r: Result<HookUrl, HookUrlError>,
    hook: HookUrl,
    shown: &str,
    certificate: Option<String>,
)
    requires
        call_ensures(HookUrl::parse, (url,), r),
        call_ensures(HookUrl::url, (&hook,), shown),
        call_ensures(HookUrl::tls_config_path, (&hook,), certificate),
    ensures
        r is Ok <==> (uri_parts(url@) matches Some(parts) && parts.authority is Some),
        r matches Err(e) ==> (e is Malformed <==> uri_parts(url@) is None),
        r == Ok::<HookUrl, HookUrlError>(hook) ==> shown@ == url@,
        r == Ok::<HookUrl, HookUrlError>(hook) ==> (uri_parts(url@) matches Some(parts)
            && parts.host matches Some(host) && (parts.scheme == Some("https"@) ==> (
        certificate matches Some(file) && file@ == "/etc/letsencrypt/renewal/"@ + host + ".conf"@))
            && (parts.scheme != Some("https"@) ==> certificate is None)),
{
}

/// An address is made of the very parts of its URI, and needs an authority with a
/// host.
pub proof fn law_address_has_its_parts(
    url: &str,
    parts: UriParts,
    r: Result<HookUrl, HookUrlError>,
)
    requires
        call_ensures(HookUrl::from_parts, (url, parts), r),
    ensures
        r is Ok <==> parts.authority is Some && parts.host is Some,
        r matches Err(e) ==> e is NoAuthority,
        r matches Ok(hook) ==> hook@.url == url@ && hook@.authority == parts.authority->0@
            && hook@.host == parts.host->0@ && (parts.scheme matches Some(scheme) ==> hook@.scheme
            == Some(scheme@)) && (parts.scheme is None ==> hook@.scheme is None),
{
}

} // verus!
