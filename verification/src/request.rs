//! Who is asking, and which handler answers.

use crate::headers::get_value;
use crate::text::{same_bytes, same_text, starts_with};
use hyper::header::{HeaderMap, HeaderValue};
use vstd::prelude::*;

verus! {

/// The head of a request.
pub struct Request {
    pub method: String,
    /// The request's URI, as text.
    pub uri: String,
    /// The path in the request's URI.
    pub path: String,
    /// The path and the query in the request's URI, where it has them.
    pub target: Option<String>,
    pub headers: HeaderMap<HeaderValue>,
}

/// Who asks to listen.
#[derive(PartialEq, Eq, Structural, Clone, Copy, Debug)]
pub enum GetterType {
    Curl,
    EventStream,
    Other,
}

/// The handler that answers a request.
#[derive(PartialEq, Eq, Structural, Clone, Copy, Debug)]
pub enum Route {
    /// The request is passed on to the listeners of its path.
    Post,
    Options,
    Favicon,
    /// The sender becomes a listener of the path.
    Get(GetterType),
    Browser,
}

/// Who asks, by the values of the `accept` and the `user-agent` field: bytes,
/// and whether they are marked as sensitive.
pub open spec fn getter_of(accept: Option<(Seq<u8>, bool)>, user_agent: Option<(Seq<u8>, bool)>) -> GetterType {
    if accept matches Some(value) && value.0 == vstd::utf8::encode_utf8("text/event-stream"@) {
        GetterType::EventStream
    } else if user_agent matches Some(value) && crate::headers::all_visible(value.0)
        && vstd::utf8::encode_utf8("curl"@).is_prefix_of(value.0) {
        GetterType::Curl
    } else {
        GetterType::Other
    }
}

/// The handler for a method and a path, when `getter` asks.
pub open spec fn route_of(method: Seq<char>, path: Seq<char>, getter: GetterType) -> Route {
    if method == "OPTIONS"@ {
        Route::Options
    } else if method != "GET"@ {
        Route::Post
    } else if path == "/favicon.ico"@ {
        Route::Favicon
    } else if getter != GetterType::Other {
        Route::Get(getter)
    } else {
        Route::Browser
    }
}

/// Who sent a request with these fields.
pub open spec fn getter_of_fields(fields: Seq<(Seq<char>, Seq<u8>, bool)>) -> GetterType {
    getter_of(
        crate::headers::first_field(fields, "accept"@),
        crate::headers::first_field(fields, "user-agent"@),
    )
}

/// Who asks, by the values of the `accept` and the `user-agent` field.
pub fn getter_type(accept: Option<&HeaderValue>, user_agent: Option<&HeaderValue>) -> (r: GetterType)
    ensures
        r == getter_of(
            crate::headers::value_view(accept),
            crate::headers::value_view(user_agent),
        ),
{
    if let Some(value) = accept {
        if same_bytes(value.as_bytes(), "text/event-stream".as_bytes()) {
            return GetterType::EventStream;
        }
    }
    if let Some(value) = user_agent {
        if value.to_str().is_ok() && starts_with(value.as_bytes(), "curl".as_bytes()) {
            return GetterType::Curl;
        }
    }
    GetterType::Other
}

/// The handler for a method and a path, when `getter` asks.
pub fn route(method: &str, path: &str, getter: GetterType) -> (r: Route)
    ensures
        r == route_of(method@, path@, getter),
{
    if same_text(method, "OPTIONS") {
        Route::Options
    } else if !same_text(method, "GET") {
        Route::Post
    } else if same_text(path, "/favicon.ico") {
        Route::Favicon
    } else if getter != GetterType::Other {
        Route::Get(getter)
    } else {
        Route::Browser
    }
}

/// Who sent a request.
pub fn request_getter(request: &Request) -> (r: GetterType)
    ensures
        r == getter_of_fields(crate::headers::header_fields(request.headers)),
{
    proof {
        reveal_strlit("accept");
        reveal_strlit("user-agent");
    }
    getter_type(
        get_value(&request.headers, "accept"),
        get_value(&request.headers, "user-agent"),
    )
}

/// The handler for a request.
pub fn serve_app(request: &Request) -> (r: Route)
    ensures
        r == route_of(
            request.method@,
            request.path@,
            getter_of_fields(crate::headers::header_fields(request.headers)),
        ),
{
    route(request.method.as_str(), request.path.as_str(), request_getter(request))
}

/// Any request goes to the listeners of its path, whoever sends it and on whatever
/// path, but for one that gets something from the service or asks for options.
pub proof fn law_requests_go_to_listeners(method: Seq<char>, path: Seq<char>, getter: GetterType)
    ensures
        route_of(method, path, getter) == Route::Post <==> method != "GET"@ && method
            != "OPTIONS"@,
        route_of(method, path, getter) == Route::Options <==> method == "OPTIONS"@,
{
    reveal_strlit("GET");
    reveal_strlit("OPTIONS");
    assert("GET"@.len() != "OPTIONS"@.len());
}

/// Only a `GET` makes a listener, and only of curl and event streams, each as what
/// it is, on any path but that of the icon; whoever else gets such a path gets the
/// page for browsers.
pub proof fn law_only_gets_listen(method: Seq<char>, path: Seq<char>, getter: GetterType)
    ensures
        route_of(method, path, getter) is Get ==> method == "GET"@ && path != "/favicon.ico"@
            && getter != GetterType::Other && route_of(method, path, getter) == Route::Get(getter),
        method == "GET"@ && path != "/favicon.ico"@ ==> route_of(method, path, getter) == if getter
            == GetterType::Other {
            Route::Browser
        } else {
            Route::Get(getter)
        },
        method == "GET"@ && path == "/favicon.ico"@ ==> route_of(method, path, getter)
            == Route::Favicon,
{
    reveal_strlit("GET");
    reveal_strlit("OPTIONS");
    assert("GET"@.len() != "OPTIONS"@.len());
}

/// Whoever has `text/event-stream` for its `accept` field is an event stream, and
/// nobody else is. Of the others, every user agent of visible ASCII that starts
/// with the four letters `curl`, whatever follows them, is curl, and no other is.
pub proof fn law_who_is_asking(
    accept: Option<&HeaderValue>,
    user_agent: Option<&HeaderValue>,
    r: GetterType,
)
    requires
        call_ensures(getter_type, (accept, user_agent), r),
    ensures
        r == GetterType::EventStream <==> (accept matches Some(a) && crate::headers::value_bytes(*a)
            == vstd::utf8::encode_utf8("text/event-stream"@)),
        r == GetterType::Curl <==> r != GetterType::EventStream && (user_agent matches Some(u)
            && starts_like_curl(crate::headers::value_bytes(*u))),
{
    if let Some(u) = user_agent {
        lemma_starts_like_curl(crate::headers::value_bytes(*u));
    }
}

/// The four letters `curl`, and visible ASCII, spaces and tabs behind them.
pub open spec fn starts_like_curl(agent: Seq<u8>) -> bool {
    &&& agent.len() >= 4
    &&& agent[0] == 99 && agent[1] == 117 && agent[2] == 114 && agent[3] == 108
    &&& forall|i: int| 4 <= i < agent.len() ==> 32 <= #[trigger] agent[i] <= 126 || agent[i] == 9
}

proof fn lemma_starts_like_curl(agent: Seq<u8>)
    ensures
        starts_like_curl(agent) <==> crate::headers::all_visible(agent)
            && vstd::utf8::encode_utf8("curl"@).is_prefix_of(agent),
{
    reveal_strlit("curl");
    let curl = vstd::utf8::encode_utf8("curl"@);
    assert(vstd::utf8::is_ascii_chars("curl"@));
    vstd::utf8::is_ascii_chars_encode_utf8("curl"@);
    assert("curl"@ =~= seq!['c', 'u', 'r', 'l']);
    assert(curl[0] == 'c' as u8 && curl[1] == 'u' as u8 && curl[2] == 'r' as u8 && curl[3]
        == 'l' as u8);
    assert(curl =~= seq![99u8, 117, 114, 108]);
    if starts_like_curl(agent) {
        assert(curl =~= agent.subrange(0, 4));
        assert forall|i: int| 0 <= i < agent.len() implies crate::headers::visible(
            #[trigger] agent[i],
        ) by {
            if i >= 4 {
                assert(32 <= agent[i] <= 126 || agent[i] == 9);
            }
        }
    }
    if crate::headers::all_visible(agent) && curl.is_prefix_of(agent) {
        assert(agent.subrange(0, 4) =~= curl);
        assert(agent[0] == agent.subrange(0, 4)[0]);
        assert(agent[1] == agent.subrange(0, 4)[1]);
        assert(agent[2] == agent.subrange(0, 4)[2]);
        assert(agent[3] == agent.subrange(0, 4)[3]);
        assert forall|i: int| 4 <= i < agent.len() implies 32 <= #[trigger] agent[i] <= 126
            || agent[i] == 9 by {
            assert(crate::headers::visible(agent[i]));
        }
    }
}

/// Whatever follows the four letters `curl`, a user agent that starts with them is
/// curl, unless it asks for an event stream.
pub proof fn law_curl_of_any_version_is_curl(
    accept: Option<(Seq<u8>, bool)>,
    rest: Seq<u8>,
    sensitive: bool,
)
    requires
        forall|i: int| 0 <= i < rest.len() ==> 32 <= #[trigger] rest[i] <= 126 || rest[i] == 9,
        accept matches Some(value) ==> value.0 != vstd::utf8::encode_utf8("text/event-stream"@),
    ensures
        getter_of(accept, Some((vstd::utf8::encode_utf8("curl"@) + rest, sensitive)))
            == GetterType::Curl,
{
    let curl = vstd::utf8::encode_utf8("curl"@);
    let agent = curl + rest;
    reveal_strlit("curl");
    assert(vstd::utf8::is_ascii_chars("curl"@));
    vstd::utf8::is_ascii_chars_encode_utf8("curl"@);
    assert("curl"@ =~= seq!['c', 'u', 'r', 'l']);
    assert(curl[0] == 'c' as u8 && curl[1] == 'u' as u8 && curl[2] == 'r' as u8 && curl[3]
        == 'l' as u8);
    assert(agent[0] == 99 && agent[1] == 117 && agent[2] == 114 && agent[3] == 108);
    assert forall|i: int| 4 <= i < agent.len() implies 32 <= #[trigger] agent[i] <= 126 || agent[i]
        == 9 by {
        assert(agent[i] == rest[i - 4]);
    }
    lemma_starts_like_curl(agent);
}

/// Where no field asks for an event stream and none names a curl, this is neither;
/// where the first `accept` field asks for one, it is an event stream; and where
/// none does and the first `user-agent` field starts with `curl`, it is curl,
/// wherever these fields stand among the others.
pub proof fn law_who_is_asking_by_the_fields(request: Request, i: int, r: GetterType)
    requires
        call_ensures(request_getter, (&request,), r),
    ensures
        ({
            let fields = crate::headers::header_fields(request.headers);
            let stream = vstd::utf8::encode_utf8("text/event-stream"@);
            let asks = exists|k: int|
                0 <= k < fields.len() && (#[trigger] fields[k]).0 == "accept"@ && fields[k].1 == stream;
            &&& crate::headers::is_first(fields, i, "accept"@) && fields[i].1 == stream ==> r
                == GetterType::EventStream
            &&& !asks && crate::headers::is_first(fields, i, "user-agent"@) && starts_like_curl(
                fields[i].1,
            ) ==> r == GetterType::Curl
            &&& !asks ==> r != GetterType::EventStream
            &&& (forall|k: int|
                0 <= k < fields.len() && (#[trigger] fields[k]).0 == "user-agent"@
                    ==> !starts_like_curl(fields[k].1)) ==> r != GetterType::Curl
        }),
{
    let fields = crate::headers::header_fields(request.headers);
    let a = crate::headers::lemma_first_or_absent(fields, "accept"@);
    let u = crate::headers::lemma_first_or_absent(fields, "user-agent"@);
    crate::headers::lemma_first_field(fields, a, "accept"@);
    crate::headers::lemma_first_field(fields, u, "user-agent"@);
    crate::headers::lemma_first_field(fields, i, "accept"@);
    crate::headers::lemma_first_field(fields, i, "user-agent"@);
    if crate::headers::is_first(fields, u, "user-agent"@) {
        lemma_starts_like_curl(fields[u].1);
    }
    if crate::headers::is_first(fields, i, "user-agent"@) {
        lemma_starts_like_curl(fields[i].1);
    }
}

/// Which handler answers a request: `OPTIONS` are answered, and any other request
/// but a `GET` goes to the listeners of its path, whoever sends it. A `GET` of the
/// icon gets the icon; any other makes the sender a listener, as what it is asking
/// as, or shows it the page.
pub proof fn law_who_answers(request: Request, asking: GetterType, r: Route)
    requires
        call_ensures(serve_app, (&request,), r),
        call_ensures(request_getter, (&request,), asking),
    ensures
        r == Route::Options <==> request.method@ == "OPTIONS"@,
        r == Route::Post <==> request.method@ != "OPTIONS"@ && request.method@ != "GET"@,
        r == Route::Favicon <==> request.method@ == "GET"@ && request.path@ == "/favicon.ico"@,
        r == Route::Get(asking) && asking != GetterType::Other <==> request.method@ == "GET"@
            && request.path@ != "/favicon.ico"@ && asking != GetterType::Other,
        r is Get ==> r == Route::Get(asking) && asking != GetterType::Other,
        r == Route::Browser <==> request.method@ == "GET"@ && request.path@ != "/favicon.ico"@
            && asking == GetterType::Other,
{
    reveal_strlit("GET");
    reveal_strlit("OPTIONS");
    assert("GET"@.len() != "OPTIONS"@.len());
}

/// Which handler answers is told by the method first, then by the path, and last by
/// who is asking.
pub proof fn law_handler_for_method_and_path(
    method: &str,
    path: &str,
    getter: GetterType,
    r: Route,
)
    requires
        call_ensures(route, (method, path, getter), r),
    ensures
        method@ == "OPTIONS"@ ==> r == Route::Options,
        method@ != "OPTIONS"@ && method@ != "GET"@ ==> r == Route::Post,
        method@ == "GET"@ && path@ == "/favicon.ico"@ ==> r == Route::Favicon,
        method@ == "GET"@ && path@ != "/favicon.ico"@ && getter != GetterType::Other ==> r
            == Route::Get(getter),
        method@ == "GET"@ && path@ != "/favicon.ico"@ && getter == GetterType::Other ==> r
            == Route::Browser,
{
    reveal_strlit("GET");
    reveal_strlit("OPTIONS");
    assert("GET"@.len() != "OPTIONS"@.len());
}

} // verus!
