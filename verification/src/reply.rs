//! Answers to requests.

use crate::headers::{get_value, number_value, HeaderField};
use hyper::header::{HeaderMap, HeaderValue};
use vstd::prelude::*;
use vstd::slice::slice_to_vec;

verus! {

/// The status and the fields of an answer.
pub struct Head {
    pub status: u16,
    pub headers: Vec<HeaderField>,
}

/// An answer.
pub struct Reply {
    pub head: Head,
    pub body: Vec<u8>,
}

/// What the head of an answer holds.
pub struct HeadView {
    pub status: u16,
    pub fields: Seq<(Seq<char>, Seq<u8>, bool)>,
}

/// What an answer holds.
pub struct ReplyView {
    pub head: HeadView,
    pub body: Seq<u8>,
}

impl View for Head {
    type V = HeadView;

    open spec fn view(&self) -> HeadView {
        HeadView { status: self.status, fields: crate::headers::fields_view(self.headers@) }
    }
}

impl View for Reply {
    type V = ReplyView;

    open spec fn view(&self) -> ReplyView {
        ReplyView { head: self.head@, body: self.body@ }
    }
}

impl HeadView {
    /// The head with one more field, at the end.
    pub open spec fn with(self, name: Seq<char>, bytes: Seq<u8>, sensitive: bool) -> HeadView {
        HeadView { fields: self.fields.push((name, bytes, sensitive)), ..self }
    }

    /// The head with one more field, at the end, whose value is a text.
    pub open spec fn with_text(self, name: Seq<char>, text: Seq<char>) -> HeadView {
        self.with(name, vstd::utf8::encode_utf8(text), false)
    }
}

/// The head of a successful answer without fields.
pub open spec fn plain_head() -> HeadView {
    HeadView { status: 200, fields: seq![] }
}

/// The head with what lets a page from `origin` read the answer, where the
/// request names an origin.
pub open spec fn with_origin(head: HeadView, origin: Option<(Seq<u8>, bool)>) -> HeadView {
    match origin {
        Some(value) => head.with("access-control-allow-origin"@, value.0, value.1).with_text(
            "access-control-allow-headers"@,
            "snd-received, content-type"@,
        ).with_text("vary"@, "Origin"@),
        None => head,
    }
}

/// The head with what lets a page read the answer to a request with the given
/// fields.
pub open spec fn with_origin_of(head: HeadView, fields: Seq<(Seq<char>, Seq<u8>, bool)>) -> HeadView {
    with_origin(head, crate::headers::first_field(fields, "origin"@))
}

/// The answer that says nothing of what became of a request with the given
/// fields.
pub open spec fn empty_reply(fields: Seq<(Seq<char>, Seq<u8>, bool)>) -> ReplyView {
    ReplyView { head: with_origin_of(plain_head(), fields), body: seq![] }
}

/// The answer to a request with the given fields that `received` listeners got.
pub open spec fn received_reply(fields: Seq<(Seq<char>, Seq<u8>, bool)>, received: nat) -> ReplyView {
    ReplyView {
        head: with_origin_of(plain_head(), fields).with(
            "snd-received"@,
            crate::text::decimal(received),
            false,
        ),
        body: seq![],
    }
}

/// Text of printable ASCII characters may stand in a header value.
pub proof fn lemma_printable_is_valid(text: Seq<char>)
    requires
        forall|i: int| 0 <= i < text.len() ==> ' ' <= #[trigger] text[i] <= '~',
    ensures
        crate::headers::valid_value(vstd::utf8::encode_utf8(text)),
{
    assert(vstd::utf8::is_ascii_chars(text));
    vstd::utf8::is_ascii_chars_encode_utf8(text);
    let bytes = vstd::utf8::encode_utf8(text);
    assert forall|i: int| 0 <= i < bytes.len() implies crate::headers::visible(
        #[trigger] bytes[i],
    ) by {
        assert(' ' <= text[i] <= '~');
        assert(bytes[i] == text[i] as u8);
    }
}

impl Head {
    /// The head of a successful answer without fields.
    pub fn new() -> (r: Head)
        ensures
            r@ == plain_head(),
    {
        let r = Head { status: 200, headers: Vec::new() };
        proof {
            assert(r@.fields =~= seq![]);
        }
        r
    }

    /// Adds a field at the end.
    pub fn push(&mut self, name: &str, value: HeaderValue)
        ensures
            final(self)@ == old(self)@.with(
                name@,
                crate::headers::value_bytes(value),
                crate::headers::value_sensitive(value),
            ),
    {
        let field = HeaderField { name: name.to_owned(), value };
        let ghost before = self.headers@;
        let ghost added = field@;
        self.headers.push(field);
        proof {
            assert(crate::headers::fields_view(self.headers@) =~= crate::headers::fields_view(
                before,
            ).push(added));
        }
    }

    /// Adds a field at the end, with a text that may stand in a header value.
    pub fn push_text(&mut self, name: &str, text: &str)
        requires
            crate::headers::valid_value(vstd::utf8::encode_utf8(text@)),
        ensures
            final(self)@ == old(self)@.with_text(name@, text@),
    {
        self.push(name, HeaderValue::from_str(text).unwrap());
    }
}

/// Adds to a head what lets a page from `origin` read the answer.
pub fn allow_origin(head: Head, origin: Option<&HeaderValue>) -> (r: Head)
    ensures
        r@ == with_origin(head@, crate::headers::value_view(origin)),
{
    let mut head = head;
    if let Some(value) = origin {
        proof {
            reveal_strlit("snd-received, content-type");
            reveal_strlit("Origin");
            lemma_printable_is_valid("snd-received, content-type"@);
            lemma_printable_is_valid("Origin"@);
        }
        head.push("access-control-allow-origin", value.clone());
        head.push_text("access-control-allow-headers", "snd-received, content-type");
        head.push_text("vary", "Origin");
    }
    head
}

/// Adds to a head what lets a page read the answer to the request with the given
/// headers.
pub fn insert_origin(head: Head, headers: &HeaderMap<HeaderValue>) -> (r: Head)
    ensures
        r@ == with_origin_of(head@, crate::headers::header_fields(*headers)),
{
    proof {
        reveal_strlit("origin");
    }
    allow_origin(head, get_value(headers, "origin"))
}

/// The answer that says nothing of what became of a request.
pub fn empty_response(headers: &HeaderMap<HeaderValue>) -> (r: Reply)
    ensures
        r@ == empty_reply(crate::headers::header_fields(*headers)),
{
    let r = Reply { head: insert_origin(Head::new(), headers), body: Vec::new() };
    proof {
        assert(r.body@ =~= seq![]);
    }
    r
}

/// The answer to an `OPTIONS` request.
pub fn serve_options(headers: &HeaderMap<HeaderValue>) -> (r: Reply)
    ensures
        r@ == empty_reply(crate::headers::header_fields(*headers)),
{
    empty_response(headers)
}

/// The answer to a request that `received` listeners got.
pub fn received_response(headers: &HeaderMap<HeaderValue>, received: usize) -> (r: Reply)
    ensures
        r@ == received_reply(crate::headers::header_fields(*headers), received as nat),
{
    let mut head = insert_origin(Head::new(), headers);
    head.push("snd-received", number_value(received));
    let r = Reply { head, body: Vec::new() };
    proof {
        assert(r.body@ =~= seq![]);
    }
    r
}

/// The page for browsers: the rendered one, or a stand-in where rendering
/// failed.
pub fn serve_browser(rendered: Option<String>) -> (r: Vec<u8>)
    ensures
        r@ == vstd::utf8::encode_utf8(
            match rendered {
                Some(html) => html@,
                None => "<h1>error</h1>"@,
            },
        ),
{
    match rendered {
        Some(html) => slice_to_vec(html.as_str().as_bytes()),
        None => slice_to_vec("<h1>error</h1>".as_bytes()),
    }
}

/// The status of an answer whose body was handed over, or could not be.
pub fn sent_status(sent: bool) -> (r: u16)
    ensures
        r == if sent {
            200u16
        } else {
            500u16
        },
{
    if sent {
        200
    } else {
        500
    }
}

/// A header field with this name, these bytes for its value, and this mark.
pub open spec fn field_is(
    field: HeaderField,
    name: Seq<char>,
    bytes: Seq<u8>,
    sensitive: bool,
) -> bool {
    &&& field.name@ == name
    &&& crate::headers::value_bytes(field.value) == bytes
    &&& crate::headers::value_sensitive(field.value) == sensitive
}

/// From place `n` on these are the three fields that let a page from `origin` read
/// an answer.
pub open spec fn opened_to(
    headers: Seq<HeaderField>,
    n: int,
    origin: (Seq<char>, Seq<u8>, bool),
) -> bool {
    &&& n + 3 <= headers.len()
    &&& field_is(headers[n], "access-control-allow-origin"@, origin.1, origin.2)
    &&& field_is(
        headers[n + 1],
        "access-control-allow-headers"@,
        vstd::utf8::encode_utf8("snd-received, content-type"@),
        false,
    )
    &&& field_is(headers[n + 2], "vary"@, vstd::utf8::encode_utf8("Origin"@), false)
}

/// Of heads that hold the same, the fields are the same.
proof fn lemma_same_fields(head: Head, fields: Seq<(Seq<char>, Seq<u8>, bool)>)
    requires
        head@.fields == fields,
    ensures
        head.headers@.len() == fields.len(),
        forall|k: int|
            0 <= k < fields.len() ==> field_is(
                #[trigger] head.headers@[k],
                fields[k].0,
                fields[k].1,
                fields[k].2,
            ),
{
    assert forall|k: int| 0 <= k < fields.len() implies field_is(
        #[trigger] head.headers@[k],
        fields[k].0,
        fields[k].1,
        fields[k].2,
    ) by {
        assert(head@.fields[k] == head.headers@[k]@);
    }
}

/// The answer to a request with an origin is opened to that origin, as it came, and
/// to no other, behind what the answer held before; that to a request without one
/// to none. The status stays.
pub proof fn law_origin_is_let_in(head: Head, headers: HeaderMap<HeaderValue>, i: int, r: Head)
    requires
        call_ensures(insert_origin, (head, &headers), r),
    ensures
        r.status == head.status,
        forall|k: int|
            0 <= k < head.headers@.len() ==> k < r.headers@.len() && field_is(
                r.headers@[k],
                (#[trigger] head.headers@[k]).name@,
                crate::headers::value_bytes(head.headers@[k].value),
                crate::headers::value_sensitive(head.headers@[k].value),
            ),
        crate::headers::is_absent(crate::headers::header_fields(headers), "origin"@)
            ==> r.headers@.len() == head.headers@.len(),
        crate::headers::is_first(crate::headers::header_fields(headers), i, "origin"@)
            ==> r.headers@.len() == head.headers@.len() + 3 && opened_to(
            r.headers@,
            head.headers@.len() as int,
            crate::headers::header_fields(headers)[i],
        ),
{
    let fields = crate::headers::header_fields(headers);
    let n = head.headers@.len() as int;
    crate::headers::lemma_first_field(fields, i, "origin"@);
    lemma_same_fields(head, head@.fields);
    lemma_same_fields(r, r@.fields);
    let o = crate::headers::lemma_first_or_absent(fields, "origin"@);
    crate::headers::lemma_first_field(fields, o, "origin"@);
    assert forall|k: int| 0 <= k < n implies k < r.headers@.len() && field_is(
        r.headers@[k],
        (#[trigger] head.headers@[k]).name@,
        crate::headers::value_bytes(head.headers@[k].value),
        crate::headers::value_sensitive(head.headers@[k].value),
    ) by {
        assert(r@.fields[k] == head@.fields[k]);
        assert(head@.fields[k] == head.headers@[k]@);
        assert(r@.fields[k] == r.headers@[k]@);
    }
    if crate::headers::is_first(fields, i, "origin"@) {
        assert(field_is(r.headers@[n], r@.fields[n].0, r@.fields[n].1, r@.fields[n].2));
        assert(field_is(
            r.headers@[n + 1],
            r@.fields[n + 1].0,
            r@.fields[n + 1].1,
            r@.fields[n + 1].2,
        ));
        assert(field_is(
            r.headers@[n + 2],
            r@.fields[n + 2].0,
            r@.fields[n + 2].1,
            r@.fields[n + 2].2,
        ));
    }
}

/// An empty answer is a success without a body, opened to the origin of the request
/// where it has one, with no other field; and it is what `OPTIONS` get.
pub proof fn law_empty_answer(headers: HeaderMap<HeaderValue>, i: int, r: Reply, options: Reply)
    requires
        call_ensures(empty_response, (&headers,), r),
        call_ensures(serve_options, (&headers,), options),
    ensures
        r.head.status == 200,
        r.body@.len() == 0,
        crate::headers::is_absent(crate::headers::header_fields(headers), "origin"@)
            ==> r.head.headers@.len() == 0,
        crate::headers::is_first(crate::headers::header_fields(headers), i, "origin"@)
            ==> r.head.headers@.len() == 3 && opened_to(
            r.head.headers@,
            0,
            crate::headers::header_fields(headers)[i],
        ),
        options@ == r@,
{
    lemma_empty_answer(headers, i, r);
}

/// What an empty answer holds.
pub proof fn lemma_empty_answer(headers: HeaderMap<HeaderValue>, i: int, r: Reply)
    requires
        r@ == empty_reply(crate::headers::header_fields(headers)),
    ensures
        r.head.status == 200,
        r.body@.len() == 0,
        crate::headers::is_absent(crate::headers::header_fields(headers), "origin"@)
            ==> r.head.headers@.len() == 0,
        crate::headers::is_first(crate::headers::header_fields(headers), i, "origin"@)
            ==> r.head.headers@.len() == 3 && opened_to(
            r.head.headers@,
            0,
            crate::headers::header_fields(headers)[i],
        ),
        r.head.headers@.len() == 0 || r.head.headers@.len() == 3,
        r.head.headers@.len() == 3 ==> r.head.headers@[2].name@ == "vary"@,
{
    let fields = crate::headers::header_fields(headers);
    crate::headers::lemma_first_field(fields, i, "origin"@);
    lemma_same_fields(r.head, r.head@.fields);
    if r.head@.fields.len() == 3 {
        assert(field_is(
            r.head.headers@[0],
            r.head@.fields[0].0,
            r.head@.fields[0].1,
            r.head@.fields[0].2,
        ));
        assert(field_is(
            r.head.headers@[1],
            r.head@.fields[1].0,
            r.head@.fields[1].1,
            r.head@.fields[1].2,
        ));
        assert(field_is(
            r.head.headers@[2],
            r.head@.fields[2].0,
            r.head@.fields[2].1,
            r.head@.fields[2].2,
        ));
    }
}

/// The answer that says how many listeners received a request is a success without
/// a body, opened to the origin of the request where it has one; its last field,
/// `snd-received`, holds the number.
pub open spec fn says_received(
    headers: HeaderMap<HeaderValue>,
    reply: Reply,
    received: nat,
) -> bool {
    let n = reply.head.headers@.len() - 1;
    let fields = crate::headers::header_fields(headers);
    &&& reply.head.status == 200
    &&& reply.body@.len() == 0
    &&& crate::headers::is_absent(fields, "origin"@) ==> n == 0
    &&& forall|i: int| #[trigger]
        crate::headers::is_first(fields, i, "origin"@) ==> n == 3 && opened_to(
            reply.head.headers@,
            0,
            fields[i],
        )
    &&& n >= 0
    &&& field_is(
        reply.head.headers@[n],
        "snd-received"@,
        crate::text::decimal(received),
        false,
    )
}

/// What an answer holds that says how many listeners received a request.
pub proof fn lemma_says_received(headers: HeaderMap<HeaderValue>, reply: Reply, received: nat)
    requires
        reply@ == received_reply(crate::headers::header_fields(headers), received),
    ensures
        says_received(headers, reply, received),
{
    let fields = crate::headers::header_fields(headers);
    let shown = reply.head@.fields;
    let o = crate::headers::lemma_first_or_absent(fields, "origin"@);
    crate::headers::lemma_first_field(fields, o, "origin"@);
    lemma_same_fields(reply.head, shown);
    let n = shown.len() - 1;
    assert(field_is(reply.head.headers@[n], shown[n].0, shown[n].1, shown[n].2));
    assert forall|i: int| #[trigger] crate::headers::is_first(fields, i, "origin"@) implies n == 3
        && opened_to(reply.head.headers@, 0, fields[i]) by {
        crate::headers::lemma_first_field(fields, i, "origin"@);
        assert(field_is(reply.head.headers@[0], shown[0].0, shown[0].1, shown[0].2));
        assert(field_is(reply.head.headers@[1], shown[1].0, shown[1].1, shown[1].2));
        assert(field_is(reply.head.headers@[2], shown[2].0, shown[2].1, shown[2].2));
    }
}

/// The answer to a request says how many listeners received it, whatever their
/// number.
pub proof fn law_answer_says_how_many(
    headers: HeaderMap<HeaderValue>,
    received: usize,
    r: Reply,
)
    requires
        call_ensures(received_response, (&headers, received), r),
    ensures
        says_received(headers, r, received as nat),
{
    lemma_says_received(headers, r, received as nat);
}

/// A browser gets the page as it was rendered, or the stand-in where it was not; the
/// status is a success where the body was handed over, and else a server error.
pub proof fn law_browser_gets_the_page(
    rendered: Option<String>,
    page: Vec<u8>,
    sent: bool,
    status: u16,
)
    requires
        call_ensures(serve_browser, (rendered,), page),
        call_ensures(sent_status, (sent,), status),
    ensures
        rendered matches Some(html) ==> page@ == vstd::utf8::encode_utf8(html@),
        rendered is None ==> page@ == vstd::utf8::encode_utf8("<h1>error</h1>"@),
        sent ==> status == 200,
        !sent ==> status == 500,
{
}

} // verus!
