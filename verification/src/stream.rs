//! What a listener is sent.

use crate::entry::PipeEntry;
use crate::headers::{show_value, HeaderField};
use crate::json::color_body;
use crate::pipes::Pipes;
use crate::reply::{insert_origin, Head};
use crate::request::{GetterType, Request};
use crate::text::{append_bytes, is_utf8, same_text, starts_with};
use vstd::prelude::*;
use vstd::slice::slice_to_vec;
use vstd::string::*;

verus! {

/// What a request's body is declared to be.
#[derive(PartialEq, Eq, Structural, Clone, Copy, Debug)]
pub enum ContentType {
    Json,
    Other,
}

/// How far the delivery of one request to one listener has come.
#[derive(PartialEq, Eq, Structural, Clone, Copy, Debug)]
pub enum Stage {
    /// The line with the method and the URI is next.
    RequestLine,
    /// This one of the header fields is next.
    Header(usize),
    /// The empty line is next; so many of the header fields have been looked at.
    Blank(usize),
    /// The body is next; so many of the header fields have been looked at.
    Body(usize),
    /// The line ends behind the body are next.
    Trailer,
    /// All has been sent.
    Finished,
    /// The listener has gone.
    Stopped,
}

/// The delivery of one request to one listener.
pub struct Delivery {
    pub entry: PipeEntry,
    pub getter: GetterType,
    pub stage: Stage,
}

/// The greeting of a listener on `path` at `host`.
pub open spec fn greeting_text(host: Seq<char>, path: Seq<char>) -> Seq<char> {
    "Your URL is "@ + host + path + "\ncurl -d \"Hello World!\" "@ + host + path + "\n\n"@
}

/// The line with the method and the URI.
pub open spec fn request_line(method: Seq<char>, uri: Seq<char>) -> Seq<char> {
    method + " "@ + uri + "\n"@
}

/// The line that shows a header field.
pub open spec fn header_line(field: (Seq<char>, Seq<u8>, bool)) -> Seq<char> {
    field.0 + ": "@ + if crate::headers::all_visible(field.1) {
        crate::text::ascii_text(field.1)
    } else {
        crate::headers::shown(field.1, field.2)
    } + "\n"@
}

/// Whether a header field declares a JSON body.
pub open spec fn declares_json(field: (Seq<char>, Seq<u8>, bool)) -> bool {
    field.0 == "content-type"@ && vstd::utf8::encode_utf8("application/json"@).is_prefix_of(field.1)
}

/// What the first `seen` header fields declare a body to be.
pub open spec fn declared_type(
    fields: Seq<(Seq<char>, Seq<u8>, bool)>,
    seen: int,
) -> ContentType {
    if exists|i: int| 0 <= i < seen && i < fields.len() && declares_json(#[trigger] fields[i]) {
        ContentType::Json
    } else {
        ContentType::Other
    }
}

/// What an event stream is sent for a body.
pub open spec fn event_text(body: Seq<u8>) -> Seq<u8> {
    if vstd::utf8::valid_utf8(body) {
        vstd::utf8::encode_utf8("data: "@) + body
    } else {
        vstd::utf8::encode_utf8("data: {\"error\": \"invalid utf8\"}"@)
    }
}

/// The chunks that may show a body to `getter`.
pub open spec fn is_body_chunk(
    getter: GetterType,
    content_type: ContentType,
    body: Seq<u8>,
    chunk: Seq<u8>,
) -> bool {
    match (getter, content_type) {
        (GetterType::Curl, ContentType::Json) => crate::json::colored_body(body, chunk),
        (GetterType::EventStream, _) => chunk == event_text(body),
        _ => chunk == body,
    }
}

/// The chunks that may be sent of an entry to `getter` at a stage.
pub open spec fn is_chunk(
    entry: crate::entry::EntryView,
    getter: GetterType,
    stage: Stage,
    chunk: Seq<u8>,
) -> bool {
    match stage {
        Stage::RequestLine => chunk == vstd::utf8::encode_utf8(
            request_line(entry.method, entry.uri),
        ),
        Stage::Header(i) => i < entry.fields.len() && chunk == vstd::utf8::encode_utf8(
            header_line(entry.fields[i as int]),
        ),
        Stage::Blank(_) => chunk == vstd::utf8::encode_utf8("\n"@),
        Stage::Body(seen) => is_body_chunk(
            getter,
            declared_type(entry.fields, seen as int),
            entry.body,
            chunk,
        ),
        Stage::Trailer => chunk == vstd::utf8::encode_utf8("\n\n"@),
        Stage::Finished => false,
        Stage::Stopped => false,
    }
}

/// The stage that follows when the chunk of a stage was sent, or could not be,
/// of an entry with `count` header fields. A header field that could not be sent
/// ends the header fields; any other chunk that could not be sent ends the
/// delivery.
pub open spec fn next_stage(stage: Stage, getter: GetterType, count: usize, sent: bool) -> Stage {
    match stage {
        Stage::RequestLine => if !sent {
            Stage::Stopped
        } else if getter == GetterType::Curl && count > 0 {
            Stage::Header(0)
        } else {
            Stage::Blank(count)
        },
        Stage::Header(i) => if !sent || i + 1 >= count {
            Stage::Blank((i + 1) as usize)
        } else {
            Stage::Header((i + 1) as usize)
        },
        Stage::Blank(seen) => if sent {
            Stage::Body(seen)
        } else {
            Stage::Stopped
        },
        Stage::Body(_) => if sent {
            Stage::Trailer
        } else {
            Stage::Stopped
        },
        Stage::Trailer => if sent {
            Stage::Finished
        } else {
            Stage::Stopped
        },
        Stage::Finished => Stage::Finished,
        Stage::Stopped => Stage::Stopped,
    }
}

/// The head of the answer to a listener whose request has the given fields.
pub open spec fn listener_head(
    fields: Seq<(Seq<char>, Seq<u8>, bool)>,
    getter: GetterType,
) -> crate::reply::HeadView {
    let head = crate::reply::with_origin_of(crate::reply::plain_head(), fields);
    if getter == GetterType::EventStream {
        head.with_text("content-type"@, "text/event-stream"@).with_text(
            "content-type"@,
            "cache-control: no-store"@,
        )
    } else {
        head
    }
}

/// The greeting of a listener on `path` at `host`.
pub fn greeting(host: &str, path: &str) -> (r: Vec<u8>)
    ensures
        r@ == vstd::utf8::encode_utf8(greeting_text(host@, path@)),
{
    let text = "Your URL is ".to_owned().concat(host).concat(path).concat(
        "\ncurl -d \"Hello World!\" ",
    ).concat(host).concat(path).concat("\n\n");
    slice_to_vec(text.as_str().as_bytes())
}

/// Makes the sender of a request a listener of its path, and gives the head of
/// the answer.
pub fn serve_get<S>(
    pipes: &mut Pipes<S>,
    id: u128,
    request: &Request,
    getter: GetterType,
    sender: S,
) -> (r: Head)
    requires
        old(pipes).wf(),
    ensures
        final(pipes).wf(),
        final(pipes)@ == old(pipes)@.attached(id, request.path@, sender),
        r@ == listener_head(crate::headers::header_fields(request.headers), getter),
{
    pipes.attach(id, request.path.as_str(), sender);
    let mut head = insert_origin(Head::new(), &request.headers);
    if getter == GetterType::EventStream {
        proof {
            reveal_strlit("text/event-stream");
            reveal_strlit("cache-control: no-store");
            crate::reply::lemma_printable_is_valid("text/event-stream"@);
            crate::reply::lemma_printable_is_valid("cache-control: no-store"@);
        }
        head.push_text("content-type", "text/event-stream");
        head.push_text("content-type", "cache-control: no-store");
    }
    head
}

/// The line that shows a header field.
pub fn show_field(field: &HeaderField) -> (r: Vec<u8>)
    ensures
        r@ == vstd::utf8::encode_utf8(header_line(field@)),
        can_be_shown(crate::headers::value_bytes(field.value)) ==> r@ == vstd::utf8::encode_utf8(
            field.name@,
        ) + vstd::utf8::encode_utf8(": "@) + crate::headers::value_bytes(field.value)
            + vstd::utf8::encode_utf8("\n"@),
{
    proof {
        lemma_header_line_bytes(field@);
    }
    let start = field.name.clone().concat(": ");
    let line = match field.value.to_str() {
        Ok(text) => start.concat(text),
        Err(_) => start.concat(show_value(&field.value).as_str()),
    };
    slice_to_vec(line.concat("\n").as_str().as_bytes())
}

/// What the first `seen` header fields declare a body to be.
pub fn content_type(headers: &Vec<HeaderField>, seen: usize) -> (r: ContentType)
    ensures
        r == declared_type(crate::headers::fields_view(headers@), seen as int),
{
    let ghost fields = crate::headers::fields_view(headers@);
    let mut i: usize = 0;
    while i < seen && i < headers.len()
        invariant
            i <= headers.len(),
            i <= seen,
            fields == crate::headers::fields_view(headers@),
            forall|j: int| 0 <= j < i ==> !declares_json(#[trigger] fields[j]),
        decreases headers.len() - i,
    {
        let field = &headers[i];
        proof {
            assert(fields[i as int] == field@);
        }
        if same_text(field.name.as_str(), "content-type") && starts_with(
            field.value.as_bytes(),
            "application/json".as_bytes(),
        ) {
            proof {
                assert(declares_json(fields[i as int]));
            }
            return ContentType::Json;
        }
        i = i + 1;
    }
    ContentType::Other
}

/// What `getter` is sent for a body.
pub fn body_chunk(getter: GetterType, content_type: ContentType, body: &[u8]) -> (r: Vec<u8>)
    ensures
        is_body_chunk(getter, content_type, body@, r@),
{
    match (getter, content_type) {
        (GetterType::Curl, ContentType::Json) => color_body(body),
        (GetterType::EventStream, _) => {
            if is_utf8(body) {
                let mut chunk = slice_to_vec("data: ".as_bytes());
                append_bytes(&mut chunk, body);
                chunk
            } else {
                slice_to_vec("data: {\"error\": \"invalid utf8\"}".as_bytes())
            }
        },
        _ => slice_to_vec(body),
    }
}

impl Delivery {
    /// The next header field to show, where there is one to show, is one of the
    /// entry's.
    pub open spec fn wf(self) -> bool {
        self.stage matches Stage::Header(i) ==> i < self.entry.headers@.len()
    }

    /// Starts the delivery of an entry to `getter`.
    pub fn new(entry: PipeEntry, getter: GetterType) -> (r: Delivery)
        ensures
            r.wf(),
            r == (Delivery { entry, getter, stage: Stage::RequestLine }),
    {
        Delivery { entry, getter, stage: Stage::RequestLine }
    }

    /// The chunk to send next, if there is one.
    pub fn chunk(&self) -> (r: Option<Vec<u8>>)
        requires
            self.wf(),
        ensures
            match r {
                Some(chunk) => is_chunk(self.entry@, self.getter, self.stage, chunk@),
                None => self.stage is Finished || self.stage is Stopped,
            },
    {
        match self.stage {
            Stage::RequestLine => {
                let line = self.entry.method.clone().concat(" ").concat(
                    self.entry.uri.as_str(),
                ).concat("\n");
                Some(slice_to_vec(line.as_str().as_bytes()))
            },
            Stage::Header(i) => Some(show_field(&self.entry.headers[i])),
            Stage::Blank(_) => Some(slice_to_vec("\n".as_bytes())),
            Stage::Body(seen) => Some(
                body_chunk(
                    self.getter,
                    content_type(&self.entry.headers, seen),
                    self.entry.body.as_slice(),
                ),
            ),
            Stage::Trailer => Some(slice_to_vec("\n\n".as_bytes())),
            Stage::Finished => None,
            Stage::Stopped => None,
        }
    }

    /// Takes down whether the chunk was sent.
    pub fn advance(&mut self, sent: bool)
        requires
            old(self).wf(),
        ensures
            final(self).wf(),
            final(self).entry == old(self).entry,
            final(self).getter == old(self).getter,
            final(self).stage == next_stage(
                old(self).stage,
                old(self).getter,
                old(self).entry.headers@.len() as usize,
                sent,
            ),
    {
        let count: usize = self.entry.headers.len();
        self.stage = match self.stage {
            Stage::RequestLine => if !sent {
                Stage::Stopped
            } else if self.getter == GetterType::Curl && count > 0 {
                Stage::Header(0)
            } else {
                Stage::Blank(count)
            },
            Stage::Header(i) => if !sent || i + 1 >= count {
                Stage::Blank(i + 1)
            } else {
                Stage::Header(i + 1)
            },
            Stage::Blank(seen) => if sent {
                Stage::Body(seen)
            } else {
                Stage::Stopped
            },
            Stage::Body(_) => if sent {
                Stage::Trailer
            } else {
                Stage::Stopped
            },
            Stage::Trailer => if sent {
                Stage::Finished
            } else {
                Stage::Stopped
            },
            Stage::Finished => Stage::Finished,
            Stage::Stopped => Stage::Stopped,
        };
    }
}

/// The stages of a complete delivery to `getter` of an entry with `count` header
/// fields, in order: the request line; for curl, each of the header fields; the
/// empty line; the body; the line ends behind it.
pub open spec fn plan(getter: GetterType, count: usize) -> Seq<Stage> {
    let shown = if getter == GetterType::Curl {
        count as nat
    } else {
        0
    };
    seq![Stage::RequestLine] + Seq::new(shown, |i: int| Stage::Header(i as usize)) + seq![
        Stage::Blank(count),
        Stage::Body(count),
        Stage::Trailer,
    ]
}

/// The stage of a delivery after as many chunks as `sent` lists, each sent or
/// not.
pub open spec fn stage_after(getter: GetterType, count: usize, sent: Seq<bool>) -> Stage
    decreases sent.len(),
{
    if sent.len() == 0 {
        Stage::RequestLine
    } else {
        next_stage(stage_after(getter, count, sent.drop_last()), getter, count, sent.last())
    }
}

/// A listener that takes every chunk is sent exactly the planned ones, in order,
/// and then the delivery is finished.
pub proof fn law_delivery_follows_plan(getter: GetterType, count: usize, sent: Seq<bool>)
    requires
        forall|i: int| 0 <= i < sent.len() ==> sent[i],
    ensures
        stage_after(getter, count, sent) == if sent.len() < plan(getter, count).len() {
            plan(getter, count)[sent.len() as int]
        } else {
            Stage::Finished
        },
    decreases sent.len(),
{
    if sent.len() > 0 {
        assert(sent[sent.len() - 1]);
        law_delivery_follows_plan(getter, count, sent.drop_last());
    }
}

/// A delivery stays within the entry's header fields, whatever is sent and
/// whatever is not.
pub proof fn law_stages_stay_within(getter: GetterType, count: usize, sent: Seq<bool>)
    ensures
        match stage_after(getter, count, sent) {
            Stage::Header(i) => getter == GetterType::Curl && i < count,
            Stage::Blank(seen) => seen <= count,
            Stage::Body(seen) => seen <= count,
            _ => true,
        },
    decreases sent.len(),
{
    if sent.len() > 0 {
        law_stages_stay_within(getter, count, sent.drop_last());
    }
}

/// A delivery is over after no more chunks than were planned, whatever is sent
/// and whatever is not.
pub proof fn law_delivery_ends(getter: GetterType, count: usize, sent: Seq<bool>)
    requires
        sent.len() >= plan(getter, count).len(),
    ensures
        stage_after(getter, count, sent) is Finished || stage_after(getter, count, sent) is Stopped,
{
    lemma_left(getter, count, sent);
}

/// The most chunks that are still to come at a stage.
spec fn left(stage: Stage, getter: GetterType, count: usize) -> int {
    match stage {
        Stage::RequestLine => plan(getter, count).len() as int,
        Stage::Header(i) => count - i + 3,
        Stage::Blank(_) => 3,
        Stage::Body(_) => 2,
        Stage::Trailer => 1,
        Stage::Finished => 0,
        Stage::Stopped => 0,
    }
}

proof fn lemma_left(getter: GetterType, count: usize, sent: Seq<bool>)
    ensures
        left(stage_after(getter, count, sent), getter, count) <= if sent.len() <= plan(
            getter,
            count,
        ).len() {
            plan(getter, count).len() - sent.len()
        } else {
            0
        },
    decreases sent.len(),
{
    law_stages_stay_within(getter, count, sent);
    if sent.len() > 0 {
        lemma_left(getter, count, sent.drop_last());
        law_stages_stay_within(getter, count, sent.drop_last());
    }
}

/// A listener that has gone is given up: after two chunks in a row that could not
/// be sent, none is left to send; and nothing revives a delivery that is over.
pub proof fn law_gone_listener_is_given_up(getter: GetterType, count: usize, stage: Stage)
    ensures
        ({
            let next = next_stage(next_stage(stage, getter, count, false), getter, count, false);
            next is Stopped || (stage is Finished && next is Finished)
        }),
        forall|sent: bool| stage is Stopped ==> #[trigger] next_stage(stage, getter, count, sent)
            is Stopped,
        forall|sent: bool| stage is Finished ==> #[trigger] next_stage(stage, getter, count, sent)
            is Finished,
{
}

/// A delivery that finished left out nothing but header fields: what could not be
/// sent before its end was a header field.
pub proof fn law_finished_means_sent(getter: GetterType, count: usize, sent: Seq<bool>, k: int)
    requires
        stage_after(getter, count, sent) is Finished,
        0 <= k < sent.len(),
        !sent[k],
    ensures
        stage_after(getter, count, sent.take(k)) is Header || stage_after(
            getter,
            count,
            sent.take(k),
        ) is Finished,
{
    let stage = stage_after(getter, count, sent.take(k));
    if !(stage is Header || stage is Finished) {
        assert(sent.take(k + 1).drop_last() =~= sent.take(k));
        assert(stage_after(getter, count, sent.take(k + 1)) is Stopped);
        lemma_stopped_for_good(getter, count, sent, k + 1);
    }
}

proof fn lemma_stopped_for_good(getter: GetterType, count: usize, sent: Seq<bool>, k: int)
    requires
        0 <= k <= sent.len(),
        stage_after(getter, count, sent.take(k)) is Stopped,
    ensures
        stage_after(getter, count, sent) is Stopped,
    decreases sent.len(),
{
    if k == sent.len() {
        assert(sent.take(k) =~= sent);
    } else {
        assert(sent.drop_last().take(k) =~= sent.take(k));
        lemma_stopped_for_good(getter, count, sent.drop_last(), k);
    }
}

/// curl is sent the body as it came, unless the header fields declare it to be
/// JSON; an event stream is sent it on a `data:` line, unless it is not UTF-8.
pub proof fn law_body_is_passed_on(
    entry: crate::entry::EntryView,
    getter: GetterType,
    seen: usize,
    chunk: Seq<u8>,
)
    requires
        is_chunk(entry, getter, Stage::Body(seen), chunk),
    ensures
        getter != GetterType::EventStream && declared_type(entry.fields, seen as int)
            != ContentType::Json ==> chunk == entry.body,
        getter == GetterType::EventStream && vstd::utf8::valid_utf8(entry.body) ==> chunk
            == vstd::utf8::encode_utf8("data: "@) + entry.body,
        getter == GetterType::Curl && crate::json::parsed_json(entry.body) is None ==> chunk
            == entry.body,
{
}

/// The lines that show some header fields.
pub open spec fn header_lines(fields: Seq<(Seq<char>, Seq<u8>, bool)>) -> Seq<u8>
    decreases fields.len(),
{
    if fields.len() == 0 {
        seq![]
    } else {
        header_lines(fields.drop_last()) + vstd::utf8::encode_utf8(header_line(fields.last()))
    }
}

/// What a listener reads of one request, where `body` is what shows its body.
pub open spec fn streamed(
    entry: crate::entry::EntryView,
    getter: GetterType,
    body: Seq<u8>,
) -> Seq<u8> {
    let fields = if getter == GetterType::Curl {
        entry.fields
    } else {
        seq![]
    };
    vstd::utf8::encode_utf8(request_line(entry.method, entry.uri)) + header_lines(fields)
        + vstd::utf8::encode_utf8("\n"@) + body + vstd::utf8::encode_utf8("\n\n"@)
}

/// The first chunks of a planned delivery: the request line and some of the header
/// lines.
proof fn lemma_first_chunks(
    entry: crate::entry::EntryView,
    getter: GetterType,
    chunks: Seq<Seq<u8>>,
    n: int,
)
    requires
        entry.fields.len() <= usize::MAX,
        0 <= n <= entry.fields.len(),
        n > 0 ==> getter == GetterType::Curl,
        n < chunks.len() <= plan(getter, entry.fields.len() as usize).len(),
        forall|k: int|
            0 <= k < chunks.len() ==> is_chunk(
                entry,
                getter,
                plan(getter, entry.fields.len() as usize)[k],
                #[trigger] chunks[k],
            ),
    ensures
        crate::text::joined(chunks.take(n + 1)) == vstd::utf8::encode_utf8(
            request_line(entry.method, entry.uri),
        ) + header_lines(entry.fields.take(n)),
    decreases n,
{
    assert(chunks.take(n + 1).drop_last() =~= chunks.take(n));
    assert(is_chunk(entry, getter, plan(getter, entry.fields.len() as usize)[n], chunks[n]));
    let line = vstd::utf8::encode_utf8(request_line(entry.method, entry.uri));
    if n == 0 {
        assert(crate::text::joined(chunks.take(0)) =~= seq![]);
        assert(entry.fields.take(0) =~= seq![]);
        assert(crate::text::joined(chunks.take(1)) =~= line + header_lines(entry.fields.take(0)));
    } else {
        lemma_first_chunks(entry, getter, chunks, n - 1);
        assert(entry.fields.take(n).drop_last() =~= entry.fields.take(n - 1));
        assert(entry.fields.take(n).last() == entry.fields[n - 1]);
        assert(chunks.take(n + 1).last() == chunks[n]);
        assert(crate::text::joined(chunks.take(n + 1)) =~= line + header_lines(entry.fields.take(n)));
    }
}

/// A request is streamed whole to a listener that takes every chunk: when the
/// delivery is finished, what was read is the line with the method and the URI;
/// for curl, a line for each of the header fields; an empty line; what shows the
/// body, by all that the header fields declare; and the line ends behind it.
pub proof fn law_request_is_streamed(
    entry: crate::entry::EntryView,
    getter: GetterType,
    sent: Seq<bool>,
    chunks: Seq<Seq<u8>>,
)
    requires
        entry.fields.len() <= usize::MAX,
        chunks.len() == sent.len(),
        forall|k: int| 0 <= k < sent.len() ==> sent[k],
        forall|k: int|
            0 <= k < chunks.len() ==> is_chunk(
                entry,
                getter,
                stage_after(getter, entry.fields.len() as usize, sent.take(k)),
                #[trigger] chunks[k],
            ),
        stage_after(getter, entry.fields.len() as usize, sent) is Finished,
    ensures
        chunks.len() >= 2,
        is_body_chunk(
            getter,
            declared_type(entry.fields, entry.fields.len() as int),
            entry.body,
            chunks[chunks.len() - 2],
        ),
        crate::text::joined(chunks) == streamed(entry, getter, chunks[chunks.len() - 2]),
{
    let count = entry.fields.len() as usize;
    let stages = plan(getter, count);
    assert forall|k: int| 0 <= k < chunks.len() implies k < stages.len() && is_chunk(
        entry,
        getter,
        stages[k],
        #[trigger] chunks[k],
    ) by {
        law_delivery_follows_plan(getter, count, sent.take(k));
        assert(is_chunk(entry, getter, stage_after(getter, count, sent.take(k)), chunks[k]));
    }
    law_delivery_follows_plan(getter, count, sent);
    if chunks.len() > stages.len() {
        assert(is_chunk(entry, getter, stages[chunks.len() - 1], chunks[chunks.len() - 1]));
    }
    let n = stages.len() - 4;
    lemma_first_chunks(entry, getter, chunks, n);
    assert(chunks.drop_last() =~= chunks.take(n + 3));
    assert(chunks.take(n + 3).drop_last() =~= chunks.take(n + 2));
    assert(chunks.take(n + 2).drop_last() =~= chunks.take(n + 1));
    assert(is_chunk(entry, getter, stages[n + 1], chunks[n + 1]));
    assert(is_chunk(entry, getter, stages[n + 2], chunks[n + 2]));
    assert(is_chunk(entry, getter, stages[n + 3], chunks[n + 3]));
    assert(entry.fields.take(n) =~= if getter == GetterType::Curl {
        entry.fields
    } else {
        seq![]
    });
    assert(crate::text::joined(chunks.take(n + 2)) == crate::text::joined(chunks.take(n + 1)) + chunks[n + 1]);
    assert(crate::text::joined(chunks.take(n + 3)) == crate::text::joined(chunks.take(n + 2)) + chunks[n + 2]);
    assert(crate::text::joined(chunks) == crate::text::joined(chunks.take(n + 3)) + chunks[n + 3]);
}

/// A greeting tells a listener how to send something to its own path: the line
/// behind the first holds a command that posts to the path at the host.
pub proof fn law_greeting_names_the_path(host: Seq<char>, path: Seq<char>)
    ensures
        ("Your URL is "@ + host + path).is_prefix_of(greeting_text(host, path)),
        (host + path + "\n\n"@).is_suffix_of(greeting_text(host, path)),
{
    let text = greeting_text(host, path);
    let first = "Your URL is "@ + host + path;
    let last = host + path + "\n\n"@;
    assert(first =~= text.subrange(0, first.len() as int));
    assert(last =~= text.subrange(text.len() - last.len(), text.len() as int));
}

/// A listener is greeted with the address of its path, and with a command that
/// sends something to it, with host and path as they are.
pub proof fn law_greeting_is_written_out(host: &str, path: &str, r: Vec<u8>)
    requires
        call_ensures(greeting, (host, path), r),
    ensures
        r@ == vstd::utf8::encode_utf8("Your URL is "@) + vstd::utf8::encode_utf8(host@)
            + vstd::utf8::encode_utf8(path@) + vstd::utf8::encode_utf8(
            "\ncurl -d \"Hello World!\" "@,
        ) + vstd::utf8::encode_utf8(host@) + vstd::utf8::encode_utf8(path@)
            + vstd::utf8::encode_utf8("\n\n"@),
{
    lemma_greeting_bytes(host@, path@);
}

/// The bytes of a greeting.
pub proof fn lemma_greeting_bytes(host: Seq<char>, path: Seq<char>)
    ensures
        vstd::utf8::encode_utf8(greeting_text(host, path)) == vstd::utf8::encode_utf8(
            "Your URL is "@,
        ) + vstd::utf8::encode_utf8(host) + vstd::utf8::encode_utf8(path)
            + vstd::utf8::encode_utf8("\ncurl -d \"Hello World!\" "@) + vstd::utf8::encode_utf8(host)
            + vstd::utf8::encode_utf8(path) + vstd::utf8::encode_utf8("\n\n"@),
{
    let a = "Your URL is "@;
    let b = "\ncurl -d \"Hello World!\" "@;
    let c = "\n\n"@;
    crate::text::lemma_encode_utf8_concat(a, host);
    crate::text::lemma_encode_utf8_concat(a + host, path);
    crate::text::lemma_encode_utf8_concat(a + host + path, b);
    crate::text::lemma_encode_utf8_concat(a + host + path + b, host);
    crate::text::lemma_encode_utf8_concat(a + host + path + b + host, path);
    crate::text::lemma_encode_utf8_concat(a + host + path + b + host + path, c);
}

/// What can be seen of ASCII, spaces and tabs.
pub open spec fn can_be_shown(bytes: Seq<u8>) -> bool {
    forall|i: int| 0 <= i < bytes.len() ==> 32 <= #[trigger] bytes[i] <= 126 || bytes[i] == 9
}

proof fn lemma_can_be_shown(bytes: Seq<u8>)
    ensures
        can_be_shown(bytes) <==> crate::headers::all_visible(bytes),
        can_be_shown(bytes) ==> vstd::utf8::encode_utf8(crate::text::ascii_text(bytes)) == bytes,
{
    if crate::headers::all_visible(bytes) {
        assert forall|i: int| 0 <= i < bytes.len() implies 32 <= #[trigger] bytes[i] <= 126
            || bytes[i] == 9 by {
            assert(crate::headers::visible(bytes[i]));
        }
    }
    if can_be_shown(bytes) {
        crate::text::lemma_encode_ascii_text(bytes);
    }
}

/// The line of a field that can be shown: name, colon, space, all the bytes of the
/// value, line end.
pub open spec fn field_line(name: Seq<char>, value: Seq<u8>) -> Seq<u8> {
    vstd::utf8::encode_utf8(name) + vstd::utf8::encode_utf8(": "@) + value
        + vstd::utf8::encode_utf8("\n"@)
}

proof fn lemma_header_line_bytes(field: (Seq<char>, Seq<u8>, bool))
    ensures
        can_be_shown(field.1) ==> vstd::utf8::encode_utf8(header_line(field)) == field_line(
            field.0,
            field.1,
        ),
        !can_be_shown(field.1) ==> vstd::utf8::encode_utf8(header_line(field)) == field_line(
            field.0,
            vstd::utf8::encode_utf8(crate::headers::shown(field.1, field.2)),
        ),
{
    lemma_can_be_shown(field.1);
    let value = if crate::headers::all_visible(field.1) {
        crate::text::ascii_text(field.1)
    } else {
        crate::headers::shown(field.1, field.2)
    };
    crate::text::lemma_encode_utf8_concat(field.0, ": "@);
    crate::text::lemma_encode_utf8_concat(field.0 + ": "@, value);
    crate::text::lemma_encode_utf8_concat(field.0 + ": "@ + value, "\n"@);
}

/// A header field is shown with its name and with all of its value, of whatever
/// length: the bytes as they are where they can be shown, and else between quotes,
/// or as a fixed word where they are marked as sensitive.
pub proof fn law_field_is_shown_whole(field: HeaderField, r: Vec<u8>)
    requires
        call_ensures(show_field, (&field,), r),
    ensures
        ({
            let name = vstd::utf8::encode_utf8(field.name@);
            let value = crate::headers::value_bytes(field.value);
            let colon = vstd::utf8::encode_utf8(": "@);
            let end = vstd::utf8::encode_utf8("\n"@);
            &&& can_be_shown(value) ==> r@ == name + colon + value + end
            &&& !can_be_shown(value) && crate::headers::value_sensitive(field.value) ==> r@ == name
                + colon + vstd::utf8::encode_utf8("Sensitive"@) + end
            &&& !can_be_shown(value) && !crate::headers::value_sensitive(field.value) ==> r@ == name
                + colon + vstd::utf8::encode_utf8(
                seq!['"'] + crate::headers::escaped_all(value) + seq!['"'],
            ) + end
        }),
{
    lemma_header_line_bytes(field@);
}

/// A field that declares a JSON body does so wherever it stands among the fields
/// that were looked at; without such a field nothing does.
pub proof fn law_json_is_declared_anywhere(
    headers: Vec<HeaderField>,
    seen: usize,
    i: int,
    r: ContentType,
)
    requires
        call_ensures(content_type, (&headers, seen), r),
    ensures
        0 <= i < headers@.len() && i < seen && headers@[i].name@ == "content-type"@
            && vstd::utf8::encode_utf8("application/json"@).is_prefix_of(
            crate::headers::value_bytes(headers@[i].value),
        ) ==> r == ContentType::Json,
        (forall|k: int|
            0 <= k < headers@.len() && k < seen && (#[trigger] headers@[k]).name@ == "content-type"@
                ==> !vstd::utf8::encode_utf8("application/json"@).is_prefix_of(
                crate::headers::value_bytes(headers@[k].value),
            )) ==> r == ContentType::Other,
{
    let fields = crate::headers::fields_view(headers@);
    assert(forall|k: int| 0 <= k < headers@.len() ==> #[trigger] fields[k] == headers@[k]@);
    if 0 <= i < headers@.len() && i < seen {
        assert(fields[i] == headers@[i]@);
        if headers@[i].name@ == "content-type"@ && vstd::utf8::encode_utf8(
            "application/json"@,
        ).is_prefix_of(crate::headers::value_bytes(headers@[i].value)) {
            assert(declares_json(fields[i]));
        }
    }
    if r == ContentType::Json {
        let k = choose|k: int|
            0 <= k < seen && k < fields.len() && declares_json(#[trigger] fields[k]);
        assert(fields[k] == headers@[k]@);
        assert(headers@[k].name@ == "content-type"@);
    }
}

/// Fields before and behind the one that declares a JSON body do not matter.
pub proof fn law_other_fields_do_not_matter(
    before: Seq<(Seq<char>, Seq<u8>, bool)>,
    rest: Seq<u8>,
    sensitive: bool,
    after: Seq<(Seq<char>, Seq<u8>, bool)>,
)
    ensures
        ({
            let field = (
                "content-type"@,
                vstd::utf8::encode_utf8("application/json"@) + rest,
                sensitive,
            );
            let all = before + seq![field] + after;
            declared_type(all, all.len() as int) == ContentType::Json
        }),
{
    let json = vstd::utf8::encode_utf8("application/json"@);
    let field = ("content-type"@, json + rest, sensitive);
    let all = before + seq![field] + after;
    assert(json =~= (json + rest).subrange(0, json.len() as int));
    assert(all[before.len() as int] == field);
    assert(declares_json(all[before.len() as int]));
}

/// What a listener is sent of a body. curl is sent one that is declared to be JSON
/// in colour, or, where it is none after all, as it came; an event stream is sent it
/// behind `data: `, or told that it is not UTF-8; otherwise it is sent as it came.
pub proof fn law_body_is_shown(
    getter: GetterType,
    content_type: ContentType,
    body: &[u8],
    r: Vec<u8>,
)
    requires
        call_ensures(body_chunk, (getter, content_type, body), r),
    ensures
        getter == GetterType::Other || (getter == GetterType::Curl && content_type
            == ContentType::Other) ==> r@ == body@,
        getter == GetterType::EventStream && vstd::utf8::valid_utf8(body@) ==> r@
            == vstd::utf8::encode_utf8("data: "@) + body@,
        getter == GetterType::EventStream && !vstd::utf8::valid_utf8(body@) ==> r@
            == vstd::utf8::encode_utf8("data: {\"error\": \"invalid utf8\"}"@),
        getter == GetterType::Curl && content_type == ContentType::Json ==> match crate::json::parsed_json(
            body@,
        ) {
            None => r@ == body@,
            Some(text) => exists|painting: Seq<bool>|
                match #[trigger] crate::json::colored_json(text, painting) {
                    Some(colored) => r@ == vstd::utf8::encode_utf8(colored),
                    None => match crate::json::pretty_json(text) {
                        Some(pretty) => r@ == vstd::utf8::encode_utf8(pretty),
                        None => r@ == vstd::utf8::encode_utf8(text),
                    },
                },
        },
{
    if getter == GetterType::Curl && content_type == ContentType::Json {
        crate::json::lemma_colored(body@, r@);
    }
}

/// What is sent at each stage of a delivery: the method and the URI in a line; the
/// line of the field whose turn it is; an empty line; the body, by all that the
/// fields that were looked at declare; two line ends; and then nothing.
pub proof fn law_chunk_of_each_stage(
    delivery: Delivery,
    line: Vec<u8>,
    declared: ContentType,
    seen: usize,
    r: Option<Vec<u8>>,
)
    requires
        delivery.wf(),
        call_ensures(Delivery::chunk, (&delivery,), r),
        delivery.stage matches Stage::Header(i) ==> call_ensures(
            show_field,
            (&delivery.entry.headers@[i as int],),
            line,
        ),
        delivery.stage == Stage::Body(seen) ==> call_ensures(
            content_type,
            (&delivery.entry.headers, seen),
            declared,
        ),
    ensures
        delivery.stage is RequestLine ==> (r matches Some(chunk) && chunk@
            == vstd::utf8::encode_utf8(delivery.entry.method@) + vstd::utf8::encode_utf8(" "@)
            + vstd::utf8::encode_utf8(delivery.entry.uri@) + vstd::utf8::encode_utf8("\n"@)),
        delivery.stage is Header ==> (r matches Some(chunk) && chunk@ == line@),
        delivery.stage is Blank ==> (r matches Some(chunk) && chunk@ == vstd::utf8::encode_utf8(
            "\n"@,
        )),
        delivery.stage == Stage::Body(seen) ==> (r matches Some(chunk) && (declared
            == ContentType::Other && delivery.getter != GetterType::EventStream ==> chunk@
            == delivery.entry.body@) && (delivery.getter == GetterType::EventStream
            && vstd::utf8::valid_utf8(delivery.entry.body@) ==> chunk@ == vstd::utf8::encode_utf8(
            "data: "@,
        ) + delivery.entry.body@) && (delivery.getter == GetterType::EventStream
            && !vstd::utf8::valid_utf8(delivery.entry.body@) ==> chunk@ == vstd::utf8::encode_utf8(
            "data: {\"error\": \"invalid utf8\"}"@,
        )) && (delivery.getter == GetterType::Curl && declared == ContentType::Json
            ==> crate::json::colored_body(delivery.entry.body@, chunk@))),
        delivery.stage is Trailer ==> (r matches Some(chunk) && chunk@ == vstd::utf8::encode_utf8(
            "\n\n"@,
        )),
        delivery.stage is Finished || delivery.stage is Stopped <==> r is None,
{
    lemma_request_line_bytes(delivery.entry.method@, delivery.entry.uri@);
    assert(delivery.entry@.fields.len() == delivery.entry.headers@.len());
    if let Stage::Header(i) = delivery.stage {
        assert(delivery.entry@.fields[i as int] == delivery.entry.headers@[i as int]@);
    }
}

proof fn lemma_request_line_bytes(method: Seq<char>, uri: Seq<char>)
    ensures
        vstd::utf8::encode_utf8(request_line(method, uri)) == vstd::utf8::encode_utf8(method)
            + vstd::utf8::encode_utf8(" "@) + vstd::utf8::encode_utf8(uri)
            + vstd::utf8::encode_utf8("\n"@),
{
    crate::text::lemma_encode_utf8_concat(method, " "@);
    crate::text::lemma_encode_utf8_concat(method + " "@, uri);
    crate::text::lemma_encode_utf8_concat(method + " "@ + uri, "\n"@);
}

/// How a delivery goes on. Nothing of what is delivered, nor to whom, ever changes.
/// When its chunk was sent, the request line is followed, for curl, by the first
/// field, each field by the next, the last of them by the empty line, this by the
/// body with all that was looked at, and the body by the line ends. Where a field
/// could not be sent, no further field is looked at; where anything else could not
/// be sent, the delivery is over.
pub proof fn law_delivery_goes_on(delivery: &mut Delivery, sent: bool)
    requires
        old(delivery).wf(),
        old(delivery).entry.headers@.len() <= usize::MAX,
        call_ensures(Delivery::advance, (delivery, sent), ()),
    ensures
        final(delivery).entry == old(delivery).entry,
        final(delivery).getter == old(delivery).getter,
        ({
            let count = old(delivery).entry.headers@.len();
            let curl = old(delivery).getter == GetterType::Curl;
            let next = final(delivery).stage;
            match old(delivery).stage {
                Stage::RequestLine => {
                    &&& sent && curl && count > 0 ==> next == Stage::Header(0)
                    &&& sent && !(curl && count > 0) ==> next == Stage::Blank(count as usize)
                    &&& !sent ==> next == Stage::Stopped
                },
                Stage::Header(k) => {
                    &&& sent && k + 1 < count ==> next == Stage::Header((k + 1) as usize)
                    &&& sent && k + 1 == count ==> next == Stage::Blank(count as usize)
                    &&& !sent ==> next == Stage::Blank((k + 1) as usize)
                },
                Stage::Blank(seen) => next == if sent {
                    Stage::Body(seen)
                } else {
                    Stage::Stopped
                },
                Stage::Body(_) => next == if sent {
                    Stage::Trailer
                } else {
                    Stage::Stopped
                },
                Stage::Trailer => next == if sent {
                    Stage::Finished
                } else {
                    Stage::Stopped
                },
                Stage::Finished => next == Stage::Finished,
                Stage::Stopped => next == Stage::Stopped,
            }
        }),
{
}

/// A delivery starts with the request line of what is delivered.
pub proof fn law_delivery_starts_at_the_start(entry: PipeEntry, getter: GetterType, r: Delivery)
    requires
        call_ensures(Delivery::new, (entry, getter), r),
    ensures
        r.entry == entry,
        r.getter == getter,
        r.stage == Stage::RequestLine,
{
}

/// The stages of a delivery when everything is sent: after `n` chunks, curl is at
/// field `n - 1` as long as there are fields, whatever their number; and the last
/// three chunks are the empty line, the body with all fields looked at, and the line
/// ends.
pub proof fn law_every_field_has_its_turn(getter: GetterType, count: usize, sent: Seq<bool>)
    requires
        forall|k: int| 0 <= k < sent.len() ==> #[trigger] sent[k],
    ensures
        ({
            let fields = if getter == GetterType::Curl {
                count as int
            } else {
                0
            };
            let n = sent.len();
            let stage = stage_after(getter, count, sent);
            &&& n == 0 ==> stage == Stage::RequestLine
            &&& 1 <= n <= fields ==> stage == Stage::Header((n - 1) as usize)
            &&& n == fields + 1 ==> stage == Stage::Blank(count)
            &&& n == fields + 2 ==> stage == Stage::Body(count)
            &&& n == fields + 3 ==> stage == Stage::Trailer
            &&& n >= fields + 4 ==> stage == Stage::Finished
        }),
    decreases sent.len(),
{
    if sent.len() > 0 {
        let init = sent.drop_last();
        assert forall|k: int| 0 <= k < init.len() implies #[trigger] init[k] by {
            assert(sent[k]);
        }
        law_every_field_has_its_turn(getter, count, init);
        assert(sent[sent.len() - 1]);
    }
}

/// What curl reads of a request whose fields can be shown and declare no JSON: the
/// method, the URI, each field with its name and its whole value, and the body,
/// every byte of them, and nothing else.
pub proof fn law_curl_reads_every_byte(
    entry: crate::entry::EntryView,
    sent: Seq<bool>,
    chunks: Seq<Seq<u8>>,
)
    requires
        entry.fields.len() <= usize::MAX,
        forall|i: int| 0 <= i < entry.fields.len() ==> can_be_shown(#[trigger] entry.fields[i].1),
        forall|i: int|
            0 <= i < entry.fields.len() && (#[trigger] entry.fields[i]).0 == "content-type"@
                ==> !vstd::utf8::encode_utf8("application/json"@).is_prefix_of(entry.fields[i].1),
        chunks.len() == sent.len(),
        forall|k: int| 0 <= k < sent.len() ==> sent[k],
        forall|k: int|
            0 <= k < chunks.len() ==> is_chunk(
                entry,
                GetterType::Curl,
                stage_after(GetterType::Curl, entry.fields.len() as usize, sent.take(k)),
                #[trigger] chunks[k],
            ),
        stage_after(GetterType::Curl, entry.fields.len() as usize, sent) is Finished,
    ensures
        chunks.flatten() == vstd::utf8::encode_utf8(entry.method) + vstd::utf8::encode_utf8(" "@)
            + vstd::utf8::encode_utf8(entry.uri) + vstd::utf8::encode_utf8("\n"@) + Seq::new(
            entry.fields.len(),
            |i: int|
                vstd::utf8::encode_utf8(entry.fields[i].0) + vstd::utf8::encode_utf8(": "@)
                    + entry.fields[i].1 + vstd::utf8::encode_utf8("\n"@),
        ).flatten() + vstd::utf8::encode_utf8("\n"@) + entry.body + vstd::utf8::encode_utf8("\n\n"@),
{
    law_request_is_streamed(entry, GetterType::Curl, sent, chunks);
    crate::text::law_joined_is_flattened(chunks);
    lemma_request_line_bytes(entry.method, entry.uri);
    lemma_header_lines_bytes(entry.fields);
    let lines = Seq::new(
        entry.fields.len(),
        |i: int|
            vstd::utf8::encode_utf8(entry.fields[i].0) + vstd::utf8::encode_utf8(": "@)
                + entry.fields[i].1 + vstd::utf8::encode_utf8("\n"@),
    );
    assert(lines =~= Seq::new(
        entry.fields.len(),
        |i: int| field_line(entry.fields[i].0, entry.fields[i].1),
    ));
}

proof fn lemma_header_lines_bytes(fields: Seq<(Seq<char>, Seq<u8>, bool)>)
    requires
        forall|i: int| 0 <= i < fields.len() ==> can_be_shown(#[trigger] fields[i].1),
    ensures
        header_lines(fields) == Seq::new(
            fields.len(),
            |i: int| field_line(fields[i].0, fields[i].1),
        ).flatten(),
    decreases fields.len(),
{
    let lines = Seq::new(fields.len(), |i: int| field_line(fields[i].0, fields[i].1));
    lines.lemma_flatten_and_flatten_alt_are_equivalent();
    if fields.len() > 0 {
        let init = fields.drop_last();
        assert forall|i: int| 0 <= i < init.len() implies can_be_shown(#[trigger] init[i].1) by {
            assert(can_be_shown(fields[i].1));
        }
        lemma_header_lines_bytes(init);
        let fewer = Seq::new(init.len(), |i: int| field_line(init[i].0, init[i].1));
        fewer.lemma_flatten_and_flatten_alt_are_equivalent();
        assert(lines.drop_last() =~= fewer);
        assert(can_be_shown(fields[fields.len() - 1].1));
        lemma_header_line_bytes(fields.last());
    }
}

/// Who gets a path with curl, or as an event stream, is found on it behind all who
/// were there, and no other path is touched. The answer is a success, opened to the
/// origin where there is one; an event stream is told what it is.
pub proof fn law_who_gets_a_path_listens<S>(
    pipes: &mut Pipes<S>,
    id: u128,
    request: Request,
    getter: GetterType,
    sender: S,
    path: &str,
    i: int,
    before: Option<&crate::pipes::Pipe<S>>,
    after: Option<&crate::pipes::Pipe<S>>,
    other: &str,
    other_before: Option<&crate::pipes::Pipe<S>>,
    other_after: Option<&crate::pipes::Pipe<S>>,
    r: Head,
)
    requires
        path@ == request.path@,
        call_ensures(Pipes::<S>::get, (old(pipes), path), before),
        call_ensures(Pipes::<S>::get, (old(pipes), other), other_before),
        call_ensures(serve_get::<S>, (pipes, id, &request, getter, sender), r),
        call_ensures(Pipes::<S>::get, (final(pipes), path), after),
        call_ensures(Pipes::<S>::get, (final(pipes), other), other_after),
    ensures
        after matches Some(pipe) && match before {
            Some(was) => pipe.id == was.id && pipe.senders@ == was.senders@ + seq![sender],
            None => pipe.id == id && pipe.senders@ == seq![sender],
        },
        other@ != path@ ==> match other_before {
            Some(was) => other_after matches Some(now) && now.id == was.id && now.senders@
                == was.senders@,
            None => other_after is None,
        },
        r.status == 200,
        ({
            let fields = crate::headers::header_fields(request.headers);
            let n = r.headers@.len() - if getter == GetterType::EventStream {
                2
            } else {
                0int
            };
            &&& crate::headers::is_absent(fields, "origin"@) ==> n == 0
            &&& crate::headers::is_first(fields, i, "origin"@) ==> n == 3
                && crate::reply::opened_to(r.headers@, 0, fields[i])
            &&& getter == GetterType::EventStream ==> n >= 0 && crate::reply::field_is(
                r.headers@[n],
                "content-type"@,
                vstd::utf8::encode_utf8("text/event-stream"@),
                false,
            ) && crate::reply::field_is(
                r.headers@[n + 1],
                "content-type"@,
                vstd::utf8::encode_utf8("cache-control: no-store"@),
                false,
            )
        }),
{
    if let Some(was) = before {
        assert(was@.senders.push(sender) =~= was.senders@ + seq![sender]);
    }
    let fields = crate::headers::header_fields(request.headers);
    crate::headers::lemma_first_field(fields, i, "origin"@);
    let o = crate::headers::lemma_first_or_absent(fields, "origin"@);
    crate::headers::lemma_first_field(fields, o, "origin"@);
    let shown = r@.fields;
    assert(shown.len() == r.headers@.len());
    assert(forall|k: int| 0 <= k < shown.len() ==> #[trigger] shown[k] == r.headers@[k]@);
    if crate::headers::is_first(fields, i, "origin"@) {
        assert(shown[0] == r.headers@[0]@);
        assert(shown[1] == r.headers@[1]@);
        assert(shown[2] == r.headers@[2]@);
    }
    if getter == GetterType::EventStream {
        let n = shown.len() - 2;
        assert(shown[n] == r.headers@[n]@);
        assert(shown[n + 1] == r.headers@[n + 1]@);
    }
}

/// What an event stream reads of a request: the method, the URI, and every byte of
/// the body behind `data: `, or that it is not UTF-8; none of the fields.
pub proof fn law_event_stream_reads_every_byte(
    entry: crate::entry::EntryView,
    sent: Seq<bool>,
    chunks: Seq<Seq<u8>>,
)
    requires
        entry.fields.len() <= usize::MAX,
        chunks.len() == sent.len(),
        forall|k: int| 0 <= k < sent.len() ==> sent[k],
        forall|k: int|
            0 <= k < chunks.len() ==> is_chunk(
                entry,
                GetterType::EventStream,
                stage_after(GetterType::EventStream, entry.fields.len() as usize, sent.take(k)),
                #[trigger] chunks[k],
            ),
        stage_after(GetterType::EventStream, entry.fields.len() as usize, sent) is Finished,
    ensures
        ({
            let data = if vstd::utf8::valid_utf8(entry.body) {
                vstd::utf8::encode_utf8("data: "@) + entry.body
            } else {
                vstd::utf8::encode_utf8("data: {\"error\": \"invalid utf8\"}"@)
            };
            chunks.flatten() == vstd::utf8::encode_utf8(entry.method) + vstd::utf8::encode_utf8(
                " "@,
            ) + vstd::utf8::encode_utf8(entry.uri) + vstd::utf8::encode_utf8("\n"@)
                + vstd::utf8::encode_utf8("\n"@) + data + vstd::utf8::encode_utf8("\n\n"@)
        }),
{
    law_request_is_streamed(entry, GetterType::EventStream, sent, chunks);
    crate::text::law_joined_is_flattened(chunks);
    lemma_request_line_bytes(entry.method, entry.uri);
    let line = vstd::utf8::encode_utf8(request_line(entry.method, entry.uri));
    assert(line + header_lines(seq![]) =~= line);
}

} // verus!
