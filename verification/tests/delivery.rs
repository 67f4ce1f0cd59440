use hook::entry::PipeEntry;
use hook::headers::HeaderField;
use hook::json::{choose_rendering, color_body, json_chunk};
use hook::request::GetterType;
use hook::session::Session;
use hook::stream::{body_chunk, content_type, greeting, show_field, ContentType, Delivery, Stage};
use hyper::header::HeaderValue;

fn field(name: &str, value: &[u8]) -> HeaderField {
    HeaderField { name: name.to_string(), value: HeaderValue::from_bytes(value).unwrap() }
}

fn entry(fields: Vec<HeaderField>, body: &[u8]) -> PipeEntry {
    PipeEntry {
        uri: "/my/hook?x=1".to_string(),
        method: "POST".to_string(),
        headers: fields,
        body: body.to_vec(),
    }
}

/// The chunks of a delivery to a listener that misses those that `missed` lists.
fn chunks(entry: PipeEntry, getter: GetterType, missed: &[usize]) -> (Vec<Vec<u8>>, bool) {
    let mut delivery = Delivery::new(entry, getter);
    let mut sent = Vec::new();
    while let Some(chunk) = delivery.chunk() {
        let ok = !missed.contains(&sent.len());
        sent.push(chunk);
        delivery.advance(ok);
    }
    (sent, delivery.stage == Stage::Stopped)
}

#[test]
fn greeting_shows_the_address() {
    assert_eq!(
        greeting("http://localhost:3005", "/my/hook"),
        b"Your URL is http://localhost:3005/my/hook\ncurl -d \"Hello World!\" http://localhost:3005/my/hook\n\n"
    );
}

#[test]
fn curl_is_sent_everything() {
    let (sent, stopped) = chunks(
        entry(vec![field("host", b"h"), field("x-name", b"J\xf6rg \"x\"")], b"hello=world"),
        GetterType::Curl,
        &[],
    );
    assert!(!stopped);
    assert_eq!(
        sent,
        vec![
            b"POST /my/hook?x=1\n".to_vec(),
            b"host: h\n".to_vec(),
            b"x-name: \"J\\xf6rg \\\"x\\\"\"\n".to_vec(),
            b"\n".to_vec(),
            b"hello=world".to_vec(),
            b"\n\n".to_vec(),
        ]
    );
}

#[test]
fn event_stream_is_sent_data() {
    let (sent, stopped) =
        chunks(entry(vec![field("host", b"h")], "h\u{e9}".as_bytes()), GetterType::EventStream, &[]);
    assert!(!stopped);
    assert_eq!(
        sent,
        vec![
            b"POST /my/hook?x=1\n".to_vec(),
            b"\n".to_vec(),
            "data: h\u{e9}".as_bytes().to_vec(),
            b"\n\n".to_vec(),
        ]
    );
}

#[test]
fn event_stream_is_told_of_invalid_utf8() {
    assert_eq!(
        body_chunk(GetterType::EventStream, ContentType::Json, b"\xff"),
        b"data: {\"error\": \"invalid utf8\"}"
    );
}

#[test]
fn entry_without_fields_goes_on_to_the_body() {
    let (sent, _) = chunks(entry(vec![], b""), GetterType::Curl, &[]);
    assert_eq!(sent.len(), 4);
    assert_eq!(sent[2], b"");
}

#[test]
fn delivery_stops_at_the_first_line() {
    let (sent, stopped) = chunks(entry(vec![field("a", b"1")], b"x"), GetterType::Curl, &[0]);
    assert!(stopped);
    assert_eq!(sent.len(), 1);
}

#[test]
fn missed_field_ends_the_fields_only() {
    let json = b"{}";
    let fields = vec![
        field("a", b"1"),
        field("content-type", b"application/json; charset=utf-8"),
        field("b", b"2"),
    ];
    let (sent, stopped) = chunks(entry(fields.clone(), json), GetterType::Curl, &[1]);
    assert!(!stopped);
    assert_eq!(sent.len(), 5);
    assert_eq!(sent[2], b"\n");
    assert_eq!(sent[3], json);
    let (sent, _) = chunks(entry(fields, json), GetterType::Curl, &[2]);
    assert_eq!(sent.len(), 6);
    assert_eq!(sent[4], color_body(json));
    assert_ne!(sent[4], json);
}

#[test]
fn gone_listener_is_given_up_after_a_field() {
    let (sent, stopped) =
        chunks(entry(vec![field("a", b"1"), field("b", b"2")], b"x"), GetterType::Curl, &[1, 2]);
    assert!(stopped);
    assert_eq!(sent.len(), 3);
    for missed in 3..6 {
        let (sent, stopped) =
            chunks(entry(vec![field("a", b"1"), field("b", b"2")], b"x"), GetterType::Curl, &[missed]);
        assert!(stopped);
        assert_eq!(sent.len(), missed + 1);
    }
}

#[test]
fn finished_delivery_stays_finished() {
    let mut delivery = Delivery::new(entry(vec![], b""), GetterType::Other);
    for _ in 0..4 {
        delivery.advance(true);
    }
    assert_eq!(delivery.stage, Stage::Finished);
    delivery.advance(false);
    assert_eq!(delivery.stage, Stage::Finished);
    assert!(delivery.chunk().is_none());
}

#[test]
fn content_type_is_told_by_its_start() {
    let json = vec![field("x", b"application/json"), field("content-type", b"application/json")];
    assert_eq!(content_type(&json, 2), ContentType::Json);
    assert_eq!(content_type(&json, 1), ContentType::Other);
    assert_eq!(content_type(&json, 9), ContentType::Json);
    let twice = vec![field("content-type", b"application/json+x"), field("content-type", b"text/plain")];
    assert_eq!(content_type(&twice, 2), ContentType::Json);
    assert_eq!(content_type(&vec![field("content-type", b"Application/json")], 1), ContentType::Other);
}

#[test]
fn field_lines_show_values() {
    assert_eq!(show_field(&field("a", b"b\tc")), b"a: b\tc\n");
    assert_eq!(show_field(&field("a", b"")), b"a: \n");
    assert_eq!(show_field(&field("a", b"\x80\xff")), b"a: \"\\x80\\xff\"\n");
    let mut secret = field("a", b"b");
    secret.value.set_sensitive(true);
    assert_eq!(show_field(&secret), b"a: b\n");
    let mut opaque = field("a", b"\x80");
    opaque.value.set_sensitive(true);
    assert_eq!(show_field(&opaque), b"a: Sensitive\n");
}

#[test]
fn json_is_colored() {
    assert_eq!(
        color_body(b" {\"a\" :1} "),
        b"\x1b[1m{\x1b[0m\n  \x1b[1;34m\"\x1b[0m\x1b[1;34ma\x1b[0m\x1b[1;34m\"\x1b[0m: 1\x1b[1m\n}\x1b[0m"
    );
    assert_eq!(
        body_chunk(GetterType::Curl, ContentType::Json, b"[]"),
        b"\x1b[1m[\x1b[0m\x1b[1m]\x1b[0m"
    );
}

#[test]
fn body_that_is_not_json_is_sent_as_it_is() {
    assert_eq!(color_body(b"{\"a\": "), b"{\"a\": ");
    assert_eq!(body_chunk(GetterType::Curl, ContentType::Other, b"{}"), b"{}");
    assert_eq!(body_chunk(GetterType::Other, ContentType::Json, b"{}"), b"{}");
}

#[test]
fn rendering_falls_back() {
    let text = |s: &str| Some(s.to_string());
    assert_eq!(choose_rendering(text("c"), text("p"), text("t")), "c");
    assert_eq!(choose_rendering(None, text("p"), text("t")), "p");
    assert_eq!(choose_rendering(None, None, text("t")), "t");
    assert_eq!(json_chunk(b"body", text("\u{e9}")), "\u{e9}".as_bytes());
    assert_eq!(json_chunk(b"body", None), b"body");
}

#[test]
fn request_is_streamed_whole() {
    let fields = vec![field("host", b"h"), field("x", b"1")];
    let (sent, _) = chunks(entry(fields, b"hello=world"), GetterType::Curl, &[]);
    assert_eq!(sent.concat(), b"POST /my/hook?x=1\nhost: h\nx: 1\n\nhello=world\n\n");
}

/// What a listener reads that takes every chunk that is there.
fn read_all(session: &mut Session) -> Vec<u8> {
    let mut read = Vec::new();
    while let Some(chunk) = session.chunk() {
        read.extend(chunk);
        session.advance(true);
    }
    read
}

#[test]
fn listener_reads_the_greeting_and_then_each_request() {
    let mut session = Session::new("http://h", "/a", GetterType::Curl);
    assert!(!session.waiting());
    assert_eq!(read_all(&mut session), greeting("http://h", "/a"));
    assert!(session.waiting());
    assert!(session.chunk().is_none());

    let delete = PipeEntry {
        uri: "/a".to_string(),
        method: "DELETE".to_string(),
        headers: vec![],
        body: vec![],
    };
    session.start(delete.clone());
    assert!(!session.waiting());
    assert_eq!(read_all(&mut session), b"DELETE /a\n\n\n\n");
    assert!(session.waiting());
    session.start(entry(vec![field("a", b"1")], b"x"));
    assert_eq!(read_all(&mut session), b"POST /my/hook?x=1\na: 1\n\nx\n\n");
    session.start(delete);
    assert_eq!(read_all(&mut session), b"DELETE /a\n\n\n\n");
}

#[test]
fn session_ends_with_its_listener() {
    let mut session = Session::new("http://h", "/a", GetterType::EventStream);
    session.advance(false);
    assert!(session.waiting());
    session.start(entry(vec![], b"x"));
    session.advance(false);
    assert!(!session.waiting());
    assert!(session.chunk().is_none());
    session.advance(true);
    assert!(!session.waiting());
}
