use hook::entry::PipeEntry;
use hook::pipes::{any_missed, count_reached, reached_within, Pipes};
use hook::post::{BodyAction, BodyEvent, DeliveredAction, Post};
use hook::reply::Reply;
use hook::request::{GetterType, Request};
use hook::stream::serve_get;
use hyper::header::{HeaderMap, HeaderName, HeaderValue};

fn request(method: &str, path: &str, fields: &[(&'static str, &'static str)]) -> Request {
    let mut headers = HeaderMap::new();
    for (name, value) in fields {
        headers.append(HeaderName::from_static(name), HeaderValue::from_static(value));
    }
    Request {
        method: method.to_string(),
        uri: format!("{path}?q=1"),
        path: path.to_string(),
        target: Some(format!("{path}?q=1")),
        headers,
    }
}

fn fields(reply: &Reply) -> Vec<(String, Vec<u8>)> {
    reply.head.headers.iter().map(|f| (f.name.clone(), f.value.as_bytes().to_vec())).collect()
}

fn received(n: &str) -> Vec<(String, Vec<u8>)> {
    vec![("snd-received".to_string(), n.as_bytes().to_vec())]
}

fn three_listeners() -> Pipes<u32> {
    let mut pipes: Pipes<u32> = Pipes::new();
    pipes.attach(7, "/a", 1);
    pipes.attach(8, "/b", 10);
    pipes.attach(9, "/a", 2);
    pipes.attach(10, "/a", 3);
    pipes
}

fn posted(pipes: &Pipes<u32>, path: &str, delivered: &[bool]) -> Post {
    let mut post = Post::open(pipes, request("POST", path, &[])).ok().unwrap();
    for d in delivered {
        post.record(*d);
    }
    post
}

#[test]
fn listeners_of_a_path_keep_their_order() {
    let pipes = three_listeners();
    let a = pipes.get("/a").unwrap();
    assert_eq!(a.senders, vec![1, 2, 3]);
    assert_eq!(a.id, 7);
    assert_eq!(a.path, "/a");
    assert_eq!(pipes.get("/b").unwrap().senders, vec![10]);
    assert!(pipes.get("/c").is_none());
    assert_eq!(pipes.counter(), 0);
}

#[test]
fn pruning_keeps_those_that_were_reached() {
    let mut pipes = three_listeners();
    pipes.prune("/a", &vec![true, false, true]);
    assert_eq!(pipes.get("/a").unwrap().senders, vec![1, 3]);
    assert_eq!(pipes.get("/a").unwrap().id, 7);
    assert_eq!(pipes.get("/b").unwrap().senders, vec![10]);
    assert_eq!(pipes.counter(), 1);
}

#[test]
fn pruning_forgets_a_path_where_nobody_was_reached() {
    let mut pipes = three_listeners();
    pipes.attach(11, "/c", 20);
    pipes.prune("/a", &vec![false, false, false]);
    assert!(pipes.get("/a").is_none());
    assert_eq!(pipes.get("/b").unwrap().senders, vec![10]);
    assert_eq!(pipes.get("/c").unwrap().senders, vec![20]);
    pipes.attach(12, "/a", 4);
    assert_eq!(pipes.get("/a").unwrap().senders, vec![4]);
    assert_eq!(pipes.get("/a").unwrap().id, 12);
    assert_eq!(pipes.get("/c").unwrap().path, "/c");
}

#[test]
fn pruning_keeps_listeners_that_joined_meanwhile() {
    let mut pipes = three_listeners();
    pipes.prune("/a", &vec![false, true]);
    assert_eq!(pipes.get("/a").unwrap().senders, vec![2, 3]);
    pipes.prune("/a", &vec![false]);
    assert_eq!(pipes.get("/a").unwrap().senders, vec![3]);
    assert_eq!(pipes.get("/a").unwrap().id, 7);
    pipes.prune("/a", &vec![false, false]);
    assert!(pipes.get("/a").is_none());
}

#[test]
fn listener_that_joins_before_the_removal_is_sent_the_next_request() {
    let mut pipes: Pipes<u32> = Pipes::new();
    serve_get(&mut pipes, 1, &request("GET", "/p", &[]), GetterType::Curl, 5);
    let post = posted(&pipes, "/p", &[false]);
    serve_get(&mut pipes, 2, &request("GET", "/p", &[]), GetterType::Curl, 6);
    assert!(post.check_prune(&pipes));
    assert_eq!(fields(&post.prune(&mut pipes)), received("0"));
    let next = posted(&pipes, "/p", &[]);
    assert_eq!(next.next(&pipes), Some(&6));
}

#[test]
fn nothing_is_replayed_to_a_new_listener() {
    let mut pipes = three_listeners();
    let mut post = posted(&pipes, "/a", &[]);
    while let Some(sender) = post.next(&pipes) {
        assert_ne!(*sender, 4);
        post.record(true);
    }
    pipes.attach(11, "/a", 4);
    assert_eq!(posted(&pipes, "/a", &[true, true, true]).next(&pipes), Some(&4));
}

#[test]
fn deliveries_are_counted() {
    assert_eq!(count_reached(&vec![true, false, true, true]), 3);
    assert_eq!(count_reached(&vec![]), 0);
    assert!(any_missed(&vec![true, false]));
    assert!(!any_missed(&vec![true, true]));
    assert!(!any_missed(&vec![]));
    assert!(reached_within(&vec![true, false], 1));
    assert!(!reached_within(&vec![true, true], 1));
}

#[test]
fn post_without_listeners_is_answered_empty() {
    let pipes = three_listeners();
    let reply = Post::open(&pipes, request("POST", "/nobody", &[("origin", "https://x.test")])).err().unwrap();
    assert_eq!(reply.head.status, 200);
    assert_eq!(
        fields(&reply),
        vec![
            ("access-control-allow-origin".to_string(), b"https://x.test".to_vec()),
            ("access-control-allow-headers".to_string(), b"snd-received, content-type".to_vec()),
            ("vary".to_string(), b"Origin".to_vec()),
        ]
    );
    assert!(reply.body.is_empty());
}

#[test]
fn post_collects_its_body_in_order() {
    let pipes = three_listeners();
    let mut post = Post::open(&pipes, request("PUT", "/a", &[("x-one", "1"), ("x-two", "2")])).ok().unwrap();
    assert!(matches!(post.receive(BodyEvent::Chunk(b"hello ".to_vec())), BodyAction::Receive));
    assert!(matches!(post.receive(BodyEvent::Chunk(b"world".to_vec())), BodyAction::Receive));
    match post.receive(BodyEvent::End) {
        BodyAction::Deliver(entry) => {
            assert_eq!(entry.method, "PUT");
            assert_eq!(entry.uri, "/a?q=1");
            assert_eq!(entry.body, b"hello world");
            assert_eq!(entry.headers.len(), 2);
            assert_eq!(entry.headers[0].name, "x-one");
            assert_eq!(entry.headers[0].value, "1");
            assert_eq!(entry.headers[1].name, "x-two");
            assert_eq!(entry.headers[1].value, "2");
        }
        _ => panic!("expected an entry"),
    }
}

#[test]
fn post_whose_body_breaks_off_is_answered_empty() {
    let pipes = three_listeners();
    let mut post = Post::open(&pipes, request("POST", "/a", &[])).ok().unwrap();
    post.receive(BodyEvent::Chunk(b"hel".to_vec()));
    match post.receive(BodyEvent::Failed) {
        BodyAction::Answer(reply) => {
            assert_eq!(reply.head.status, 200);
            assert!(fields(&reply).is_empty());
        }
        _ => panic!("expected an answer"),
    }
}

#[test]
fn post_says_how_many_received_it() {
    let pipes = three_listeners();
    match posted(&pipes, "/a", &[true, true, true]).finish() {
        DeliveredAction::Answer(reply) => {
            assert_eq!(reply.head.status, 200);
            assert_eq!(fields(&reply), received("3"));
            assert!(reply.body.is_empty());
        }
        DeliveredAction::Prune => panic!("nobody was missed"),
    }
}

#[test]
fn post_says_large_numbers_in_decimal() {
    let mut headers: HeaderMap = HeaderMap::new();
    headers.insert("x", HeaderValue::from_static("y"));
    let reply = hook::reply::received_response(&headers, 1_234_567_890);
    assert_eq!(fields(&reply), received("1234567890"));
    assert_eq!(fields(&hook::reply::received_response(&headers, 0)), received("0"));
    assert_eq!(fields(&hook::reply::received_response(&headers, 100)), received("100"));
}

#[test]
fn post_prunes_who_was_missed() {
    let mut pipes = three_listeners();
    let post = posted(&pipes, "/a", &[false, true, true]);
    assert!(matches!(post.finish(), DeliveredAction::Prune));
    assert!(post.check_prune(&pipes));
    let reply = post.prune(&mut pipes);
    assert_eq!(fields(&reply), received("2"));
    assert_eq!(pipes.get("/a").unwrap().senders, vec![2, 3]);
    assert_eq!(pipes.counter(), 1);
}

#[test]
fn post_that_reached_nobody_forgets_the_path() {
    let mut pipes = three_listeners();
    let post = posted(&pipes, "/b", &[false]);
    let reply = post.prune(&mut pipes);
    assert_eq!(fields(&reply), received("0"));
    assert!(pipes.get("/b").is_none());
    assert!(Post::open(&pipes, request("POST", "/b", &[])).is_err());
}

#[test]
fn post_overtaken_by_another_removal_changes_nothing() {
    let mut pipes = three_listeners();
    let post = posted(&pipes, "/a", &[false, true, true]);
    pipes.prune("/b", &vec![false]);
    assert!(post.check_prune(&pipes));
    let reply = post.prune(&mut pipes);
    assert!(fields(&reply).is_empty());
    assert_eq!(pipes.get("/a").unwrap().senders, vec![1, 2, 3]);
    assert_eq!(pipes.counter(), 1);
}

#[test]
fn post_on_a_path_that_is_gone_is_answered_empty() {
    let mut pipes = three_listeners();
    let mut post = posted(&pipes, "/b", &[true, false]);
    post.request.path = "/gone".to_string();
    let reply = post.prune(&mut pipes);
    assert!(fields(&reply).is_empty());
    assert_eq!(pipes.counter(), 1);
    assert_eq!(pipes.get("/b").unwrap().senders, vec![10]);
}

#[test]
fn post_that_reached_more_than_are_there_cannot_prune() {
    let pipes = three_listeners();
    let post = posted(&pipes, "/b", &[false, true]);
    assert!(!post.check_prune(&pipes));
}

#[test]
fn listener_joins_behind_the_others() {
    let mut pipes = three_listeners();
    let head = serve_get(&mut pipes, 99, &request("GET", "/a", &[]), GetterType::Curl, 4);
    assert_eq!(pipes.get("/a").unwrap().senders, vec![1, 2, 3, 4]);
    assert_eq!(pipes.get("/a").unwrap().id, 7);
    assert_eq!(head.status, 200);
    assert!(head.headers.is_empty());
}

#[test]
fn event_stream_listener_is_told_its_type() {
    let mut pipes: Pipes<u32> = Pipes::new();
    let head = serve_get(
        &mut pipes,
        99,
        &request("GET", "/e", &[("origin", "null")]),
        GetterType::EventStream,
        4,
    );
    assert_eq!(pipes.get("/e").unwrap().id, 99);
    let names: Vec<&str> = head.headers.iter().map(|f| f.name.as_str()).collect();
    assert_eq!(
        names,
        vec![
            "access-control-allow-origin",
            "access-control-allow-headers",
            "vary",
            "content-type",
            "content-type",
        ]
    );
    assert_eq!(head.headers[0].value, "null");
    assert_eq!(head.headers[3].value, "text/event-stream");
    assert_eq!(head.headers[4].value, "cache-control: no-store");
}

#[test]
fn listener_gets_a_later_request_to_its_path() {
    let mut pipes: Pipes<u32> = Pipes::new();
    serve_get(&mut pipes, 1, &request("GET", "/my/hook", &[]), GetterType::Curl, 5);
    serve_get(&mut pipes, 2, &request("GET", "/other", &[]), GetterType::Curl, 6);
    assert!(Post::open(&pipes, request("POST", "/my/hook", &[])).is_ok());
    assert!(pipes.get("/my/hook").unwrap().senders.contains(&5));
}

#[test]
fn entry_keeps_repeated_fields() {
    let entry = PipeEntry::new(&request("POST", "/a", &[("x", "1"), ("y", "2"), ("x", "3")]), b"b");
    let shown: Vec<(String, Vec<u8>)> =
        entry.headers.iter().map(|f| (f.name.clone(), f.value.as_bytes().to_vec())).collect();
    assert_eq!(
        shown,
        vec![
            ("x".to_string(), b"1".to_vec()),
            ("x".to_string(), b"3".to_vec()),
            ("y".to_string(), b"2".to_vec()),
        ]
    );
}

#[test]
fn every_listener_has_its_turn() {
    let pipes = three_listeners();
    let mut post = posted(&pipes, "/a", &[]);
    let mut sent = Vec::new();
    while let Some(sender) = post.next(&pipes) {
        sent.push(*sender);
        post.record(true);
    }
    assert_eq!(sent, vec![1, 2, 3]);
    assert_eq!(post.delivered, vec![true, true, true]);
    post.request.path = "/nobody".to_string();
    post.delivered.clear();
    assert!(post.next(&pipes).is_none());
}
