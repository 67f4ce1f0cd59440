//! What one listener reads: the greeting, and then each request in turn.

use crate::entry::PipeEntry;
use crate::request::GetterType;
use crate::stream::{greeting, Delivery, Stage};
use vstd::prelude::*;

verus! {

/// The connection to one listener.
pub struct Session {
    host: String,
    path: String,
    getter: GetterType,
    greeted: bool,
    delivery: Option<Delivery>,
}

/// What goes on in a connection to a listener.
pub enum Phase {
    /// The greeting is next.
    Greeting,
    /// Nothing is to be sent until there is a request.
    Waiting,
    /// This request is being delivered, and has come this far.
    Delivering(crate::entry::EntryView, Stage),
    /// The listener has gone.
    Closed,
}

/// What a connection to a listener holds.
pub struct SessionView {
    pub host: Seq<char>,
    pub path: Seq<char>,
    pub getter: GetterType,
    pub phase: Phase,
}

/// The phase when a delivery has come to a stage.
pub open spec fn phase_at(entry: crate::entry::EntryView, stage: Stage) -> Phase {
    match stage {
        Stage::Finished => Phase::Waiting,
        Stage::Stopped => Phase::Closed,
        _ => Phase::Delivering(entry, stage),
    }
}

/// The chunks that may be sent in a phase to a listener on `path` at `host`.
pub open spec fn is_session_chunk(
    host: Seq<char>,
    path: Seq<char>,
    getter: GetterType,
    phase: Phase,
    chunk: Seq<u8>,
) -> bool {
    match phase {
        Phase::Greeting => chunk == vstd::utf8::encode_utf8(
            crate::stream::greeting_text(host, path),
        ),
        Phase::Delivering(entry, stage) => crate::stream::is_chunk(entry, getter, stage, chunk),
        _ => false,
    }
}

/// The phase that follows when the chunk of a phase was sent, or could not be. A
/// greeting that could not be sent changes nothing.
pub open spec fn after_chunk(phase: Phase, getter: GetterType, sent: bool) -> Phase {
    match phase {
        Phase::Greeting => Phase::Waiting,
        Phase::Delivering(entry, stage) => phase_at(
            entry,
            crate::stream::next_stage(stage, getter, entry.fields.len() as usize, sent),
        ),
        _ => phase,
    }
}

impl View for Session {
    type V = SessionView;

    closed spec fn view(&self) -> SessionView {
        SessionView {
            host: self.host@,
            path: self.path@,
            getter: self.getter,
            phase: if !self.greeted {
                Phase::Greeting
            } else {
                match self.delivery {
                    Some(delivery) => phase_at(delivery.entry@, delivery.stage),
                    None => Phase::Waiting,
                }
            },
        }
    }
}

impl Session {
    /// What is being delivered is delivered to this listener.
    pub closed spec fn wf(&self) -> bool {
        self.delivery matches Some(delivery) ==> delivery.wf() && delivery.getter == self.getter
    }

    /// The connection to a listener on `path` at `host`, before the greeting.
    pub fn new(host: &str, path: &str, getter: GetterType) -> (r: Session)
        ensures
            r.wf(),
            r@ == (SessionView { host: host@, path: path@, getter, phase: Phase::Greeting }),
    {
        Session {
            host: host.to_owned(),
            path: path.to_owned(),
            getter,
            greeted: false,
            delivery: None,
        }
    }

    /// The chunk to send next, if there is one.
    pub fn chunk(&self) -> (r: Option<Vec<u8>>)
        requires
            self.wf(),
        ensures
            match r {
                Some(chunk) => is_session_chunk(
                    self@.host,
                    self@.path,
                    self@.getter,
                    self@.phase,
                    chunk@,
                ),
                None => self@.phase is Waiting || self@.phase is Closed,
            },
    {
        if !self.greeted {
            return Some(greeting(self.host.as_str(), self.path.as_str()));
        }
        match &self.delivery {
            Some(delivery) => delivery.chunk(),
            None => None,
        }
    }

    /// Takes down whether the chunk was sent.
    pub fn advance(&mut self, sent: bool)
        requires
            old(self).wf(),
        ensures
            final(self).wf(),
            final(self)@ == (SessionView {
                phase: after_chunk(old(self)@.phase, old(self)@.getter, sent),
                ..old(self)@
            }),
    {
        if !self.greeted {
            self.greeted = true;
            self.delivery = None;
        } else if let Some(delivery) = &mut self.delivery {
            delivery.advance(sent);
        }
    }

    /// Whether the connection waits for a request.
    pub fn waiting(&self) -> (r: bool)
        ensures
            r == (self@.phase is Waiting),
    {
        self.greeted && match &self.delivery {
            Some(delivery) => delivery.stage == Stage::Finished,
            None => true,
        }
    }

    /// Starts to deliver a request.
    pub fn start(&mut self, entry: PipeEntry)
        requires
            old(self).wf(),
            old(self)@.phase is Waiting,
        ensures
            final(self).wf(),
            final(self)@ == (SessionView {
                phase: Phase::Delivering(entry@, Stage::RequestLine),
                ..old(self)@
            }),
    {
        self.delivery = Some(Delivery::new(entry, self.getter));
    }
}

/// Something that happens in a connection to a listener that takes every chunk.
pub enum Step {
    /// This chunk is sent.
    Chunk(Seq<u8>),
    /// This request comes.
    Entry(crate::entry::EntryView),
}

/// The phase after some steps.
pub open spec fn phase_after(getter: GetterType, steps: Seq<Step>) -> Phase
    decreases steps.len(),
{
    if steps.len() == 0 {
        Phase::Greeting
    } else {
        match steps.last() {
            Step::Chunk(_) => after_chunk(phase_after(getter, steps.drop_last()), getter, true),
            Step::Entry(entry) => Phase::Delivering(entry, Stage::RequestLine),
        }
    }
}

/// Steps that can be taken one after the other: what is sent is what the phase
/// asks for, and a request is taken up when the connection waits for one.
pub open spec fn can_take(
    host: Seq<char>,
    path: Seq<char>,
    getter: GetterType,
    steps: Seq<Step>,
) -> bool
    decreases steps.len(),
{
    steps.len() > 0 ==> {
        let before = phase_after(getter, steps.drop_last());
        &&& can_take(host, path, getter, steps.drop_last())
        &&& match steps.last() {
            Step::Chunk(chunk) => is_session_chunk(host, path, getter, before, chunk),
            Step::Entry(entry) => before is Waiting && entry.fields.len() <= usize::MAX,
        }
    }
}

/// What is read in some steps.
pub open spec fn read(steps: Seq<Step>) -> Seq<u8>
    decreases steps.len(),
{
    if steps.len() == 0 {
        seq![]
    } else {
        match steps.last() {
            Step::Chunk(chunk) => read(steps.drop_last()) + chunk,
            Step::Entry(_) => read(steps.drop_last()),
        }
    }
}

/// The requests that come in some steps, in order.
pub open spec fn entries(steps: Seq<Step>) -> Seq<crate::entry::EntryView>
    decreases steps.len(),
{
    if steps.len() == 0 {
        seq![]
    } else {
        match steps.last() {
            Step::Chunk(_) => entries(steps.drop_last()),
            Step::Entry(entry) => entries(steps.drop_last()).push(entry),
        }
    }
}

/// The greeting and then each of the requests in turn, where `bodies` holds what
/// shows their bodies.
pub open spec fn session_text(
    host: Seq<char>,
    path: Seq<char>,
    getter: GetterType,
    requests: Seq<crate::entry::EntryView>,
    bodies: Seq<Seq<u8>>,
) -> Seq<u8>
    decreases requests.len(),
{
    if requests.len() == 0 {
        vstd::utf8::encode_utf8(crate::stream::greeting_text(host, path))
    } else {
        session_text(host, path, getter, requests.drop_last(), bodies.drop_last())
            + crate::stream::streamed(requests.last(), getter, bodies.last())
    }
}

/// Each of the bodies shows that of the request in the same place.
pub open spec fn bodies_shown(
    getter: GetterType,
    requests: Seq<crate::entry::EntryView>,
    bodies: Seq<Seq<u8>>,
) -> bool {
    &&& bodies.len() == requests.len()
    &&& forall|i: int|
        0 <= i < bodies.len() ==> crate::stream::is_body_chunk(
            getter,
            crate::stream::declared_type(requests[i].fields, requests[i].fields.len() as int),
            requests[i].body,
            #[trigger] bodies[i],
        )
}

/// Every one of `n` chunks was sent.
spec fn all_sent(n: nat) -> Seq<bool> {
    Seq::new(n, |i: int| true)
}

/// These chunks of a request have been sent, and its delivery has come to a stage.
spec fn begun(
    entry: crate::entry::EntryView,
    getter: GetterType,
    chunks: Seq<Seq<u8>>,
    stage: Stage,
) -> bool {
    &&& entry.fields.len() <= usize::MAX
    &&& stage == crate::stream::stage_after(
        getter,
        entry.fields.len() as usize,
        all_sent(chunks.len()),
    )
    &&& forall|k: int|
        0 <= k < chunks.len() ==> crate::stream::is_chunk(
            entry,
            getter,
            crate::stream::stage_after(getter, entry.fields.len() as usize, all_sent(k as nat)),
            #[trigger] chunks[k],
        )
}

/// What has been read in any phase: in one between two requests, the greeting and
/// the requests before; in one within a request, the first chunks of that request
/// behind them. The bodies and the chunks are given back.
proof fn lemma_read(
    host: Seq<char>,
    path: Seq<char>,
    getter: GetterType,
    steps: Seq<Step>,
) -> (r: (Seq<Seq<u8>>, Seq<Seq<u8>>))
    requires
        can_take(host, path, getter, steps),
    ensures
        match phase_after(getter, steps) {
            Phase::Greeting => steps.len() == 0,
            Phase::Waiting => {
                &&& bodies_shown(getter, entries(steps), r.0)
                &&& read(steps) == session_text(host, path, getter, entries(steps), r.0)
            },
            Phase::Delivering(entry, stage) => {
                &&& entries(steps).len() > 0
                &&& entry == entries(steps).last()
                &&& bodies_shown(getter, entries(steps).drop_last(), r.0)
                &&& begun(entry, getter, r.1, stage)
                &&& !(stage is Finished) && !(stage is Stopped)
                &&& read(steps) == session_text(
                    host,
                    path,
                    getter,
                    entries(steps).drop_last(),
                    r.0,
                ) + crate::text::joined(r.1)
            },
            Phase::Closed => false,
        },
    decreases steps.len(),
{
    if steps.len() == 0 {
        (Seq::empty(), Seq::empty())
    } else {
        let init = steps.drop_last();
        let (bodies, chunks) = lemma_read(host, path, getter, init);
        match steps.last() {
            Step::Entry(entry) => {
                let none = Seq::<Seq<u8>>::empty();
                assert(entries(steps).drop_last() =~= entries(init));
                assert(all_sent(0) =~= seq![]);
                assert(begun(entry, getter, none, Stage::RequestLine));
                assert(read(steps) =~= session_text(host, path, getter, entries(init), bodies)
                    + crate::text::joined(none));
                (bodies, none)
            },
            Step::Chunk(chunk) => match phase_after(getter, init) {
                Phase::Greeting => {
                    let none = Seq::<Seq<u8>>::empty();
                    assert(entries(steps) =~= seq![]);
                    assert(read(init) =~= seq![]);
                    assert(read(steps) =~= chunk);
                    (none, none)
                },
                Phase::Delivering(entry, stage) => {
                    lemma_chunk_added(entry, getter, chunks, stage, chunk);
                    let more = chunks.push(chunk);
                    let before = session_text(host, path, getter, entries(init).drop_last(), bodies);
                    assert(more.drop_last() =~= chunks);
                    assert(read(steps) =~= before + crate::text::joined(more));
                    let next = crate::stream::next_stage(
                        stage,
                        getter,
                        entry.fields.len() as usize,
                        true,
                    );
                    if next is Finished {
                        let sent = all_sent(more.len());
                        assert forall|k: int| 0 <= k < more.len() implies crate::stream::is_chunk(
                            entry,
                            getter,
                            crate::stream::stage_after(
                                getter,
                                entry.fields.len() as usize,
                                sent.take(k),
                            ),
                            #[trigger] more[k],
                        ) by {
                            assert(sent.take(k) =~= all_sent(k as nat));
                        }
                        crate::stream::law_request_is_streamed(entry, getter, sent, more);
                        let shown = bodies.push(more[more.len() - 2]);
                        assert(shown.drop_last() =~= bodies);
                        assert forall|i: int| 0 <= i < shown.len() implies crate::stream::is_body_chunk(
                            getter,
                            crate::stream::declared_type(
                                entries(steps)[i].fields,
                                entries(steps)[i].fields.len() as int,
                            ),
                            entries(steps)[i].body,
                            #[trigger] shown[i],
                        ) by {
                            if i < bodies.len() {
                                assert(shown[i] == bodies[i]);
                                assert(entries(init).drop_last()[i] == entries(steps)[i]);
                            }
                        }
                        (shown, more)
                    } else {
                        (bodies, more)
                    }
                },
                _ => (Seq::empty(), Seq::empty()),
            },
        }
    }
}

/// One more chunk of a request brings its delivery to the next stage.
proof fn lemma_chunk_added(
    entry: crate::entry::EntryView,
    getter: GetterType,
    chunks: Seq<Seq<u8>>,
    stage: Stage,
    chunk: Seq<u8>,
)
    requires
        begun(entry, getter, chunks, stage),
        crate::stream::is_chunk(entry, getter, stage, chunk),
    ensures
        begun(
            entry,
            getter,
            chunks.push(chunk),
            crate::stream::next_stage(stage, getter, entry.fields.len() as usize, true),
        ),
{
    let more = chunks.push(chunk);
    assert(all_sent(more.len()).drop_last() =~= all_sent(chunks.len()));
    assert forall|k: int| 0 <= k < more.len() implies crate::stream::is_chunk(
        entry,
        getter,
        crate::stream::stage_after(getter, entry.fields.len() as usize, all_sent(k as nat)),
        #[trigger] more[k],
    ) by {
        if k < chunks.len() {
            assert(more[k] == chunks[k]);
        }
    }
}

/// A listener that takes every chunk reads the greeting, once and before anything
/// else, and then each request that comes, whole and in order, shown by what the
/// listener is and what the request is alone. The bodies, as they are shown, are
/// given back.
pub proof fn law_requests_are_read_in_turn(
    host: Seq<char>,
    path: Seq<char>,
    getter: GetterType,
    steps: Seq<Step>,
) -> (bodies: Seq<Seq<u8>>)
    requires
        can_take(host, path, getter, steps),
        phase_after(getter, steps) is Waiting,
    ensures
        bodies_shown(getter, entries(steps), bodies),
        read(steps) == session_text(host, path, getter, entries(steps), bodies),
{
    lemma_read(host, path, getter, steps).0
}

/// Until a request comes, a listener reads nothing but the greeting.
pub proof fn law_only_the_greeting_is_read_at_first(
    host: Seq<char>,
    path: Seq<char>,
    getter: GetterType,
    steps: Seq<Step>,
)
    requires
        can_take(host, path, getter, steps),
        entries(steps).len() == 0,
        steps.len() > 0,
    ensures
        read(steps) == vstd::utf8::encode_utf8(crate::stream::greeting_text(host, path)),
        phase_after(getter, steps) is Waiting,
{
    lemma_read(host, path, getter, steps);
}

/// A new listener is greeted first, with the address of its path and a command that
/// sends something to it; whether or not the greeting could be sent, nothing more is
/// sent until there is a request.
pub proof fn law_greeting_comes_first(
    host: &str,
    path: &str,
    getter: GetterType,
    session: &mut Session,
    first: Option<Vec<u8>>,
    sent: bool,
    waits_before: bool,
    second: Option<Vec<u8>>,
    waits: bool,
)
    requires
        call_ensures(Session::new, (host, path, getter), *old(session)),
        call_ensures(Session::chunk, (old(session),), first),
        call_ensures(Session::waiting, (old(session),), waits_before),
        call_ensures(Session::advance, (session, sent), ()),
        call_ensures(Session::chunk, (final(session),), second),
        call_ensures(Session::waiting, (final(session),), waits),
    ensures
        !waits_before,
        first matches Some(chunk) && chunk@ == vstd::utf8::encode_utf8("Your URL is "@)
            + vstd::utf8::encode_utf8(host@) + vstd::utf8::encode_utf8(path@)
            + vstd::utf8::encode_utf8("\ncurl -d \"Hello World!\" "@) + vstd::utf8::encode_utf8(
            host@,
        ) + vstd::utf8::encode_utf8(path@) + vstd::utf8::encode_utf8("\n\n"@),
        waits,
        second is None,
{
    crate::stream::lemma_greeting_bytes(host@, path@);
}

/// A request that comes is delivered from its start, and the listener stays who it
/// is.
pub proof fn law_request_is_taken_up(
    session: &mut Session,
    entry: PipeEntry,
    delivery: Delivery,
    waits: bool,
    chunk: Option<Vec<u8>>,
    first: Option<Vec<u8>>,
)
    requires
        call_ensures(Session::start, (session, entry), ()),
        call_ensures(Session::waiting, (final(session),), waits),
        call_ensures(Session::chunk, (final(session),), chunk),
        call_ensures(Delivery::new, (entry, old(session)@.getter), delivery),
        call_ensures(Delivery::chunk, (&delivery,), first),
    ensures
        !waits,
        final(session)@.getter == old(session)@.getter,
        final(session)@.host == old(session)@.host,
        final(session)@.path == old(session)@.path,
        final(session)@.phase == Phase::Delivering(delivery.entry@, delivery.stage),
        chunk matches Some(c) && first matches Some(f) && c@ == f@,
{
}

/// While a request is delivered, the connection sends what the delivery of that
/// request to this listener sends, and goes on as it goes on: it waits for the next
/// request when the delivery has finished, and for nothing more when the listener
/// has gone.
pub proof fn law_session_follows_the_delivery(
    session: &mut Session,
    delivery: &mut Delivery,
    sent: bool,
    chunk: Option<Vec<u8>>,
    delivered: Option<Vec<u8>>,
    waits: bool,
    next: Option<Vec<u8>>,
)
    requires
        old(session)@.phase == Phase::Delivering(old(delivery).entry@, old(delivery).stage),
        old(session)@.getter == old(delivery).getter,
        !(old(delivery).stage is Finished) && !(old(delivery).stage is Stopped),
        call_ensures(Session::chunk, (old(session),), chunk),
        call_ensures(Delivery::chunk, (old(delivery),), delivered),
        call_ensures(Session::advance, (session, sent), ()),
        call_ensures(Delivery::advance, (delivery, sent), ()),
        call_ensures(Session::waiting, (final(session),), waits),
        call_ensures(Session::chunk, (final(session),), next),
    ensures
        chunk is Some,
        delivered is Some,
        !(old(delivery).stage is Body) || old(delivery).getter != GetterType::Curl ==> chunk->0@
            == delivered->0@,
        old(delivery).stage matches Stage::Body(seen) ==> crate::stream::declared_type(
            old(delivery).entry@.fields,
            seen as int,
        ) == crate::stream::ContentType::Other ==> chunk->0@ == delivered->0@,
        waits <==> final(delivery).stage is Finished,
        final(delivery).stage is Finished || final(delivery).stage is Stopped <==> next is None,
        !(final(delivery).stage is Finished) && !(final(delivery).stage is Stopped)
            ==> final(session)@.phase == Phase::Delivering(
            final(delivery).entry@,
            final(delivery).stage,
        ),
        final(session)@.getter == old(session)@.getter,
{
    assert(old(delivery).entry@.fields.len() == old(delivery).entry.headers@.len());
    assert(final(delivery).entry@.fields.len() == final(delivery).entry.headers@.len());
}

} // verus!
