//! Passing a request on to the listeners of its path.

use crate::entry::PipeEntry;
use crate::pipes::{any_missed, count_reached, reached_within, Pipes};
use crate::reply::{empty_response, received_response, Reply};
use crate::request::Request;
use crate::text::append_bytes;
use vstd::prelude::*;

verus! {

/// A request on its way to the listeners of its path.
pub struct Post {
    pub request: Request,
    /// The removals that there had been when the listeners were looked up.
    pub counter: usize,
    /// What has come of the body.
    pub body: Vec<u8>,
    /// For each listener that has been sent the request, whether it was reached.
    pub delivered: Vec<bool>,
}

/// What comes of a request's body.
pub enum BodyEvent {
    Chunk(Vec<u8>),
    Failed,
    End,
}

/// What to do after a part of the body.
pub enum BodyAction {
    /// Wait for the next part.
    Receive,
    /// Send this to each of the listeners.
    Deliver(PipeEntry),
    /// Answer, and be done.
    Answer(Reply),
}

/// What to do after the last listener has been sent the request.
pub enum DeliveredAction {
    /// Remove the listeners that were not reached.
    Prune,
    /// Answer, and be done.
    Answer(Reply),
}

impl Post {
    /// The fields of the request.
    pub open spec fn fields(self) -> Seq<(Seq<char>, Seq<u8>, bool)> {
        crate::headers::header_fields(self.request.headers)
    }

    /// Removing the listeners that were not reached is possible: where nothing
    /// was removed since the lookup, those that were reached are still there, and
    /// one more removal can be counted.
    pub open spec fn can_prune<S>(self, pipes: crate::pipes::PipesView<S>) -> bool {
        pipes.counter == self.counter ==> {
            &&& pipes.counter < usize::MAX
            &&& pipes.by_path.contains_key(self.request.path@) ==> crate::pipes::within(
                self.delivered@,
                pipes.by_path[self.request.path@].senders.len(),
            )
        }
    }

    /// The listener to send the request to next, while there is one.
    pub open spec fn next_sender<S>(self, pipes: crate::pipes::PipesView<S>) -> Option<S> {
        pipes.nth_listener(self.request.path@, self.delivered@.len())
    }

    /// Looks up the listeners of the request's path. Where there are none, the
    /// answer is empty.
    pub fn open<S>(pipes: &Pipes<S>, request: Request) -> (r: Result<Post, Reply>)
        requires
            pipes.wf(),
        ensures
            match r {
                Ok(post) => {
                    &&& pipes@.by_path.contains_key(request.path@)
                    &&& post.request == request
                    &&& post.counter == pipes@.counter
                    &&& post.body@ == Seq::<u8>::empty()
                    &&& post.delivered@ == Seq::<bool>::empty()
                },
                Err(reply) => {
                    &&& !pipes@.by_path.contains_key(request.path@)
                    &&& reply@ == crate::reply::empty_reply(
                        crate::headers::header_fields(request.headers),
                    )
                },
            },
    {
        if pipes.get(request.path.as_str()).is_none() {
            return Err(empty_response(&request.headers));
        }
        Ok(Post { request, counter: pipes.counter(), body: Vec::new(), delivered: Vec::new() })
    }

    /// Takes a part of the body. The listeners are sent the request when the
    /// whole body has come; where it breaks off, they are sent nothing, and the
    /// answer is empty.
    pub fn receive(&mut self, event: BodyEvent) -> (r: BodyAction)
        ensures
            final(self).request == old(self).request,
            final(self).counter == old(self).counter,
            final(self).delivered == old(self).delivered,
            match event {
                BodyEvent::Chunk(bytes) => {
                    &&& r is Receive
                    &&& final(self).body@ == old(self).body@ + bytes@
                },
                BodyEvent::Failed => {
                    &&& r matches BodyAction::Answer(reply)
                    &&& reply@ == crate::reply::empty_reply(old(self).fields())
                    &&& final(self).body@ == old(self).body@
                },
                BodyEvent::End => {
                    &&& r matches BodyAction::Deliver(entry)
                    &&& entry@ == crate::entry::entry_of(old(self).request, old(self).body@)
                    &&& final(self).body@ == old(self).body@
                },
            },
    {
        match event {
            BodyEvent::Chunk(bytes) => {
                append_bytes(&mut self.body, bytes.as_slice());
                BodyAction::Receive
            },
            BodyEvent::Failed => BodyAction::Answer(empty_response(&self.request.headers)),
            BodyEvent::End => BodyAction::Deliver(
                PipeEntry::new(&self.request, self.body.as_slice()),
            ),
        }
    }

    /// The listener to send the request to next: each of those of its path in
    /// turn.
    pub fn next<'a, S>(&self, pipes: &'a Pipes<S>) -> (r: Option<&'a S>)
        requires
            pipes.wf(),
        ensures
            match r {
                Some(sender) => self.next_sender(pipes@) == Some(*sender),
                None => self.next_sender(pipes@) is None,
            },
            pipes@.by_path.contains_key(self.request.path@) && self.delivered@.len()
                < pipes@.by_path[self.request.path@].senders.len() ==> r is Some && *(r->0)
                == pipes@.by_path[self.request.path@].senders[self.delivered@.len() as int],
    {
        match pipes.get(self.request.path.as_str()) {
            Some(pipe) => if self.delivered.len() < pipe.senders.len() {
                Some(&pipe.senders[self.delivered.len()])
            } else {
                None
            },
            None => None,
        }
    }

    /// Takes down whether the next listener was reached.
    pub fn record(&mut self, reached: bool)
        ensures
            *final(self) == (Post { delivered: final(self).delivered, ..*old(self) }),
            final(self).delivered@ == old(self).delivered@.push(reached),
    {
        self.delivered.push(reached);
    }

    /// Decides what follows when all the listeners have been sent the request:
    /// where all were reached, the answer says how many they were.
    pub fn finish(&self) -> (r: DeliveredAction)
        ensures
            match r {
                DeliveredAction::Prune => self.delivered@.contains(false),
                DeliveredAction::Answer(reply) => {
                    &&& !self.delivered@.contains(false)
                    &&& reply@ == crate::reply::received_reply(
                        self.fields(),
                        crate::pipes::reached(self.delivered@),
                    )
                },
            },
    {
        if any_missed(&self.delivered) {
            DeliveredAction::Prune
        } else {
            DeliveredAction::Answer(
                received_response(&self.request.headers, count_reached(&self.delivered)),
            )
        }
    }

    /// Whether the listeners that were not reached can be removed.
    pub fn check_prune<S>(&self, pipes: &Pipes<S>) -> (r: bool)
        requires
            pipes.wf(),
        ensures
            r == self.can_prune(pipes@),
    {
        if pipes.counter() != self.counter {
            return true;
        }
        match pipes.get(self.request.path.as_str()) {
            Some(pipe) => pipes.counter() < usize::MAX && reached_within(
                &self.delivered,
                pipe.senders.len(),
            ),
            None => pipes.counter() < usize::MAX,
        }
    }

    /// Removes the listeners that were not reached, and answers. Where others
    /// have been removed since the lookup, nothing is removed and the answer is
    /// empty; it is empty too where listeners were reached on a path that is no
    /// longer there. Otherwise it says how many were reached.
    pub fn prune<S>(&self, pipes: &mut Pipes<S>) -> (r: Reply)
        requires
            old(pipes).wf(),
            self.delivered@.contains(false),
            self.can_prune(old(pipes)@),
        ensures
            final(pipes).wf(),
            final(pipes)@ == if old(pipes)@.counter == self.counter {
                old(pipes)@.pruned(self.request.path@, self.delivered@)
            } else {
                old(pipes)@
            },
            r@ == if old(pipes)@.counter == self.counter && (crate::pipes::reached(self.delivered@)
                == 0 || old(pipes)@.by_path.contains_key(self.request.path@)) {
                crate::reply::received_reply(
                    self.fields(),
                    crate::pipes::reached(self.delivered@),
                )
            } else {
                crate::reply::empty_reply(self.fields())
            },
    {
        if pipes.counter() != self.counter {
            return empty_response(&self.request.headers);
        }
        let received = count_reached(&self.delivered);
        let known = pipes.get(self.request.path.as_str()).is_some();
        pipes.prune(self.request.path.as_str(), &self.delivered);
        if received > 0 && !known {
            return empty_response(&self.request.headers);
        }
        received_response(&self.request.headers, received)
    }
}

/// When the listeners of a request's path have been looked up and at most these
/// have been sent the request, those that were not reached can be removed,
/// whatever has happened in the meantime, as long as removals can be counted.
pub proof fn law_pruning_stays_possible<S>(
    post: Post,
    found: crate::pipes::PipesView<S>,
    now: crate::pipes::PipesView<S>,
)
    requires
        found.by_path.contains_key(post.request.path@),
        post.counter == found.counter,
        post.delivered@.len() <= found.by_path[post.request.path@].senders.len(),
        found.leads_to(now),
        now.counter < usize::MAX,
    ensures
        post.can_prune(now),
        now.counter == post.counter ==> now.by_path.contains_key(post.request.path@),
{
}

/// The body that is passed on is the whole body: when it starts out empty and each
/// chunk in turn is added to it, it ends up as all the chunks in order.
pub proof fn law_body_is_passed_on_whole(bodies: Seq<Seq<u8>>, chunks: Seq<Seq<u8>>)
    requires
        bodies.len() == chunks.len() + 1,
        bodies[0] == Seq::<u8>::empty(),
        forall|k: int| 0 <= k < chunks.len() ==> bodies[k + 1] == bodies[k] + #[trigger] chunks[k],
    ensures
        bodies.last() == crate::text::joined(chunks),
    decreases chunks.len(),
{
    if chunks.len() > 0 {
        let n = chunks.len() - 1;
        assert forall|k: int| 0 <= k < n implies bodies.drop_last()[k + 1] == bodies.drop_last()[k]
            + #[trigger] chunks.drop_last()[k] by {
            assert(bodies[k + 1] == bodies[k] + chunks[k]);
        }
        law_body_is_passed_on_whole(bodies.drop_last(), chunks.drop_last());
        assert(bodies[n + 1] == bodies[n] + chunks[n]);
    }
}

/// Whoever listens on a path is sent what is posted to it: when each listener in
/// turn has been sent a request and none is left, those that were sent it are the
/// listeners of the path, all of them, each once and in order.
pub proof fn law_every_listener_is_sent<S>(
    pipes: crate::pipes::PipesView<S>,
    path: Seq<char>,
    sent: Seq<S>,
)
    requires
        pipes.by_path.contains_key(path),
        forall|n: int| 0 <= n < sent.len() ==> #[trigger] pipes.nth_listener(path, n as nat) == Some(
            sent[n],
        ),
        pipes.nth_listener(path, sent.len()) is None,
    ensures
        sent == pipes.by_path[path].senders,
{
    let senders = pipes.by_path[path].senders;
    assert forall|n: int| 0 <= n < sent.len() implies n < senders.len() && sent[n]
        == senders[n] by {
        assert(pipes.nth_listener(path, n as nat) == Some(sent[n]));
    }
    if sent.len() > 0 {
        assert(pipes.nth_listener(path, (sent.len() - 1) as nat) == Some(sent[sent.len() - 1]));
    }
    assert(sent =~= senders);
}

/// No more listeners are said to have received a request than were sent it.
pub proof fn law_received_at_most_sent(post: Post)
    ensures
        crate::pipes::reached(post.delivered@) <= post.delivered@.len(),
        post.delivered@.contains(false) ==> crate::pipes::reached(post.delivered@)
            < post.delivered@.len(),
{
    lemma_missed_not_counted(post.delivered@);
}

proof fn lemma_missed_not_counted(delivered: Seq<bool>)
    ensures
        crate::pipes::reached(delivered) <= delivered.len(),
        delivered.contains(false) ==> crate::pipes::reached(delivered) < delivered.len(),
    decreases delivered.len(),
{
    if delivered.len() > 0 {
        let init = delivered.drop_last();
        lemma_missed_not_counted(init);
        if delivered.contains(false) && delivered.last() {
            let i = choose|i: int| 0 <= i < delivered.len() && !delivered[i];
            assert(init[i] == false);
            assert(init.contains(false));
        }
    }
}

/// A request is taken up where its path has listeners, and answered empty at once
/// where it has none; when it is taken up, nothing of its body has come and nobody
/// has been sent it.
pub proof fn law_requests_without_listeners_are_answered_empty<S>(
    pipes: Pipes<S>,
    request: Request,
    path: &str,
    i: int,
    found: Option<&crate::pipes::Pipe<S>>,
    removals: usize,
    r: Result<Post, Reply>,
)
    requires
        path@ == request.path@,
        call_ensures(Pipes::<S>::get, (&pipes, path), found),
        call_ensures(Pipes::<S>::counter, (&pipes,), removals),
        call_ensures(Post::open::<S>, (&pipes, request), r),
    ensures
        r is Ok <==> found is Some,
        r matches Ok(post) ==> post.request == request && post.counter == removals
            && post.body@.len() == 0 && post.delivered@.len() == 0,
        r matches Err(reply) ==> {
            &&& reply.head.status == 200
            &&& reply.body@.len() == 0
            &&& crate::headers::is_absent(
                crate::headers::header_fields(request.headers),
                "origin"@,
            ) ==> reply.head.headers@.len() == 0
            &&& crate::headers::is_first(
                crate::headers::header_fields(request.headers),
                i,
                "origin"@,
            ) ==> reply.head.headers@.len() == 3 && crate::reply::opened_to(
                reply.head.headers@,
                0,
                crate::headers::header_fields(request.headers)[i],
            )
        },
{
    if let Err(reply) = r {
        crate::reply::lemma_empty_answer(request.headers, i, reply);
    }
}

/// Whatever became of the deliveries so far, failed ones among them, the next
/// listener of the path has its turn, as long as there is one: the one in the place
/// of the number of deliveries. When there is none, each has had its turn.
pub proof fn law_failed_deliveries_stop_nothing<S>(
    post: Post,
    pipes: Pipes<S>,
    path: &str,
    found: Option<&crate::pipes::Pipe<S>>,
    r: Option<&S>,
)
    requires
        path@ == post.request.path@,
        call_ensures(Pipes::<S>::get, (&pipes, path), found),
        call_ensures(Post::next::<S>, (&post, &pipes), r),
    ensures
        found matches Some(pipe) ==> if post.delivered@.len() < pipe.senders@.len() {
            r matches Some(sender) && *sender == pipe.senders@[post.delivered@.len() as int]
        } else {
            r is None
        },
        found is None ==> r is None,
{
}

/// Whether a listener was reached does not matter to whose turn is next: after
/// either outcome it is that of the same listener, and what was taken down before
/// stands.
pub proof fn law_outcomes_do_not_matter_to_turns<S>(
    post: &mut Post,
    outcome: bool,
    other: &mut Post,
    other_outcome: bool,
    pipes: Pipes<S>,
    r: Option<&S>,
    other_r: Option<&S>,
)
    requires
        old(post).request.path@ == old(other).request.path@,
        old(post).delivered@.len() == old(other).delivered@.len(),
        call_ensures(Post::record, (post, outcome), ()),
        call_ensures(Post::record, (other, other_outcome), ()),
        call_ensures(Post::next::<S>, (final(post), &pipes), r),
        call_ensures(Post::next::<S>, (final(other), &pipes), other_r),
    ensures
        match r {
            Some(sender) => other_r matches Some(other_sender) && *sender == *other_sender,
            None => other_r is None,
        },
        final(post).delivered@ == old(post).delivered@ + seq![outcome],
        final(post).request == old(post).request,
        final(post).counter == old(post).counter,
        final(post).body@ == old(post).body@,
{
    assert(old(post).delivered@.push(outcome) =~= old(post).delivered@ + seq![outcome]);
}

/// The body is gathered as it comes. At its end the listeners are sent the request
/// with all that came of it; where it breaks off, the sender is answered empty.
pub proof fn law_body_is_gathered(post: &mut Post, event: BodyEvent, i: int, r: BodyAction)
    requires
        call_ensures(Post::receive, (post, event), r),
    ensures
        final(post).request == old(post).request,
        final(post).counter == old(post).counter,
        final(post).delivered@ == old(post).delivered@,
        event matches BodyEvent::Chunk(bytes) ==> r is Receive && final(post).body@ == old(
            post,
        ).body@ + bytes@,
        !(event is Chunk) ==> final(post).body@ == old(post).body@,
        event is Failed ==> (r matches BodyAction::Answer(reply) && reply.head.status == 200
            && reply.body@.len() == 0 && (crate::headers::is_absent(
            crate::headers::header_fields(old(post).request.headers),
            "origin"@,
        ) ==> reply.head.headers@.len() == 0) && (crate::headers::is_first(
            crate::headers::header_fields(old(post).request.headers),
            i,
            "origin"@,
        ) ==> reply.head.headers@.len() == 3 && crate::reply::opened_to(
            reply.head.headers@,
            0,
            crate::headers::header_fields(old(post).request.headers)[i],
        ))),
        event is End ==> (r matches BodyAction::Deliver(entry) && entry.uri@ == old(
            post,
        ).request.uri@ && entry.method@ == old(post).request.method@ && entry.body@ == old(
            post,
        ).body@ && entry.headers@.len() == crate::headers::header_fields(
            old(post).request.headers,
        ).len() && forall|k: int|
            0 <= k < entry.headers@.len() ==> crate::reply::field_is(
                #[trigger] entry.headers@[k],
                crate::headers::header_fields(old(post).request.headers)[k].0,
                crate::headers::header_fields(old(post).request.headers)[k].1,
                crate::headers::header_fields(old(post).request.headers)[k].2,
            )),
{
    if let BodyAction::Answer(reply) = r {
        if event is Failed {
            crate::reply::lemma_empty_answer(old(post).request.headers, i, reply);
        }
    }
    if let BodyAction::Deliver(entry) = r {
        if event is End {
            crate::entry::lemma_all_is_passed_on(old(post).request, old(post).body@, entry);
        }
    }
}

/// Where every listener was reached, the answer says how many they are; where one
/// was not, listeners have to be removed.
pub proof fn law_answer_or_removal(post: Post, i: int, r: DeliveredAction)
    requires
        call_ensures(Post::finish, (&post,), r),
    ensures
        0 <= i < post.delivered@.len() && !post.delivered@[i] ==> r is Prune,
        (forall|k: int| 0 <= k < post.delivered@.len() ==> #[trigger] post.delivered@[k]) ==> (
        r matches DeliveredAction::Answer(reply) && crate::reply::says_received(
            post.request.headers,
            reply,
            post.delivered@.len(),
        )),
{
    let delivered = post.delivered@;
    if 0 <= i < delivered.len() && !delivered[i] {
        assert(delivered.contains(false));
    }
    if forall|k: int| 0 <= k < delivered.len() ==> #[trigger] delivered[k] {
        lemma_everyone_counts(delivered);
        if let DeliveredAction::Answer(reply) = r {
            crate::reply::lemma_says_received(post.request.headers, reply, delivered.len());
        }
    }
}

proof fn lemma_everyone_counts(delivered: Seq<bool>)
    requires
        forall|k: int| 0 <= k < delivered.len() ==> #[trigger] delivered[k],
    ensures
        crate::pipes::reached(delivered) == delivered.len(),
    decreases delivered.len(),
{
    if delivered.len() > 0 {
        let init = delivered.drop_last();
        assert forall|k: int| 0 <= k < init.len() implies #[trigger] init[k] by {
            assert(delivered[k]);
        }
        lemma_everyone_counts(init);
        assert(delivered[delivered.len() - 1]);
    }
}

/// When listeners are removed after a delivery, the answer says how many were
/// reached, and whoever was not found gone is still found on the path, whoever
/// joined in the meantime among them; no other path is touched. Where others were
/// removed in the meantime, nobody is removed, and the answer gives no number; nor
/// does it where someone was reached on a path that is no longer there.
pub proof fn law_removal_after_a_delivery<S>(
    post: Post,
    pipes: &mut Pipes<S>,
    path: &str,
    i: int,
    before: Option<&crate::pipes::Pipe<S>>,
    after: Option<&crate::pipes::Pipe<S>>,
    other: &str,
    other_before: Option<&crate::pipes::Pipe<S>>,
    other_after: Option<&crate::pipes::Pipe<S>>,
    removals: usize,
    removals_after: usize,
    r: Reply,
)
    requires
        path@ == post.request.path@,
        call_ensures(Pipes::<S>::get, (old(pipes), path), before),
        call_ensures(Pipes::<S>::get, (old(pipes), other), other_before),
        call_ensures(Pipes::<S>::counter, (old(pipes),), removals),
        call_ensures(Post::prune::<S>, (&post, pipes), r),
        call_ensures(Pipes::<S>::get, (final(pipes), path), after),
        call_ensures(Pipes::<S>::get, (final(pipes), other), other_after),
        call_ensures(Pipes::<S>::counter, (final(pipes),), removals_after),
        before matches Some(was) ==> crate::pipes::within(post.delivered@, was.senders@.len()),
    ensures
        removals == post.counter ==> removals_after == removals + 1,
        removals == post.counter && before is Some ==> crate::reply::says_received(
            post.request.headers,
            r,
            post.delivered@.filter(|b: bool| b).len(),
        ),
        removals == post.counter && before is None && 0 <= i < post.delivered@.len()
            && post.delivered@[i] ==> r.head.status == 200 && r.body@.len() == 0 && (
        r.head.headers@.len() == 0 || r.head.headers@.len() == 3
            && r.head.headers@.last().name@ == "vary"@),
        removals == post.counter && before is None && (forall|k: int|
            0 <= k < post.delivered@.len() ==> !(#[trigger] post.delivered@[k]))
            ==> crate::reply::says_received(post.request.headers, r, 0),
        other@ != path@ ==> match other_before {
            Some(was) => other_after matches Some(now) && now.id == was.id && now.senders@
                == was.senders@,
            None => other_after is None,
        },
        removals == post.counter ==> (before matches Some(was) ==> 0 <= i < was.senders@.len()
            && crate::pipes::stays(post.delivered@, i) ==> (after matches Some(now)
            && now.senders@.contains(was.senders@[i]))),
        removals == post.counter ==> (before matches Some(was) ==> 0 <= i < was.senders@.len()
            && was.senders@.no_duplicates() && !crate::pipes::stays(post.delivered@, i) ==> (
        after matches Some(now) ==> !now.senders@.contains(was.senders@[i]))),
        removals != post.counter ==> removals_after == removals && final(pipes)@ == old(pipes)@
            && r.head.status == 200 && r.body@.len() == 0 && (r.head.headers@.len() == 0
            || r.head.headers@.len() == 3 && r.head.headers@.last().name@ == "vary"@),
{
    let headers = post.request.headers;
    if removals == post.counter {
        crate::pipes::lemma_reached_is_filtered(post.delivered@);
        crate::pipes::lemma_none_reached(post.delivered@);
        if before is Some || crate::pipes::reached(post.delivered@) == 0 {
            crate::reply::lemma_says_received(
                headers,
                r,
                crate::pipes::reached(post.delivered@),
            );
        } else {
            crate::reply::lemma_empty_answer(headers, i, r);
        }
        if let Some(was) = before {
            let rest = crate::pipes::remaining(was.senders@, post.delivered@);
            let places = crate::pipes::law_who_remains_keeps_its_place(
                was.senders@,
                post.delivered@,
            );
            if 0 <= i < was.senders@.len() {
                if crate::pipes::stays(post.delivered@, i) {
                    let k = choose|k: int| 0 <= k < places.len() && places[k] == i;
                    assert(rest[k] == was.senders@[places[k]]);
                } else if was.senders@.no_duplicates() && rest.contains(was.senders@[i]) {
                    let k = choose|k: int| 0 <= k < rest.len() && rest[k] == was.senders@[i];
                    assert(was.senders@[places[k]] == was.senders@[i]);
                    assert(crate::pipes::stays(post.delivered@, places[k]));
                }
            }
        }
    } else {
        crate::reply::lemma_empty_answer(headers, i, r);
    }
}

/// Right after the listeners were looked up and at most these have been sent the
/// request, removal is possible; so it is when others have been removed since.
pub proof fn law_removal_can_be_checked<S>(
    post: Post,
    pipes: Pipes<S>,
    path: &str,
    found: Option<&crate::pipes::Pipe<S>>,
    removals: usize,
    r: bool,
)
    requires
        path@ == post.request.path@,
        call_ensures(Pipes::<S>::get, (&pipes, path), found),
        call_ensures(Pipes::<S>::counter, (&pipes,), removals),
        call_ensures(Post::check_prune::<S>, (&post, &pipes), r),
    ensures
        removals != post.counter ==> r,
        removals == usize::MAX && removals == post.counter ==> !r,
        removals < usize::MAX && (found matches Some(pipe) ==> post.delivered@.len()
            <= pipe.senders@.len()) ==> r,
{
}

} // verus!
