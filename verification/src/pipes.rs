//! The listeners of each path.

use vstd::hash_map::StringHashMap;
use vstd::prelude::*;

verus! {

/// The listeners of one path.
pub struct Pipe<S> {
    /// The request that opened the pipe.
    pub id: u128,
    pub path: String,
    /// The way to each listener, in the order in which they came.
    pub senders: Vec<S>,
}

/// All the listeners.
pub struct Pipes<S> {
    /// Where in `pipes` the pipe of a path stands.
    slots: StringHashMap<usize>,
    pipes: Vec<Pipe<S>>,
    /// How often listeners have been removed.
    counter: usize,
}

/// What a pipe holds.
pub struct PipeView<S> {
    pub id: u128,
    pub path: Seq<char>,
    pub senders: Seq<S>,
}

/// What all the pipes hold.
pub struct PipesView<S> {
    pub by_path: Map<Seq<char>, PipeView<S>>,
    pub counter: nat,
}

impl<S> View for Pipe<S> {
    type V = PipeView<S>;

    open spec fn view(&self) -> PipeView<S> {
        PipeView { id: self.id, path: self.path@, senders: self.senders@ }
    }
}

impl<S> View for Pipes<S> {
    type V = PipesView<S>;

    closed spec fn view(&self) -> PipesView<S> {
        PipesView {
            by_path: Map::new(
                |path: Seq<char>| self.slots@.contains_key(path),
                |path: Seq<char>| self.pipes@[self.slots@[path] as int]@,
            ),
            counter: self.counter as nat,
        }
    }
}

impl<S> PipesView<S> {
    /// No listeners.
    pub open spec fn empty() -> PipesView<S> {
        PipesView { by_path: Map::empty(), counter: 0 }
    }

    /// Every pipe has a listener.
    pub open spec fn all_heard(self) -> bool {
        forall|path: Seq<char>| #[trigger]
            self.by_path.contains_key(path) ==> self.by_path[path].senders.len() > 0
    }

    /// The listener of `path` before which `n` others came, if there is one.
    pub open spec fn nth_listener(self, path: Seq<char>, n: nat) -> Option<S> {
        if self.by_path.contains_key(path) && n < self.by_path[path].senders.len() {
            Some(self.by_path[path].senders[n as int])
        } else {
            None
        }
    }

    /// With one more listener, the last of its path.
    pub open spec fn attached(self, id: u128, path: Seq<char>, sender: S) -> PipesView<S> {
        let pipe = if self.by_path.contains_key(path) {
            PipeView { senders: self.by_path[path].senders.push(sender), ..self.by_path[path] }
        } else {
            PipeView { id, path, senders: seq![sender] }
        };
        PipesView { by_path: self.by_path.insert(path, pipe), ..self }
    }

    /// After a delivery on `path` that found the listeners where `delivered` is
    /// false gone: these are removed, and the path is forgotten where nobody
    /// remains.
    pub open spec fn pruned(self, path: Seq<char>, delivered: Seq<bool>) -> PipesView<S> {
        let senders = remaining(self.by_path[path].senders, delivered);
        let by_path = if !self.by_path.contains_key(path) {
            self.by_path
        } else if senders.len() == 0 {
            self.by_path.remove(path)
        } else {
            self.by_path.insert(path, PipeView { senders, ..self.by_path[path] })
        };
        PipesView { by_path, counter: self.counter + 1 }
    }

    /// `later` can come after `self`: the counter does not go back, and while it
    /// stands still listeners only join, each behind those of its path.
    pub open spec fn leads_to(self, later: PipesView<S>) -> bool {
        &&& self.counter <= later.counter
        &&& self.counter == later.counter ==> forall|path: Seq<char>| #[trigger]
            self.by_path.contains_key(path) ==> later.by_path.contains_key(path)
                && self.by_path[path].senders.is_prefix_of(later.by_path[path].senders)
    }
}

/// How many of the listeners were reached.
pub open spec fn reached(delivered: Seq<bool>) -> nat
    decreases delivered.len(),
{
    if delivered.len() == 0 {
        0
    } else {
        reached(delivered.drop_last()) + if delivered.last() {
            1nat
        } else {
            0nat
        }
    }
}

/// Those of the first listeners that were reached, in order.
pub open spec fn kept<S>(senders: Seq<S>, delivered: Seq<bool>) -> Seq<S>
    decreases delivered.len(),
{
    if delivered.len() == 0 {
        seq![]
    } else if delivered.last() {
        kept(senders, delivered.drop_last()).push(senders[delivered.len() - 1])
    } else {
        kept(senders, delivered.drop_last())
    }
}

/// The listeners without those that a delivery found gone: of the first ones those
/// that were reached, and whoever has joined behind them since.
pub open spec fn remaining<S>(senders: Seq<S>, delivered: Seq<bool>) -> Seq<S> {
    kept(senders, delivered) + if delivered.len() <= senders.len() {
        senders.skip(delivered.len() as int)
    } else {
        seq![]
    }
}

/// Whoever was reached is one of the first `n` listeners.
pub open spec fn within(delivered: Seq<bool>, n: nat) -> bool {
    forall|i: int| 0 <= i < delivered.len() && #[trigger] delivered[i] ==> i < n
}

/// As many listeners are kept as were reached.
pub proof fn lemma_kept_len<S>(senders: Seq<S>, delivered: Seq<bool>)
    ensures
        kept(senders, delivered).len() == reached(delivered),
        reached(delivered) <= delivered.len(),
    decreases delivered.len(),
{
    if delivered.len() > 0 {
        lemma_kept_len(senders, delivered.drop_last());
    }
}

/// How many of the listeners were reached.
pub fn count_reached(delivered: &Vec<bool>) -> (r: usize)
    ensures
        r == reached(delivered@),
{
    let mut r: usize = 0;
    let mut i: usize = 0;
    while i < delivered.len()
        invariant
            i <= delivered.len(),
            r == reached(delivered@.take(i as int)),
            r <= i,
        decreases delivered.len() - i,
    {
        proof {
            assert(delivered@.take(i + 1).drop_last() =~= delivered@.take(i as int));
        }
        if delivered[i] {
            r = r + 1;
        }
        i = i + 1;
    }
    proof {
        assert(delivered@.take(i as int) =~= delivered@);
    }
    r
}

/// Whether whoever was reached is one of the first `n` listeners.
pub fn reached_within(delivered: &Vec<bool>, n: usize) -> (r: bool)
    ensures
        r == within(delivered@, n as nat),
{
    let mut i: usize = n;
    while i < delivered.len()
        invariant
            n <= i,
            forall|j: int| n <= j < i && j < delivered@.len() ==> !delivered@[j],
        decreases delivered.len() - i,
    {
        if delivered[i] {
            return false;
        }
        i = i + 1;
    }
    true
}

/// Whether some listener was not reached.
pub fn any_missed(delivered: &Vec<bool>) -> (r: bool)
    ensures
        r == delivered@.contains(false),
{
    let mut i: usize = 0;
    while i < delivered.len()
        invariant
            i <= delivered.len(),
            forall|j: int| 0 <= j < i ==> delivered@[j],
        decreases delivered.len() - i,
    {
        if !delivered[i] {
            return true;
        }
        i = i + 1;
    }
    false
}

/// The first `n` listeners, or all where there are fewer.
spec fn first<S>(senders: Seq<S>, n: int) -> Seq<S> {
    if n <= senders.len() {
        senders.take(n)
    } else {
        senders
    }
}

/// Removes those of the first listeners that were not reached.
fn keep_reached<S>(senders: &mut Vec<S>, delivered: &Vec<bool>)
    requires
        within(delivered@, old(senders)@.len()),
    ensures
        final(senders)@ == remaining(old(senders)@, delivered@),
{
    let ghost all = senders@;
    let count: usize = senders.len();
    let mut i: usize = delivered.len();
    let ghost mut tail: Seq<S> = if i <= all.len() {
        all.skip(i as int)
    } else {
        seq![]
    };
    proof {
        assert(senders@ =~= first(all, i as int) + tail);
        assert(delivered@.take(i as int) =~= delivered@);
    }
    while i > 0
        invariant
            i <= delivered@.len(),
            count == all.len(),
            within(delivered@, all.len()),
            senders@ == first(all, i as int) + tail,
            remaining(all, delivered@) == kept(all, delivered@.take(i as int)) + tail,
        decreases i,
    {
        let ghost rest = tail;
        i = i - 1;
        proof {
            assert(delivered@.take(i + 1).drop_last() =~= delivered@.take(i as int));
        }
        if delivered[i] {
            proof {
                assert(delivered@[i as int]);
                tail = seq![all[i as int]] + rest;
                assert(kept(all, delivered@.take(i + 1)) + rest =~= kept(
                    all,
                    delivered@.take(i as int),
                ) + tail);
                assert(senders@ =~= first(all, i as int) + tail);
            }
        } else if i < count {
            senders.remove(i);
            proof {
                assert(senders@ =~= first(all, i as int) + tail);
            }
        }
    }
    proof {
        assert(kept(all, delivered@.take(0)) =~= seq![]);
        assert(senders@ =~= tail);
        assert(remaining(all, delivered@) =~= tail);
    }
}

impl<S> Pipes<S> {
    /// The table of slots and the list of pipes match, and every pipe has a
    /// listener.
    pub closed spec fn wf(&self) -> bool {
        &&& forall|path: Seq<char>| #[trigger]
            self.slots@.contains_key(path) ==> self.slots@[path] < self.pipes@.len()
                && self.pipes@[self.slots@[path] as int].path@ == path
        &&& forall|i: int|
            0 <= i < self.pipes@.len() ==> self.slots@.contains_key(
                (#[trigger] self.pipes@[i]).path@,
            ) && self.slots@[self.pipes@[i].path@] == i
        &&& forall|i: int| 0 <= i < self.pipes@.len() ==> (#[trigger] self.pipes@[i]).senders@.len() > 0
    }

    /// No listeners.
    pub fn new() -> (r: Pipes<S>)
        ensures
            r.wf(),
            r@ == PipesView::<S>::empty(),
    {
        let r = Pipes { slots: StringHashMap::new(), pipes: Vec::new(), counter: 0 };
        proof {
            assert(r@.by_path =~= Map::empty());
        }
        r
    }

    /// Every path that is known has a listener.
    pub proof fn law_known_paths_are_heard(&self)
        requires
            self.wf(),
        ensures
            self@.all_heard(),
    {
    }

    /// How often listeners have been removed.
    pub fn counter(&self) -> (r: usize)
        ensures
            r == self@.counter,
    {
        self.counter
    }

    /// The pipe of a path, if it has listeners.
    pub fn get(&self, path: &str) -> (r: Option<&Pipe<S>>)
        requires
            self.wf(),
        ensures
            match r {
                Some(pipe) => self@.by_path.contains_key(path@) && pipe@ == self@.by_path[path@]
                    && pipe.path@ == path@,
                None => !self@.by_path.contains_key(path@),
            },
    {
        match self.slots.get(path) {
            Some(slot) => Some(&self.pipes[*slot]),
            None => None,
        }
    }

    /// Adds a listener behind those of its path.
    pub fn attach(&mut self, id: u128, path: &str, sender: S)
        requires
            old(self).wf(),
        ensures
            final(self).wf(),
            final(self)@ == old(self)@.attached(id, path@, sender),
    {
        let found: Option<usize> = match self.slots.get(path) {
            Some(slot) => Some(*slot),
            None => None,
        };
        match found {
            Some(slot) => {
                self.pipes[slot].senders.push(sender);
            },
            None => {
                let mut senders: Vec<S> = Vec::new();
                senders.push(sender);
                self.slots.insert(path.to_owned(), self.pipes.len());
                self.pipes.push(Pipe { id, path: path.to_owned(), senders });
            },
        }
        proof {
            assert(self@.by_path =~= old(self)@.attached(id, path@, sender).by_path);
        }
    }

    /// Forgets a path.
    fn forget(&mut self, path: &str)
        requires
            old(self).wf(),
        ensures
            final(self).wf(),
            final(self)@.by_path == old(self)@.by_path.remove(path@),
            final(self)@.counter == old(self)@.counter,
    {
        let found: Option<usize> = match self.slots.get(path) {
            Some(slot) => Some(*slot),
            None => None,
        };
        if let Some(slot) = found {
            self.slots.remove(path);
            self.pipes.swap_remove(slot);
            if slot < self.pipes.len() {
                let moved: String = self.pipes[slot].path.clone();
                self.slots.insert(moved, slot);
            }
        }
        proof {
            assert(self@.by_path =~= old(self)@.by_path.remove(path@));
        }
    }

    /// Removes the listeners that a delivery on `path` found gone.
    pub fn prune(&mut self, path: &str, delivered: &Vec<bool>)
        requires
            old(self).wf(),
            old(self)@.counter < usize::MAX,
            old(self)@.by_path.contains_key(path@) ==> within(
                delivered@,
                old(self)@.by_path[path@].senders.len(),
            ),
        ensures
            final(self).wf(),
            final(self)@ == old(self)@.pruned(path@, delivered@),
    {
        self.counter = self.counter + 1;
        let found: Option<usize> = match self.slots.get(path) {
            Some(slot) => Some(*slot),
            None => None,
        };
        if let Some(slot) = found {
            proof {
                lemma_kept_len(self.pipes@[slot as int].senders@, delivered@);
            }
            if count_reached(delivered) == 0 && self.pipes[slot].senders.len() <= delivered.len() {
                self.forget(path);
            } else {
                keep_reached(&mut self.pipes[slot].senders, delivered);
            }
        }
        proof {
            assert(self@.by_path =~= old(self)@.pruned(path@, delivered@).by_path);
        }
    }
}

impl<S> PipesView<S> {
    /// `sender` is among the listeners of `path`.
    pub open spec fn listening(self, path: Seq<char>, sender: S) -> bool {
        self.by_path.contains_key(path) && self.by_path[path].senders.contains(sender)
    }
}

/// Of three states that follow each other, the last follows the first; and a
/// state follows itself.
pub proof fn law_leads_to_is_an_order<S>(a: PipesView<S>, b: PipesView<S>, c: PipesView<S>)
    ensures
        a.leads_to(a),
        a.leads_to(b) && b.leads_to(c) ==> a.leads_to(c),
{
    if a.leads_to(b) && b.leads_to(c) && a.counter == c.counter {
        assert forall|path: Seq<char>| #[trigger] a.by_path.contains_key(path) implies c.by_path.contains_key(
            path,
        ) && a.by_path[path].senders.is_prefix_of(c.by_path[path].senders) by {
            assert(b.by_path.contains_key(path));
            let x = a.by_path[path].senders;
            let y = b.by_path[path].senders;
            let z = c.by_path[path].senders;
            assert(x =~= z.subrange(0, x.len() as int)) by {
                assert forall|i: int| 0 <= i < x.len() implies x[i] == z[i] by {
                    assert(x[i] == y.subrange(0, x.len() as int)[i]);
                    assert(y[i] == z.subrange(0, y.len() as int)[i]);
                }
            }
        }
    }
}

/// Whatever happens to the listeners leads to a later state: one joins, or some
/// are removed.
pub proof fn law_every_step_leads_on<S>(
    pipes: PipesView<S>,
    id: u128,
    path: Seq<char>,
    sender: S,
    delivered: Seq<bool>,
)
    ensures
        pipes.leads_to(pipes.attached(id, path, sender)),
        pipes.leads_to(pipes.pruned(path, delivered)),
{
    let after = pipes.attached(id, path, sender);
    assert forall|other: Seq<char>| #[trigger] pipes.by_path.contains_key(other) implies after.by_path.contains_key(
        other,
    ) && pipes.by_path[other].senders.is_prefix_of(after.by_path[other].senders) by {
        let x = pipes.by_path[other].senders;
        assert(x =~= x.push(sender).subrange(0, x.len() as int));
        assert(x =~= x.subrange(0, x.len() as int));
    }
}

/// Whatever happens to the listeners, every path that is known has one.
pub proof fn law_every_pipe_is_heard<S>(
    pipes: PipesView<S>,
    id: u128,
    path: Seq<char>,
    sender: S,
    delivered: Seq<bool>,
)
    requires
        pipes.all_heard(),
    ensures
        pipes.attached(id, path, sender).all_heard(),
        pipes.pruned(path, delivered).all_heard(),
{
    if pipes.by_path.contains_key(path) {
        lemma_kept_len(pipes.by_path[path].senders, delivered);
    }
    let after = pipes.pruned(path, delivered);
    assert forall|other: Seq<char>| #[trigger] after.by_path.contains_key(other) implies after.by_path[other].senders.len()
        > 0 by {
        assert(pipes.by_path.contains_key(other));
    }
    let joined = pipes.attached(id, path, sender);
    assert forall|other: Seq<char>| #[trigger] joined.by_path.contains_key(other) implies joined.by_path[other].senders.len()
        > 0 by {
        if other != path {
            assert(pipes.by_path.contains_key(other));
        }
    }
}

/// Who starts to listen on a path listens on it, and nobody stops listening on
/// that account.
pub proof fn law_who_joins_listens<S>(
    pipes: PipesView<S>,
    id: u128,
    path: Seq<char>,
    sender: S,
    other_path: Seq<char>,
    other: S,
)
    ensures
        pipes.attached(id, path, sender).listening(path, sender),
        pipes.listening(other_path, other) ==> pipes.attached(id, path, sender).listening(
            other_path,
            other,
        ),
{
    let after = pipes.attached(id, path, sender);
    let now = after.by_path[path].senders;
    assert(now[now.len() - 1] == sender);
    if pipes.listening(other_path, other) && other_path == path {
        let before = pipes.by_path[path].senders;
        let i = choose|i: int| 0 <= i < before.len() && before[i] == other;
        assert(now[i] == other);
    }
}

/// Who listens on a path still does in any later state before the next removal.
pub proof fn law_listening_lasts<S>(
    pipes: PipesView<S>,
    later: PipesView<S>,
    path: Seq<char>,
    sender: S,
)
    requires
        pipes.leads_to(later),
        pipes.counter == later.counter,
        pipes.listening(path, sender),
    ensures
        later.listening(path, sender),
{
    let x = pipes.by_path[path].senders;
    let y = later.by_path[path].senders;
    let i = choose|i: int| 0 <= i < x.len() && x[i] == sender;
    assert(x[i] == y.subrange(0, x.len() as int)[i]);
    assert(y[i] == sender);
}

/// Something that happens to the listeners.
pub enum Step<S> {
    /// `sender` joins `path`, with the request `id`.
    Join { id: u128, path: Seq<char>, sender: S },
    /// Those that a delivery on `path` found gone are removed.
    Prune { path: Seq<char>, delivered: Seq<bool> },
}

impl<S> PipesView<S> {
    /// After one step.
    pub open spec fn after(self, step: Step<S>) -> PipesView<S> {
        match step {
            Step::Join { id, path, sender } => self.attached(id, path, sender),
            Step::Prune { path, delivered } => self.pruned(path, delivered),
        }
    }

    /// A step that can be taken: whoever was reached is there.
    pub open spec fn can_take(self, step: Step<S>) -> bool {
        match step {
            Step::Join { .. } => true,
            Step::Prune { path, delivered } => self.by_path.contains_key(path) ==> within(
                delivered,
                self.by_path[path].senders.len(),
            ),
        }
    }

    /// After some steps from the start.
    pub open spec fn after_all(steps: Seq<Step<S>>) -> PipesView<S>
        decreases steps.len(),
    {
        if steps.len() == 0 {
            PipesView::empty()
        } else {
            PipesView::after_all(steps.drop_last()).after(steps.last())
        }
    }
}

/// A delivery found `sender` gone from `path`, and this step removes it.
pub open spec fn finds_gone<S>(
    pipes: PipesView<S>,
    step: Step<S>,
    path: Seq<char>,
    sender: S,
) -> bool {
    match step {
        Step::Join { .. } => false,
        Step::Prune { path: p, delivered } => p == path && exists|i: int|
            0 <= i < delivered.len() && !delivered[i] && #[trigger] pipes.by_path[path].senders[i]
                == sender,
    }
}

/// Who listens on a path goes on listening, whatever happens, until a delivery
/// finds it gone.
pub proof fn law_only_the_gone_stop_listening<S>(
    pipes: PipesView<S>,
    step: Step<S>,
    path: Seq<char>,
    sender: S,
)
    requires
        pipes.can_take(step),
        pipes.listening(path, sender),
        !finds_gone(pipes, step, path, sender),
    ensures
        pipes.after(step).listening(path, sender),
{
    match step {
        Step::Join { id, path: p, sender: s } => {
            law_who_joins_listens(pipes, id, p, s, path, sender);
        },
        Step::Prune { path: p, delivered } => {
            if p == path {
                law_only_the_gone_are_removed(pipes, path, delivered, sender);
            }
        },
    }
}

/// `sender` joins `path` in this step.
pub open spec fn is_join<S>(step: Step<S>, path: Seq<char>, sender: S) -> bool {
    match step {
        Step::Join { id: _, path: p, sender: s } => p == path && s == sender,
        Step::Prune { .. } => false,
    }
}

/// `sender` joins `path` in one of the steps.
pub open spec fn joins<S>(steps: Seq<Step<S>>, path: Seq<char>, sender: S) -> bool {
    exists|k: int| 0 <= k < steps.len() && is_join(#[trigger] steps[k], path, sender)
}

/// Nothing is replayed: as long as a listener has not joined a path, nothing that
/// is posted to the path is sent to it, whatever else happens; and once it joins,
/// its turn is the one behind those of the others.
pub proof fn law_nothing_is_replayed<S>(
    steps: Seq<Step<S>>,
    id: u128,
    path: Seq<char>,
    sender: S,
    n: nat,
)
    requires
        forall|k: int|
            0 <= k < steps.len() ==> PipesView::after_all(steps.take(k)).can_take(#[trigger] steps[k]),
        !joins(steps, path, sender),
    ensures
        PipesView::after_all(steps).nth_listener(path, n) != Some(sender),
        PipesView::after_all(steps.push(Step::Join { id, path, sender })).nth_listener(path, n) == Some(
            sender,
        ) <==> n == if PipesView::after_all(steps).by_path.contains_key(path) {
            PipesView::after_all(steps).by_path[path].senders.len()
        } else {
            0
        },
{
    let now = PipesView::after_all(steps);
    lemma_not_joined(steps, path, sender);
    if now.by_path.contains_key(path) && n < now.by_path[path].senders.len() {
        assert(now.by_path[path].senders.contains(now.by_path[path].senders[n as int]));
    }
    assert(steps.push(Step::Join { id, path, sender }).drop_last() =~= steps);
}

proof fn lemma_not_joined<S>(steps: Seq<Step<S>>, path: Seq<char>, sender: S)
    requires
        forall|k: int|
            0 <= k < steps.len() ==> PipesView::after_all(steps.take(k)).can_take(#[trigger] steps[k]),
        !joins(steps, path, sender),
    ensures
        !PipesView::after_all(steps).listening(path, sender),
    decreases steps.len(),
{
    if steps.len() > 0 {
        let init = steps.drop_last();
        let last = steps.last();
        let before = PipesView::after_all(init);
        assert forall|k: int| 0 <= k < init.len() implies PipesView::after_all(
            init.take(k),
        ).can_take(#[trigger] init[k]) by {
            assert(init.take(k) =~= steps.take(k));
            assert(init[k] == steps[k]);
        }
        assert(!joins(init, path, sender)) by {
            if joins(init, path, sender) {
                let k = choose|k: int|
                    0 <= k < init.len() && is_join(#[trigger] init[k], path, sender);
                assert(steps[k] == init[k]);
            }
        }
        lemma_not_joined(init, path, sender);
        assert(steps.take(steps.len() - 1) =~= init);
        assert(before.can_take(steps[steps.len() - 1]));
        match last {
            Step::Join { id: _, path: p, sender: s } => {
                if before.after(last).listening(path, sender) && p == path {
                    let now = before.after(last).by_path[path].senders;
                    let i = choose|i: int| 0 <= i < now.len() && now[i] == sender;
                    if i < now.len() - 1 {
                        assert(before.by_path[path].senders[i] == sender);
                    } else {
                        assert(s == sender);
                    }
                }
            },
            Step::Prune { path: p, delivered } => {
                if p == path && before.by_path.contains_key(path) {
                    law_only_the_gone_are_removed(before, path, delivered, sender);
                }
            },
        }
    }
}

/// `sender` is a listener that was reached.
pub open spec fn was_reached<S>(senders: Seq<S>, delivered: Seq<bool>, sender: S) -> bool {
    exists|i: int| 0 <= i < delivered.len() && delivered[i] && #[trigger] senders[i] == sender
}

/// What is kept holds each listener that was reached, and no other.
pub proof fn law_kept_are_the_reached<S>(senders: Seq<S>, delivered: Seq<bool>, sender: S)
    ensures
        kept(senders, delivered).contains(sender) <==> was_reached(senders, delivered, sender),
    decreases delivered.len(),
{
    if delivered.len() > 0 {
        let init = delivered.drop_last();
        let n = delivered.len() - 1;
        law_kept_are_the_reached(senders, init, sender);
        let before = kept(senders, init);
        let now = kept(senders, delivered);
        if now.contains(sender) {
            let k = choose|k: int| 0 <= k < now.len() && now[k] == sender;
            if k < before.len() {
                assert(before[k] == sender);
                let i = choose|i: int|
                    0 <= i < init.len() && init[i] && #[trigger] senders[i] == sender;
                assert(delivered[i] && senders[i] == sender);
            } else {
                assert(delivered[n] && senders[n] == sender);
            }
        }
        if was_reached(senders, delivered, sender) {
            let i = choose|i: int|
                0 <= i < delivered.len() && delivered[i] && #[trigger] senders[i] == sender;
            if i < n {
                assert(init[i] && senders[i] == sender);
                let k = choose|k: int| 0 <= k < before.len() && before[k] == sender;
                assert(now[k] == sender);
            } else {
                assert(now[now.len() - 1] == sender);
            }
        }
    }
}

/// Removing listeners from one path leaves those that were reached on it, and all
/// the listeners of the other paths.
pub proof fn law_who_is_reached_stays<S>(
    pipes: PipesView<S>,
    path: Seq<char>,
    delivered: Seq<bool>,
    i: int,
    other_path: Seq<char>,
    other: S,
)
    requires
        pipes.by_path.contains_key(path),
        within(delivered, pipes.by_path[path].senders.len()),
        0 <= i < delivered.len(),
    ensures
        delivered[i] ==> pipes.pruned(path, delivered).listening(
            path,
            pipes.by_path[path].senders[i],
        ),
        other_path != path ==> pipes.pruned(path, delivered).listening(other_path, other)
            == pipes.listening(other_path, other),
{
    let senders = pipes.by_path[path].senders;
    if delivered[i] {
        law_kept_are_the_reached(senders, delivered, senders[i]);
        assert(was_reached(senders, delivered, senders[i]));
        let k = choose|k: int|
            0 <= k < kept(senders, delivered).len() && kept(senders, delivered)[k] == senders[i];
        assert(remaining(senders, delivered)[k] == senders[i]);
    }
}

/// Removing listeners leaves whoever joined the path since the delivery that found
/// them gone, even where that delivery reached nobody.
pub proof fn law_who_joined_meanwhile_stays<S>(
    pipes: PipesView<S>,
    path: Seq<char>,
    delivered: Seq<bool>,
    n: int,
)
    requires
        pipes.by_path.contains_key(path),
        delivered.len() <= n < pipes.by_path[path].senders.len(),
    ensures
        pipes.pruned(path, delivered).listening(path, pipes.by_path[path].senders[n]),
{
    let senders = pipes.by_path[path].senders;
    let rest = remaining(senders, delivered);
    assert(rest[kept(senders, delivered).len() + n - delivered.len()] == senders[n]);
}

/// Nobody is removed but a listener that the delivery did not reach: who listens
/// afterwards listened before, and who does not is one of those.
pub proof fn law_only_the_gone_are_removed<S>(
    pipes: PipesView<S>,
    path: Seq<char>,
    delivered: Seq<bool>,
    sender: S,
)
    requires
        pipes.by_path.contains_key(path),
        within(delivered, pipes.by_path[path].senders.len()),
    ensures
        pipes.pruned(path, delivered).listening(path, sender) ==> pipes.listening(path, sender),
        pipes.listening(path, sender) && !pipes.pruned(path, delivered).listening(path, sender)
            ==> exists|i: int|
            0 <= i < delivered.len() && !delivered[i] && #[trigger] pipes.by_path[path].senders[i]
                == sender,
{
    let senders = pipes.by_path[path].senders;
    let rest = remaining(senders, delivered);
    let first = kept(senders, delivered);
    if pipes.pruned(path, delivered).listening(path, sender) {
        let k = choose|k: int| 0 <= k < rest.len() && rest[k] == sender;
        if k < first.len() {
            assert(first[k] == sender);
            law_kept_are_the_reached(senders, delivered, sender);
            let i = choose|i: int|
                0 <= i < delivered.len() && delivered[i] && #[trigger] senders[i] == sender;
            assert(delivered[i]);
            assert(senders.contains(senders[i]));
        } else {
            assert(senders[k - first.len() + delivered.len()] == sender);
        }
    } else if pipes.listening(path, sender) {
        let i = choose|i: int| 0 <= i < senders.len() && senders[i] == sender;
        if i >= delivered.len() {
            law_who_joined_meanwhile_stays(pipes, path, delivered, i);
        } else {
            law_who_is_reached_stays(pipes, path, delivered, i, path, sender);
            assert(!delivered[i] && senders[i] == sender);
        }
    }
}

/// A path is forgotten exactly where nobody was reached on it and nobody has
/// joined since.
pub proof fn law_unheard_path_is_forgotten<S>(
    pipes: PipesView<S>,
    path: Seq<char>,
    delivered: Seq<bool>,
)
    requires
        pipes.by_path.contains_key(path),
    ensures
        !pipes.pruned(path, delivered).by_path.contains_key(path) <==> {
            &&& forall|i: int| 0 <= i < delivered.len() ==> !delivered[i]
            &&& pipes.by_path[path].senders.len() <= delivered.len()
        },
{
    let senders = pipes.by_path[path].senders;
    lemma_kept_len(senders, delivered);
    lemma_none_reached(delivered);
}

/// Nobody was reached where every delivery failed, and only there.
pub proof fn lemma_none_reached(delivered: Seq<bool>)
    ensures
        reached(delivered) == 0 <==> forall|i: int| 0 <= i < delivered.len() ==> !delivered[i],
    decreases delivered.len(),
{
    if delivered.len() > 0 {
        let init = delivered.drop_last();
        lemma_none_reached(init);
        assert(forall|i: int| 0 <= i < init.len() ==> init[i] == delivered[i]);
        assert(delivered.last() == delivered[delivered.len() - 1]);
        if reached(delivered) == 0 {
            assert forall|i: int| 0 <= i < delivered.len() implies !delivered[i] by {
                if i < init.len() {
                    assert(!init[i]);
                }
            }
        } else if reached(init) > 0 {
            let i = choose|i: int| 0 <= i < init.len() && init[i];
            assert(delivered[i]);
        }
    }
}

/// Where everyone was reached, all remain, in order.
pub proof fn law_all_reached_all_kept<S>(senders: Seq<S>, delivered: Seq<bool>)
    requires
        delivered.len() == senders.len(),
        forall|i: int| 0 <= i < delivered.len() ==> delivered[i],
    ensures
        remaining(senders, delivered) == senders,
        reached(delivered) == senders.len(),
{
    lemma_all_reached(senders, delivered);
    assert(remaining(senders, delivered) =~= kept(senders, delivered));
    assert(senders.take(delivered.len() as int) =~= senders);
}

proof fn lemma_all_reached<S>(senders: Seq<S>, delivered: Seq<bool>)
    requires
        delivered.len() <= senders.len(),
        forall|i: int| 0 <= i < delivered.len() ==> delivered[i],
    ensures
        kept(senders, delivered) == senders.take(delivered.len() as int),
        reached(delivered) == delivered.len(),
    decreases delivered.len(),
{
    if delivered.len() > 0 {
        assert(delivered[delivered.len() - 1]);
        lemma_all_reached(senders, delivered.drop_last());
        assert(senders.take(delivered.len() as int) =~= senders.take(delivered.len() - 1).push(
            senders[delivered.len() - 1],
        ));
    } else {
        assert(senders.take(0) =~= seq![]);
    }
}

/// As many listeners were reached as the delivery says.
pub proof fn law_reached_are_counted(delivered: Vec<bool>, r: usize, missed: bool, within_n: bool, n: usize)
    requires
        call_ensures(count_reached, (&delivered,), r),
        call_ensures(any_missed, (&delivered,), missed),
        call_ensures(reached_within, (&delivered, n), within_n),
    ensures
        r == delivered@.filter(|b: bool| b).len(),
        missed <==> exists|i: int| 0 <= i < delivered@.len() && !(#[trigger] delivered@[i]),
        within_n <==> forall|i: int| n <= i < delivered@.len() ==> !(#[trigger] delivered@[i]),
{
    lemma_reached_is_filtered(delivered@);
    if missed {
        let i = choose|i: int| 0 <= i < delivered@.len() && delivered@[i] == false;
        assert(!delivered@[i]);
    }
    if exists|i: int| 0 <= i < delivered@.len() && !(#[trigger] delivered@[i]) {
        let i = choose|i: int| 0 <= i < delivered@.len() && !(#[trigger] delivered@[i]);
        assert(delivered@[i] == false);
    }
}

/// How many were reached, counted directly.
pub proof fn lemma_reached_is_filtered(delivered: Seq<bool>)
    ensures
        reached(delivered) == delivered.filter(|b: bool| b).len(),
    decreases delivered.len(),
{
    reveal(Seq::filter);
    if delivered.len() > 0 {
        lemma_reached_is_filtered(delivered.drop_last());
    }
}

/// A listener remains where it was not found gone: it was reached, or it was not
/// there yet.
pub open spec fn stays(delivered: Seq<bool>, i: int) -> bool {
    i >= delivered.len() || delivered[i]
}

/// Those that remain are those that were not found gone, each once and in the order
/// in which they came. Their places are given back.
pub proof fn law_who_remains_keeps_its_place<S>(senders: Seq<S>, delivered: Seq<bool>) -> (r: Seq<
    int,
>)
    requires
        within(delivered, senders.len()),
    ensures
        r.len() == remaining(senders, delivered).len(),
        forall|k: int|
            0 <= k < r.len() ==> 0 <= #[trigger] r[k] < senders.len() && stays(delivered, r[k])
                && remaining(senders, delivered)[k] == senders[r[k]],
        forall|k: int, l: int| 0 <= k < l < r.len() ==> r[k] < r[l],
        forall|i: int| 0 <= i < senders.len() && #[trigger] stays(delivered, i) ==> r.contains(i),
{
    let first = lemma_kept_places(senders, delivered);
    let more: Seq<int> = if delivered.len() <= senders.len() {
        Seq::new((senders.len() - delivered.len()) as nat, |k: int| delivered.len() + k)
    } else {
        seq![]
    };
    let r = first + more;
    assert forall|i: int| 0 <= i < senders.len() && #[trigger] stays(
        delivered,
        i,
    ) implies r.contains(i) by {
        if i < delivered.len() {
            let k = choose|k: int| 0 <= k < first.len() && first[k] == i;
            assert(r[k] == i);
        } else {
            assert(r[first.len() + i - delivered.len()] == i);
        }
    }
    r
}

proof fn lemma_kept_places<S>(senders: Seq<S>, delivered: Seq<bool>) -> (r: Seq<int>)
    requires
        within(delivered, senders.len()),
    ensures
        r.len() == kept(senders, delivered).len(),
        forall|k: int|
            0 <= k < r.len() ==> 0 <= #[trigger] r[k] < senders.len() && r[k] < delivered.len()
                && delivered[r[k]] && kept(senders, delivered)[k] == senders[r[k]],
        forall|k: int, l: int| 0 <= k < l < r.len() ==> r[k] < r[l],
        forall|i: int| 0 <= i < delivered.len() && #[trigger] delivered[i] ==> r.contains(i),
    decreases delivered.len(),
{
    if delivered.len() == 0 {
        seq![]
    } else {
        let init = delivered.drop_last();
        let n = delivered.len() - 1;
        assert forall|i: int| 0 <= i < init.len() && #[trigger] init[i] implies i < senders.len() by {
            assert(delivered[i]);
        }
        let before = lemma_kept_places(senders, init);
        let r = if delivered[n] {
            before.push(n)
        } else {
            before
        };
        assert forall|k: int| 0 <= k < r.len() implies 0 <= #[trigger] r[k] < senders.len() && r[k]
            < delivered.len() && delivered[r[k]] && kept(senders, delivered)[k] == senders[r[k]] by {
            if k < before.len() {
                assert(r[k] == before[k]);
                assert(init[before[k]] == delivered[before[k]]);
            }
        }
        assert forall|i: int| 0 <= i < delivered.len() && #[trigger] delivered[i] implies r.contains(
            i,
        ) by {
            if i < n {
                assert(init[i]);
                let k = choose|k: int| 0 <= k < before.len() && before[k] == i;
                assert(r[k] == i);
            } else {
                assert(r[before.len() as int] == n);
            }
        }
        r
    }
}

/// A listener that joins is found on its path, behind all who were there, who stay as they are; the pipe keeps its first
/// request; and no other path is touched, nor the count of removals.
pub proof fn law_who_joins_is_found<S>(
    pipes: &mut Pipes<S>,
    id: u128,
    path: &str,
    sender: S,
    other: &str,
    before: Option<&Pipe<S>>,
    after: Option<&Pipe<S>>,
    other_before: Option<&Pipe<S>>,
    other_after: Option<&Pipe<S>>,
    removals: usize,
    removals_after: usize,
)
    requires
        call_ensures(Pipes::<S>::get, (old(pipes), path), before),
        call_ensures(Pipes::<S>::get, (old(pipes), other), other_before),
        call_ensures(Pipes::<S>::counter, (old(pipes),), removals),
        call_ensures(Pipes::<S>::attach, (pipes, id, path, sender), ()),
        call_ensures(Pipes::<S>::get, (final(pipes), path), after),
        call_ensures(Pipes::<S>::get, (final(pipes), other), other_after),
        call_ensures(Pipes::<S>::counter, (final(pipes),), removals_after),
    ensures
        removals_after == removals,
        after matches Some(pipe) && pipe.path@ == path@ && match before {
            Some(was) => pipe.id == was.id && pipe.senders@ == was.senders@ + seq![sender],
            None => pipe.id == id && pipe.senders@ == seq![sender],
        },
        other@ != path@ ==> match other_before {
            Some(was) => other_after matches Some(now) && now.id == was.id && now.path@ == other@
                && now.senders@ == was.senders@,
            None => other_after is None,
        },
{
    if let Some(was) = before {
        assert(was@.senders.push(sender) =~= was.senders@ + seq![sender]);
    }
}

/// In a new table no path has listeners, and nothing has been removed.
pub proof fn law_nobody_listens_at_first<S>(
    pipes: Pipes<S>,
    path: &str,
    found: Option<&Pipe<S>>,
    removals: usize,
)
    requires
        call_ensures(Pipes::<S>::new, (), pipes),
        call_ensures(Pipes::<S>::get, (&pipes, path), found),
        call_ensures(Pipes::<S>::counter, (&pipes,), removals),
    ensures
        found is None,
        removals == 0,
{
}

/// After a removal, whoever was not found gone is still found on the path, in the
/// order in which they came, and nobody else is; where nobody is left, the path is
/// not found. The removal is counted, the pipe keeps its first request, and no
/// other path is touched. The places that those who are left had before are given
/// back.
pub proof fn law_who_is_not_gone_is_found<S>(
    pipes: &mut Pipes<S>,
    path: &str,
    delivered: Vec<bool>,
    i: int,
    other: &str,
    before: Option<&Pipe<S>>,
    after: Option<&Pipe<S>>,
    other_before: Option<&Pipe<S>>,
    other_after: Option<&Pipe<S>>,
    removals: usize,
    removals_after: usize,
) -> (places: Seq<int>)
    requires
        call_ensures(Pipes::<S>::get, (old(pipes), path), before),
        call_ensures(Pipes::<S>::get, (old(pipes), other), other_before),
        call_ensures(Pipes::<S>::counter, (old(pipes),), removals),
        call_ensures(Pipes::<S>::prune, (pipes, path, &delivered), ()),
        call_ensures(Pipes::<S>::get, (final(pipes), path), after),
        call_ensures(Pipes::<S>::get, (final(pipes), other), other_after),
        call_ensures(Pipes::<S>::counter, (final(pipes),), removals_after),
        before matches Some(was) ==> within(delivered@, was.senders@.len()),
    ensures
        removals_after == removals + 1,
        before is None ==> after is None,
        before matches Some(was) ==> 0 <= i < was.senders@.len() && stays(delivered@, i) ==> (
        after matches Some(now) && now.senders@.contains(was.senders@[i])),
        before matches Some(was) ==> (after matches Some(now) ==> {
            &&& now.id == was.id
            &&& now.path@ == path@
            &&& now.senders@.len() == places.len()
            &&& forall|k: int|
                0 <= k < places.len() ==> 0 <= #[trigger] places[k] < was.senders@.len() && stays(
                    delivered@,
                    places[k],
                ) && now.senders@[k] == was.senders@[places[k]]
            &&& forall|k: int, l: int| 0 <= k < l < places.len() ==> places[k] < places[l]
        }),
        before matches Some(was) ==> (after is None <==> forall|k: int|
            0 <= k < was.senders@.len() ==> !(#[trigger] stays(delivered@, k))),
        other@ != path@ ==> match other_before {
            Some(was) => other_after matches Some(now) && now.id == was.id && now.path@ == other@
                && now.senders@ == was.senders@,
            None => other_after is None,
        },
{
    if let Some(was) = before {
        let rest = remaining(was.senders@, delivered@);
        let places = law_who_remains_keeps_its_place(was.senders@, delivered@);
        if 0 <= i < was.senders@.len() && stays(delivered@, i) {
            let k = choose|k: int| 0 <= k < places.len() && places[k] == i;
            assert(rest[k] == was.senders@[places[k]]);
        }
        if rest.len() > 0 {
            assert(stays(delivered@, places[0]));
        } else {
            assert forall|k: int| 0 <= k < was.senders@.len() implies !(#[trigger] stays(
                delivered@,
                k,
            )) by {
                if stays(delivered@, k) {
                    assert(places.contains(k));
                }
            }
        }
        places
    } else {
        seq![]
    }
}

} // verus!
