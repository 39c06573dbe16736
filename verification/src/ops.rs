//! The host-op registry behind `MoonBit.opSync`, `opSyncBytes`, `opAsync` and
//! `opAsyncBytes`: which op names are registered, which have a host callback,
//! which responses are preloaded, and which op calls wait for the host.
use vstd::prelude::*;
use std::collections::HashMap;
use std::collections::VecDeque;
use crate::collections::{enumerates, AssocList, SameView};
use crate::errors::{BridgeError, BridgeErrorView, OpLane};

verus! {

broadcast use vstd::std_specs::hash::group_hash_axioms;

// ---------------------------------------------------------------------------
// Op ids
// ---------------------------------------------------------------------------

/// The id handed to the next op, and the counter value after it: a counter
/// of 0 hands out 1, and the counter wraps from `u64::MAX` back to 1.
pub open spec fn spec_next_op_id(counter: u64) -> (u64, u64) {
    let id: u64 = if counter == 0 { 1 } else { counter };
    let next: u64 = if id == u64::MAX { 1 } else { (id + 1) as u64 };
    (id, next)
}

/// Draws an op id from `counter`.
pub fn next_op_id(counter: &mut u64) -> (id: u64)
    ensures
        (id, *final(counter)) == spec_next_op_id(*old(counter)),
{
    let op_id = if *counter == 0 {
        1
    } else {
        *counter
    };
    *counter = match op_id.checked_add(1) {
        Some(next) => next,
        None => 1,
    };
    op_id
}

/// An op id is never 0, and neither is the counter after drawing one.
pub proof fn law_op_ids_are_nonzero(counter: u64)
    ensures
        spec_next_op_id(counter).0 != 0,
        spec_next_op_id(counter).1 != 0,
{
}

// ---------------------------------------------------------------------------
// Names
// ---------------------------------------------------------------------------

/// The set of registered op names.
pub open spec fn name_set(m: Map<Seq<char>, ()>) -> Set<Seq<char>> {
    m.dom()
}

/// Queues of preloaded responses, taken by their views.
pub open spec fn response_views<P: View>(m: Map<(Seq<char>, P::V), VecDeque<P>>) -> Map<
    (Seq<char>, P::V),
    Seq<P::V>,
> {
    m.map_values(|q: VecDeque<P>| q@.map_values(|x: P| x@))
}

// ---------------------------------------------------------------------------
// Synchronous lanes
// ---------------------------------------------------------------------------

/// A synchronous op call as recorded for the host to inspect.
pub struct SyncOp<P> {
    pub name: String,
    pub payload: P,
}

/// Where the answer to a synchronous op call comes from.
pub enum SyncResponse<C, P> {
    /// The host callback registered for the op name answers it.
    Callback(C),
    /// A response preloaded for this name and payload answers it.
    Preloaded(P),
}

/// `SyncResponse` with the preloaded payload taken by its view.
pub enum SyncResponseView<C, PV> {
    Callback(C),
    Preloaded(PV),
}

impl<C: Copy, P: View> View for SyncResponse<C, P> {
    type V = SyncResponseView<C, P::V>;

    open spec fn view(&self) -> SyncResponseView<C, P::V> {
        match self {
            SyncResponse::Callback(c) => SyncResponseView::Callback(*c),
            SyncResponse::Preloaded(p) => SyncResponseView::Preloaded(p@),
        }
    }
}

/// The abstract state of a synchronous lane.
#[verifier::reject_recursive_types(PV)]
#[verifier::ext_equal]
pub struct SyncLaneState<PV, C> {
    pub lane: OpLane,
    pub registered: Set<Seq<char>>,
    pub callbacks: Map<Seq<char>, C>,
    pub responses: Map<(Seq<char>, PV), Seq<PV>>,
    pub queued: Seq<u64>,
    pub completed: Map<u64, (Seq<char>, PV)>,
    pub next_id: u64,
    pub wrapped: bool,
}

/// Until the id counter wraps, every recorded and every queued op id is below
/// the id the counter hands out next.
pub open spec fn sync_ids_below_counter<PV, C>(s: SyncLaneState<PV, C>) -> bool {
    !s.wrapped ==> {
        &&& forall|k: u64| #[trigger] s.completed.contains_key(k) ==> k < spec_next_op_id(
            s.next_id,
        ).0
        &&& forall|i: int| 0 <= i < s.queued.len() ==> #[trigger] s.queued[i] < spec_next_op_id(
            s.next_id,
        ).0
    }
}

/// The state after registering `name`.
pub open spec fn sync_register<PV, C>(s: SyncLaneState<PV, C>, name: Seq<char>) -> SyncLaneState<
    PV,
    C,
> {
    SyncLaneState { registered: s.registered.insert(name), ..s }
}

/// The state after registering `callback` as the host callback for `name`
/// (which registers `name` too).
pub open spec fn sync_register_callback<PV, C>(
    s: SyncLaneState<PV, C>,
    name: Seq<char>,
    callback: C,
) -> SyncLaneState<PV, C> {
    SyncLaneState {
        registered: s.registered.insert(name),
        callbacks: s.callbacks.insert(name, callback),
        ..s
    }
}

/// The queue of responses preloaded for `key` (empty when there is none).
pub open spec fn queued_responses<PV>(m: Map<(Seq<char>, PV), Seq<PV>>, key: (Seq<char>, PV)) -> Seq<
    PV,
> {
    if m.contains_key(key) {
        m[key]
    } else {
        Seq::empty()
    }
}

/// The state after preloading `response` for calls of `name` with `payload`.
pub open spec fn sync_push_response<PV, C>(
    s: SyncLaneState<PV, C>,
    name: Seq<char>,
    payload: PV,
    response: PV,
) -> SyncLaneState<PV, C> {
    let key = (name, payload);
    SyncLaneState {
        responses: s.responses.insert(key, queued_responses(s.responses, key).push(response)),
        ..s
    }
}

/// What a call of the op `name` with `payload` does to the lane, and what
/// answers it.
///
/// An unregistered name is refused and changes nothing. Otherwise the call is
/// recorded under a fresh id, which is queued for the host; it is answered by
/// the name's callback if there is one, else by the first response preloaded
/// for this name and payload (which is used up; an emptied queue is dropped),
/// and is refused when there is none.
pub open spec fn sync_dispatch<PV, C>(s: SyncLaneState<PV, C>, name: Seq<char>, payload: PV) -> (
    SyncLaneState<PV, C>,
    Result<SyncResponseView<C, PV>, BridgeErrorView>,
) {
    if !s.registered.contains(name) {
        (s, Err(BridgeErrorView::OpNotRegistered(s.lane, name)))
    } else {
        let (id, next) = spec_next_op_id(s.next_id);
        let recorded = SyncLaneState {
            queued: s.queued.push(id),
            completed: s.completed.insert(id, (name, payload)),
            next_id: next,
            wrapped: s.wrapped || id == u64::MAX,
            ..s
        };
        if s.callbacks.contains_key(name) {
            (recorded, Ok(SyncResponseView::Callback(s.callbacks[name])))
        } else {
            let key = (name, payload);
            if s.responses.contains_key(key) && s.responses[key].len() > 0 {
                let q = s.responses[key];
                let rest = q.drop_first();
                let responses = if rest.len() == 0 {
                    s.responses.remove(key)
                } else {
                    s.responses.insert(key, rest)
                };
                (
                    SyncLaneState { responses, ..recorded },
                    Ok(SyncResponseView::Preloaded(q[0])),
                )
            } else {
                (recorded, Err(BridgeErrorView::NoQueuedResponse(s.lane, name)))
            }
        }
    }
}

/// The state after the host takes the oldest queued op id, and that id (0
/// when nothing is queued).
pub open spec fn sync_take<PV, C>(s: SyncLaneState<PV, C>) -> (SyncLaneState<PV, C>, u64) {
    if s.queued.len() == 0 {
        (s, 0)
    } else {
        (SyncLaneState { queued: s.queued.drop_first(), ..s }, s.queued[0])
    }
}

/// The state after the host discards the record of op `id`.
pub open spec fn sync_delete<PV, C>(s: SyncLaneState<PV, C>, id: u64) -> SyncLaneState<PV, C> {
    if id == 0 {
        s
    } else {
        SyncLaneState { completed: s.completed.remove(id), ..s }
    }
}

/// The record of op `id`: refused for id 0 and for ids with no record.
pub open spec fn sync_lookup<PV, C>(s: SyncLaneState<PV, C>, id: u64) -> Result<
    (Seq<char>, PV),
    BridgeErrorView,
> {
    if id == 0 {
        Err(BridgeErrorView::InvalidOpId(s.lane))
    } else if !s.completed.contains_key(id) {
        Err(BridgeErrorView::OpClosed(s.lane))
    } else {
        Ok(s.completed[id])
    }
}

/// The registry of one synchronous lane (`opSync` with JSON payloads, or
/// `opSyncBytes` with byte payloads).
pub struct SyncLane<P: SameView, C> {
    lane: OpLane,
    registered: AssocList<String, ()>,
    callbacks: AssocList<String, C>,
    responses: AssocList<(String, P), VecDeque<P>>,
    queued: VecDeque<u64>,
    completed: HashMap<u64, SyncOp<P>>,
    next_id: u64,
    wrapped: Ghost<bool>,
}

impl<P: SameView, C: Copy> View for SyncLane<P, C> {
    type V = SyncLaneState<P::V, C>;

    closed spec fn view(&self) -> SyncLaneState<P::V, C> {
        SyncLaneState {
            lane: self.lane,
            registered: name_set(self.registered@),
            callbacks: self.callbacks@,
            responses: response_views(self.responses@),
            queued: self.queued@,
            completed: self.completed@.map_values(|op: SyncOp<P>| (op.name@, op.payload@)),
            next_id: self.next_id,
            wrapped: self.wrapped@,
        }
    }
}

impl<P: SameView, C: Copy> SyncLane<P, C> {
    /// The internal lists are well formed.
    pub closed spec fn wf(&self) -> bool {
        &&& self.registered.wf()
        &&& self.callbacks.wf()
        &&& self.responses.wf()
        &&& sync_ids_below_counter(self@)
    }

    /// An empty lane named `lane`.
    pub fn new(lane: OpLane) -> (r: Self)
        ensures
            r.wf(),
            r@.lane == lane,
            r@.registered == Set::<Seq<char>>::empty(),
            r@.callbacks == Map::<Seq<char>, C>::empty(),
            r@.responses == Map::<(Seq<char>, P::V), Seq<P::V>>::empty(),
            r@.queued == Seq::<u64>::empty(),
            r@.completed == Map::<u64, (Seq<char>, P::V)>::empty(),
            r@.next_id == 0,
            !r@.wrapped,
    {
        let r = SyncLane {
            lane,
            registered: AssocList::new(),
            callbacks: AssocList::new(),
            responses: AssocList::new(),
            queued: VecDeque::new(),
            completed: HashMap::new(),
            next_id: 0,
            wrapped: Ghost(false),
        };
        assert(r@.registered =~= Set::<Seq<char>>::empty());
        assert(r@.responses =~= Map::<(Seq<char>, P::V), Seq<P::V>>::empty());
        assert(r@.completed =~= Map::<u64, (Seq<char>, P::V)>::empty());
        r
    }

    /// Copies of all registered host callbacks.
    pub fn callback_list(&self) -> (r: Vec<C>)
        requires
            self.wf(),
        ensures
            enumerates(self@.callbacks, r@),
    {
        self.callbacks.copied_values()
    }

    /// Whether `name` is registered.
    pub fn is_registered(&self, name: &String) -> (r: bool)
        requires
            self.wf(),
        ensures
            r == self@.registered.contains(name@),
    {
        self.registered.contains(name)
    }

    /// Registers the op `name`.
    pub fn register(&mut self, name: String)
        requires
            old(self).wf(),
        ensures
            final(self).wf(),
            final(self)@ == sync_register(old(self)@, name@),
    {
        let ghost before = self@;
        self.registered.insert(name, ());
        assert(self@.registered =~= before.registered.insert(name@));
        assert(self@ =~= sync_register(before, name@));
    }

    /// Registers `callback` for `name`, returning the callback it replaces.
    pub fn register_callback(&mut self, name: String, callback: C) -> (previous: Option<C>)
        requires
            old(self).wf(),
        ensures
            final(self).wf(),
            final(self)@ == sync_register_callback(old(self)@, name@, callback),
            previous == (if old(self)@.callbacks.contains_key(name@) {
                Some(old(self)@.callbacks[name@])
            } else {
                None
            }),
    {
        let ghost before = self@;
        let key = name.duplicate();
        let previous = self.callbacks.insert(name, callback);
        self.registered.insert(key, ());
        assert(self@.registered =~= before.registered.insert(name@));
        assert(self@ =~= sync_register_callback(before, name@, callback));
        previous
    }

    /// Preloads `response` as an answer to a later call of `name` with `payload`.
    pub fn push_response(&mut self, name: String, payload: P, response: P)
        requires
            old(self).wf(),
        ensures
            final(self).wf(),
            final(self)@ == sync_push_response(old(self)@, name@, payload@, response@),
    {
        let ghost before = self@;
        let ghost key_view = (name@, payload@);
        let key = (name, payload);
        let mut queue = match self.responses.remove(&key) {
            Some(q) => q,
            None => VecDeque::new(),
        };
        let ghost old_q = queue@.map_values(|x: P| x@);
        assert(old_q =~= queued_responses(before.responses, key_view));
        queue.push_back(response);
        assert(queue@.map_values(|x: P| x@) =~= old_q.push(response@));
        self.responses.insert(key, queue);
        assert(self@.responses =~= before.responses.insert(key_view, old_q.push(response@)));
        assert(self@ =~= sync_push_response(before, name@, payload@, response@));
    }

    /// Handles a call of the op `name` with `payload` (see `sync_dispatch`).
    pub fn dispatch(&mut self, name: String, payload: P) -> (r: Result<
        SyncResponse<C, P>,
        BridgeError,
    >)
        requires
            old(self).wf(),
        ensures
            final(self).wf(),
            (final(self)@, match r {
                Ok(resp) => Ok(resp@),
                Err(e) => Err(e@),
            }) == sync_dispatch(old(self)@, name@, payload@),
            old(self)@.registered.contains(name@) && !old(self)@.wrapped ==> ({
                let id = spec_next_op_id(old(self)@.next_id).0;
                &&& !old(self)@.completed.contains_key(id)
                &&& !old(self)@.queued.contains(id)
            }),
    {
        let ghost before = self@;
        if !self.registered.contains(&name) {
            return Err(BridgeError::OpNotRegistered(self.lane, name));
        }
        proof {
            lemma_sync_dispatch_keeps_ids_below(before, name@, payload@);
            self.wrapped@ = self.wrapped@ || spec_next_op_id(self.next_id).0 == u64::MAX;
        }
        let op_id = next_op_id(&mut self.next_id);
        self.queued.push_back(op_id);
        let record = SyncOp { name: name.duplicate(), payload: payload.duplicate() };
        self.completed.insert(op_id, record);
        let ghost recorded = self@;
        proof {
            assert(recorded.completed =~= before.completed.insert(op_id, (name@, payload@)));
        }
        match self.callbacks.get(&name) {
            Some(callback) => {
                assert(self@ =~= sync_dispatch(before, name@, payload@).0);
                return Ok(SyncResponse::Callback(*callback));
            },
            None => {},
        }
        let ghost key_view = (name@, payload@);
        let error_name = name.duplicate();
        let key = (name, payload);
        match self.responses.remove(&key) {
            Some(mut queue) => {
                let ghost q = queue@.map_values(|x: P| x@);
                match queue.pop_front() {
                    Some(response) => {
                        let ghost rest = queue@.map_values(|x: P| x@);
                        assert(rest =~= q.drop_first());
                        if queue.len() > 0 {
                            self.responses.insert(key, queue);
                            assert(self@.responses =~= before.responses.insert(key_view, rest));
                        } else {
                            assert(self@.responses =~= before.responses.remove(key_view));
                        }
                        assert(self@ =~= sync_dispatch(before, key_view.0, key_view.1).0);
                        Ok(SyncResponse::Preloaded(response))
                    },
                    None => {
                        self.responses.insert(key, queue);
                        assert(self@.responses =~= before.responses);
                        assert(self@ =~= sync_dispatch(before, key_view.0, key_view.1).0);
                        Err(BridgeError::NoQueuedResponse(self.lane, error_name))
                    },
                }
            },
            None => {
                assert(self@ =~= sync_dispatch(before, key_view.0, key_view.1).0);
                Err(BridgeError::NoQueuedResponse(self.lane, error_name))
            },
        }
    }

    /// Takes the oldest queued op id, or 0 when nothing is queued.
    pub fn take(&mut self) -> (id: u64)
        requires
            old(self).wf(),
        ensures
            final(self).wf(),
            (final(self)@, id) == sync_take(old(self)@),
    {
        let ghost before = self@;
        match self.queued.pop_front() {
            Some(id) => {
                assert(self@.queued =~= before.queued.drop_first());
                assert forall|i: int| 0 <= i < self@.queued.len() implies #[trigger] self@.queued[i]
                    == before.queued[i + 1] by {}
                assert(self@.next_id == before.next_id && self@.wrapped == before.wrapped);
                assert(self@.completed == before.completed);
                id
            },
            None => 0,
        }
    }

    /// The recorded call with id `id`.
    pub fn lookup(&self, id: u64) -> (r: Result<&SyncOp<P>, BridgeError>)
        requires
            self.wf(),
        ensures
            match r {
                Ok(op) => sync_lookup(self@, id) == Ok::<(Seq<char>, P::V), BridgeErrorView>(
                    (op.name@, op.payload@),
                ),
                Err(e) => sync_lookup(self@, id) == Err::<(Seq<char>, P::V), BridgeErrorView>(e@),
            },
    {
        if id == 0 {
            return Err(BridgeError::InvalidOpId(self.lane));
        }
        match self.completed.get(&id) {
            Some(op) => Ok(op),
            None => Err(BridgeError::OpClosed(self.lane)),
        }
    }

    /// Discards the record of op `id` (nothing happens for id 0).
    pub fn delete(&mut self, id: u64)
        requires
            old(self).wf(),
        ensures
            final(self).wf(),
            final(self)@ == sync_delete(old(self)@, id),
    {
        let ghost before = self@;
        if id != 0 {
            self.completed.remove(&id);
            assert(self@.completed =~= before.completed.remove(id));
        }
    }
}

// ---------------------------------------------------------------------------
// Asynchronous lanes
// ---------------------------------------------------------------------------

/// An asynchronous op call waiting for the host to settle it; `resolver`
/// settles the promise that the script holds.
pub struct AsyncOp<P, R> {
    pub name: String,
    pub payload: P,
    pub resolver: R,
}

/// The abstract state of an asynchronous lane.
#[verifier::reject_recursive_types(PV)]
#[verifier::ext_equal]
pub struct AsyncLaneState<PV, C, R> {
    pub lane: OpLane,
    pub registered: Set<Seq<char>>,
    pub callbacks: Map<Seq<char>, C>,
    pub queued: Seq<u64>,
    pub pending: Map<u64, (Seq<char>, PV, R)>,
    pub next_id: u64,
    pub wrapped: bool,
}

/// Until the id counter wraps, every pending and every queued op id is below
/// the id the counter hands out next.
pub open spec fn async_ids_below_counter<PV, C, R>(s: AsyncLaneState<PV, C, R>) -> bool {
    !s.wrapped ==> {
        &&& forall|k: u64| #[trigger] s.pending.contains_key(k) ==> k < spec_next_op_id(
            s.next_id,
        ).0
        &&& forall|i: int| 0 <= i < s.queued.len() ==> #[trigger] s.queued[i] < spec_next_op_id(
            s.next_id,
        ).0
    }
}

/// The state after registering `name`.
pub open spec fn async_register<PV, C, R>(s: AsyncLaneState<PV, C, R>, name: Seq<char>) -> AsyncLaneState<
    PV,
    C,
    R,
> {
    AsyncLaneState { registered: s.registered.insert(name), ..s }
}

/// The state after registering `callback` as the host callback for `name`
/// (which registers `name` too).
pub open spec fn async_register_callback<PV, C, R>(
    s: AsyncLaneState<PV, C, R>,
    name: Seq<char>,
    callback: C,
) -> AsyncLaneState<PV, C, R> {
    AsyncLaneState {
        registered: s.registered.insert(name),
        callbacks: s.callbacks.insert(name, callback),
        ..s
    }
}

/// How a call of the op `name` is handled: refused when the name is not
/// registered, answered by its callback when there is one, and queued for the
/// host (`None`) otherwise.
pub open spec fn async_route<PV, C, R>(s: AsyncLaneState<PV, C, R>, name: Seq<char>) -> Result<
    Option<C>,
    BridgeErrorView,
> {
    if !s.registered.contains(name) {
        Err(BridgeErrorView::OpNotRegistered(s.lane, name))
    } else if s.callbacks.contains_key(name) {
        Ok(Some(s.callbacks[name]))
    } else {
        Ok(None)
    }
}

/// The state after queueing a call of `name` with `payload` for the host, and
/// the call's id.
pub open spec fn async_enqueue<PV, C, R>(
    s: AsyncLaneState<PV, C, R>,
    name: Seq<char>,
    payload: PV,
    resolver: R,
) -> (AsyncLaneState<PV, C, R>, u64) {
    let (id, next) = spec_next_op_id(s.next_id);
    (
        AsyncLaneState {
            queued: s.queued.push(id),
            pending: s.pending.insert(id, (name, payload, resolver)),
            next_id: next,
            wrapped: s.wrapped || id == u64::MAX,
            ..s
        },
        id,
    )
}

/// The state after the host takes the oldest queued op id, and that id (0
/// when nothing is queued).
pub open spec fn async_take<PV, C, R>(s: AsyncLaneState<PV, C, R>) -> (AsyncLaneState<PV, C, R>, u64) {
    if s.queued.len() == 0 {
        (s, 0)
    } else {
        (AsyncLaneState { queued: s.queued.drop_first(), ..s }, s.queued[0])
    }
}

/// The pending call with id `id`: refused for id 0 and for settled ids.
pub open spec fn async_lookup<PV, C, R>(s: AsyncLaneState<PV, C, R>, id: u64) -> Result<
    (Seq<char>, PV, R),
    BridgeErrorView,
> {
    if id == 0 {
        Err(BridgeErrorView::InvalidOpId(s.lane))
    } else if !s.pending.contains_key(id) {
        Err(BridgeErrorView::OpClosed(s.lane))
    } else {
        Ok(s.pending[id])
    }
}

/// The state once op `id` has been settled.
pub open spec fn async_finish<PV, C, R>(s: AsyncLaneState<PV, C, R>, id: u64) -> AsyncLaneState<
    PV,
    C,
    R,
> {
    AsyncLaneState { pending: s.pending.remove(id), ..s }
}

/// The registry of one asynchronous lane (`opAsync` with JSON payloads, or
/// `opAsyncBytes` with byte payloads).
pub struct AsyncLane<P: SameView, C, R> {
    lane: OpLane,
    registered: AssocList<String, ()>,
    callbacks: AssocList<String, C>,
    queued: VecDeque<u64>,
    pending: HashMap<u64, AsyncOp<P, R>>,
    next_id: u64,
    wrapped: Ghost<bool>,
}

impl<P: SameView, C: Copy, R> View for AsyncLane<P, C, R> {
    type V = AsyncLaneState<P::V, C, R>;

    closed spec fn view(&self) -> AsyncLaneState<P::V, C, R> {
        AsyncLaneState {
            lane: self.lane,
            registered: name_set(self.registered@),
            callbacks: self.callbacks@,
            queued: self.queued@,
            pending: self.pending@.map_values(
                |op: AsyncOp<P, R>| (op.name@, op.payload@, op.resolver),
            ),
            next_id: self.next_id,
            wrapped: self.wrapped@,
        }
    }
}

impl<P: SameView, C: Copy, R> AsyncLane<P, C, R> {
    /// The internal lists are well formed.
    pub closed spec fn wf(&self) -> bool {
        &&& self.registered.wf()
        &&& self.callbacks.wf()
        &&& async_ids_below_counter(self@)
    }

    /// An empty lane named `lane`.
    pub fn new(lane: OpLane) -> (r: Self)
        ensures
            r.wf(),
            r@.lane == lane,
            r@.registered == Set::<Seq<char>>::empty(),
            r@.callbacks == Map::<Seq<char>, C>::empty(),
            r@.queued == Seq::<u64>::empty(),
            r@.pending == Map::<u64, (Seq<char>, P::V, R)>::empty(),
            r@.next_id == 0,
            !r@.wrapped,
    {
        let r = AsyncLane {
            lane,
            registered: AssocList::new(),
            callbacks: AssocList::new(),
            queued: VecDeque::new(),
            pending: HashMap::new(),
            next_id: 0,
            wrapped: Ghost(false),
        };
        assert(r@.registered =~= Set::<Seq<char>>::empty());
        assert(r@.pending =~= Map::<u64, (Seq<char>, P::V, R)>::empty());
        r
    }

    /// Copies of all registered host callbacks.
    pub fn callback_list(&self) -> (r: Vec<C>)
        requires
            self.wf(),
        ensures
            enumerates(self@.callbacks, r@),
    {
        self.callbacks.copied_values()
    }

    /// Registers the op `name`.
    pub fn register(&mut self, name: String)
        requires
            old(self).wf(),
        ensures
            final(self).wf(),
            final(self)@ == async_register(old(self)@, name@),
    {
        let ghost before = self@;
        self.registered.insert(name, ());
        assert(self@.registered =~= before.registered.insert(name@));
        assert(self@ =~= async_register(before, name@));
    }

    /// Registers `callback` for `name`, returning the callback it replaces.
    pub fn register_callback(&mut self, name: String, callback: C) -> (previous: Option<C>)
        requires
            old(self).wf(),
        ensures
            final(self).wf(),
            final(self)@ == async_register_callback(old(self)@, name@, callback),
            previous == (if old(self)@.callbacks.contains_key(name@) {
                Some(old(self)@.callbacks[name@])
            } else {
                None
            }),
    {
        let ghost before = self@;
        let key = name.duplicate();
        let previous = self.callbacks.insert(name, callback);
        self.registered.insert(key, ());
        assert(self@.registered =~= before.registered.insert(name@));
        assert(self@ =~= async_register_callback(before, name@, callback));
        previous
    }

    /// Decides how a call of the op `name` is handled (see `async_route`).
    pub fn route(&self, name: &String) -> (r: Result<Option<C>, BridgeError>)
        requires
            self.wf(),
        ensures
            match r {
                Ok(c) => async_route(self@, name@) == Ok::<Option<C>, BridgeErrorView>(c),
                Err(e) => async_route(self@, name@) == Err::<Option<C>, BridgeErrorView>(e@),
            },
    {
        if !self.registered.contains(name) {
            return Err(BridgeError::OpNotRegistered(self.lane, name.duplicate()));
        }
        match self.callbacks.get(name) {
            Some(c) => Ok(Some(*c)),
            None => Ok(None),
        }
    }

    /// Queues a call of `name` with `payload` for the host and returns its id.
    pub fn enqueue(&mut self, name: String, payload: P, resolver: R) -> (id: u64)
        requires
            old(self).wf(),
        ensures
            final(self).wf(),
            (final(self)@, id) == async_enqueue(old(self)@, name@, payload@, resolver),
            !old(self)@.wrapped ==> !old(self)@.pending.contains_key(id) && !old(
                self,
            )@.queued.contains(id),
    {
        let ghost before = self@;
        let ghost entry = (name@, payload@, resolver);
        proof {
            lemma_async_enqueue_keeps_ids_below(before, entry.0, entry.1, entry.2);
            self.wrapped@ = self.wrapped@ || spec_next_op_id(self.next_id).0 == u64::MAX;
        }
        let op_id = next_op_id(&mut self.next_id);
        self.queued.push_back(op_id);
        self.pending.insert(op_id, AsyncOp { name, payload, resolver });
        assert(self@.pending =~= before.pending.insert(op_id, entry));
        assert(self@ =~= async_enqueue(before, entry.0, entry.1, entry.2).0);
        op_id
    }

    /// Takes the oldest queued op id, or 0 when nothing is queued.
    pub fn take(&mut self) -> (id: u64)
        requires
            old(self).wf(),
        ensures
            final(self).wf(),
            (final(self)@, id) == async_take(old(self)@),
    {
        let ghost before = self@;
        match self.queued.pop_front() {
            Some(id) => {
                assert(self@.queued =~= before.queued.drop_first());
                assert forall|i: int| 0 <= i < self@.queued.len() implies #[trigger] self@.queued[i]
                    == before.queued[i + 1] by {}
                assert(self@.next_id == before.next_id && self@.wrapped == before.wrapped);
                assert(self@.pending == before.pending);
                id
            },
            None => 0,
        }
    }

    /// The pending call with id `id`.
    pub fn lookup(&self, id: u64) -> (r: Result<&AsyncOp<P, R>, BridgeError>)
        requires
            self.wf(),
        ensures
            match r {
                Ok(op) => async_lookup(self@, id) == Ok::<(Seq<char>, P::V, R), BridgeErrorView>(
                    (op.name@, op.payload@, op.resolver),
                ),
                Err(e) => async_lookup(self@, id) == Err::<(Seq<char>, P::V, R), BridgeErrorView>(
                    e@,
                ),
            },
    {
        if id == 0 {
            return Err(BridgeError::InvalidOpId(self.lane));
        }
        match self.pending.get(&id) {
            Some(op) => Ok(op),
            None => Err(BridgeError::OpClosed(self.lane)),
        }
    }

    /// Drops op `id` once its promise has been settled.
    pub fn finish(&mut self, id: u64)
        requires
            old(self).wf(),
        ensures
            final(self).wf(),
            final(self)@ == async_finish(old(self)@, id),
    {
        let ghost before = self@;
        self.pending.remove(&id);
        assert(self@.pending =~= before.pending.remove(id));
        assert(self@ =~= async_finish(before, id));
    }
}

// ---------------------------------------------------------------------------
// The four lanes together
// ---------------------------------------------------------------------------

/// `all` lists the host callbacks of every lane of `store`, one for each op
/// name that has one: those of the sync JSON, sync bytes, async JSON and async
/// bytes lanes, in that order.
pub open spec fn lists_all_callbacks<C: Copy, R>(store: &OpStore<C, R>, all: Seq<C>) -> bool {
    exists|a: Seq<C>, b: Seq<C>, c: Seq<C>, d: Seq<C>|
        #![trigger concat4(a, b, c, d)]
        {
            &&& enumerates(store.sync_json@.callbacks, a)
            &&& enumerates(store.sync_bytes@.callbacks, b)
            &&& enumerates(store.async_json@.callbacks, c)
            &&& enumerates(store.async_bytes@.callbacks, d)
            &&& all == concat4(a, b, c, d)
        }
}

/// The four sequences one after the other.
pub open spec fn concat4<T>(a: Seq<T>, b: Seq<T>, c: Seq<T>, d: Seq<T>) -> Seq<T> {
    a + b + c + d
}

/// The op registry of one runtime: a JSON and a bytes lane for synchronous
/// calls, and a JSON and a bytes lane for asynchronous calls. `C` is the host
/// callback type, `R` the promise resolver type.
pub struct OpStore<C, R> {
    pub sync_json: SyncLane<String, C>,
    pub sync_bytes: SyncLane<Vec<u8>, C>,
    pub async_json: AsyncLane<String, C, R>,
    pub async_bytes: AsyncLane<Vec<u8>, C, R>,
}

impl<C: Copy, R> OpStore<C, R> {
    /// Every lane is well formed and carries its own name.
    pub open spec fn wf(&self) -> bool {
        &&& self.sync_json.wf()
        &&& self.sync_bytes.wf()
        &&& self.async_json.wf()
        &&& self.async_bytes.wf()
        &&& self.sync_json@.lane == OpLane::SyncJson
        &&& self.sync_bytes@.lane == OpLane::SyncBytes
        &&& self.async_json@.lane == OpLane::AsyncJson
        &&& self.async_bytes@.lane == OpLane::AsyncBytes
    }

    /// A registry with no ops, callbacks, responses or calls.
    pub fn new() -> (r: Self)
        ensures
            r.wf(),
            r.sync_json@.registered.is_empty(),
            r.sync_bytes@.registered.is_empty(),
            r.async_json@.registered.is_empty(),
            r.async_bytes@.registered.is_empty(),
            r.sync_json@.queued.len() == 0,
            r.sync_bytes@.queued.len() == 0,
            r.async_json@.queued.len() == 0,
            r.async_bytes@.queued.len() == 0,
            r.sync_json@.callbacks.is_empty(),
            r.sync_bytes@.callbacks.is_empty(),
            r.async_json@.callbacks.is_empty(),
            r.async_bytes@.callbacks.is_empty(),
    {
        OpStore {
            sync_json: SyncLane::new(OpLane::SyncJson),
            sync_bytes: SyncLane::new(OpLane::SyncBytes),
            async_json: AsyncLane::new(OpLane::AsyncJson),
            async_bytes: AsyncLane::new(OpLane::AsyncBytes),
        }
    }

    /// Copies of every host callback registered on any lane, one for each op
    /// name that has one (each holds a reference that is released when the
    /// registry goes away).
    pub fn all_callbacks(&self) -> (r: Vec<C>)
        requires
            self.wf(),
        ensures
            lists_all_callbacks(self, r@),
    {
        let mut all = self.sync_json.callback_list();
        let mut b = self.sync_bytes.callback_list();
        let mut c = self.async_json.callback_list();
        let mut d = self.async_bytes.callback_list();
        let ghost sa = all@;
        let ghost sb = b@;
        let ghost sc = c@;
        let ghost sd = d@;
        all.append(&mut b);
        all.append(&mut c);
        all.append(&mut d);
        assert(all@ =~= concat4(sa, sb, sc, sd));
        all
    }
}

// ---------------------------------------------------------------------------
// Fresh op ids
// ---------------------------------------------------------------------------

/// Dispatching a call of a registered name keeps `sync_ids_below_counter`,
/// and until the counter wraps the call's id is neither recorded nor queued.
proof fn lemma_sync_dispatch_keeps_ids_below<PV, C>(
    s: SyncLaneState<PV, C>,
    name: Seq<char>,
    payload: PV,
)
    requires
        sync_ids_below_counter(s),
        s.registered.contains(name),
    ensures
        sync_ids_below_counter(sync_dispatch(s, name, payload).0),
        !s.wrapped ==> ({
            let id = spec_next_op_id(s.next_id).0;
            &&& !s.completed.contains_key(id)
            &&& !s.queued.contains(id)
        }),
{
    let after = sync_dispatch(s, name, payload).0;
    let id = spec_next_op_id(s.next_id).0;
    assert(after.queued =~= s.queued.push(id));
    if !after.wrapped {
        assert(spec_next_op_id(after.next_id).0 == id + 1);
        assert forall|i: int| 0 <= i < after.queued.len() implies #[trigger] after.queued[i]
            < spec_next_op_id(after.next_id).0 by {
            if i < s.queued.len() {
                assert(after.queued[i] == s.queued[i]);
            }
        }
    }
    if !s.wrapped {
        assert(!s.queued.contains(id)) by {
            if s.queued.contains(id) {
                let i = choose|i: int| 0 <= i < s.queued.len() && s.queued[i] == id;
                assert(s.queued[i] < id);
            }
        }
    }
}

/// Queueing a call keeps `async_ids_below_counter`, and until the counter
/// wraps the call's id is neither pending nor queued.
proof fn lemma_async_enqueue_keeps_ids_below<PV, C, R>(
    s: AsyncLaneState<PV, C, R>,
    name: Seq<char>,
    payload: PV,
    resolver: R,
)
    requires
        async_ids_below_counter(s),
    ensures
        async_ids_below_counter(async_enqueue(s, name, payload, resolver).0),
        !s.wrapped ==> ({
            let id = spec_next_op_id(s.next_id).0;
            &&& !s.pending.contains_key(id)
            &&& !s.queued.contains(id)
        }),
{
    let (after, id) = async_enqueue(s, name, payload, resolver);
    assert(after.queued =~= s.queued.push(id));
    if !after.wrapped {
        assert(spec_next_op_id(after.next_id).0 == id + 1);
        assert forall|i: int| 0 <= i < after.queued.len() implies #[trigger] after.queued[i]
            < spec_next_op_id(after.next_id).0 by {
            if i < s.queued.len() {
                assert(after.queued[i] == s.queued[i]);
            }
        }
    }
    if !s.wrapped {
        assert(!s.queued.contains(id)) by {
            if s.queued.contains(id) {
                let i = choose|i: int| 0 <= i < s.queued.len() && s.queued[i] == id;
                assert(s.queued[i] < id);
            }
        }
    }
}

/// The state after `k` successive takes from a synchronous lane, and the ids
/// they returned, in order.
pub open spec fn sync_takes<PV, C>(s: SyncLaneState<PV, C>, k: nat) -> (SyncLaneState<PV, C>, Seq<
    u64,
>)
    decreases k,
{
    if k == 0 {
        (s, Seq::empty())
    } else {
        let (mid, ids) = sync_takes(s, (k - 1) as nat);
        let (after, id) = sync_take(mid);
        (after, ids.push(id))
    }
}

/// The state after `k` successive takes from an asynchronous lane, and the
/// ids they returned, in order.
pub open spec fn async_takes<PV, C, R>(s: AsyncLaneState<PV, C, R>, k: nat) -> (
    AsyncLaneState<PV, C, R>,
    Seq<u64>,
)
    decreases k,
{
    if k == 0 {
        (s, Seq::empty())
    } else {
        let (mid, ids) = async_takes(s, (k - 1) as nat);
        let (after, id) = async_take(mid);
        (after, ids.push(id))
    }
}

/// The smaller of two numbers.
pub open spec fn min_nat(a: nat, b: nat) -> nat {
    if a <= b {
        a
    } else {
        b
    }
}

/// Successive takes from a synchronous lane return the queued ids in the
/// order they were queued, then 0 once the queue is empty; taking changes
/// nothing but the queue, so a taken call stays recorded.
pub proof fn law_sync_takes_return_queue_in_order<PV, C>(s: SyncLaneState<PV, C>, k: nat)
    ensures
        ({
            let (after, ids) = sync_takes(s, k);
            &&& ids.len() == k
            &&& forall|i: int|
                0 <= i < k ==> #[trigger] ids[i] == (if i < s.queued.len() {
                    s.queued[i]
                } else {
                    0
                })
            &&& after == SyncLaneState {
                queued: s.queued.skip(min_nat(k, s.queued.len()) as int),
                ..s
            }
        }),
    decreases k,
{
    if k > 0 {
        law_sync_takes_return_queue_in_order(s, (k - 1) as nat);
        let (mid, ids) = sync_takes(s, (k - 1) as nat);
        let (after, all) = sync_takes(s, k);
        if k - 1 < s.queued.len() {
            assert(mid.queued[0] == s.queued[k - 1]);
            assert(mid.queued.drop_first() =~= s.queued.skip(k as int));
        } else {
            assert(mid.queued =~= s.queued.skip(s.queued.len() as int));
        }
        assert(after.queued =~= s.queued.skip(min_nat(k, s.queued.len()) as int));
        assert forall|i: int| 0 <= i < k implies #[trigger] all[i] == (if i < s.queued.len() {
            s.queued[i]
        } else {
            0
        }) by {
            if i < k - 1 {
                assert(all[i] == ids[i]);
            }
        }
    }
}

/// Successive takes from an asynchronous lane return the queued ids in the
/// order they were queued, then 0 once the queue is empty; taking changes
/// nothing but the queue, so a taken call stays pending until it is settled.
pub proof fn law_async_takes_return_queue_in_order<PV, C, R>(s: AsyncLaneState<PV, C, R>, k: nat)
    ensures
        ({
            let (after, ids) = async_takes(s, k);
            &&& ids.len() == k
            &&& forall|i: int|
                0 <= i < k ==> #[trigger] ids[i] == (if i < s.queued.len() {
                    s.queued[i]
                } else {
                    0
                })
            &&& after == AsyncLaneState {
                queued: s.queued.skip(min_nat(k, s.queued.len()) as int),
                ..s
            }
        }),
    decreases k,
{
    if k > 0 {
        law_async_takes_return_queue_in_order(s, (k - 1) as nat);
        let (mid, ids) = async_takes(s, (k - 1) as nat);
        let (after, all) = async_takes(s, k);
        if k - 1 < s.queued.len() {
            assert(mid.queued[0] == s.queued[k - 1]);
            assert(mid.queued.drop_first() =~= s.queued.skip(k as int));
        } else {
            assert(mid.queued =~= s.queued.skip(s.queued.len() as int));
        }
        assert(after.queued =~= s.queued.skip(min_nat(k, s.queued.len()) as int));
        assert forall|i: int| 0 <= i < k implies #[trigger] all[i] == (if i < s.queued.len() {
            s.queued[i]
        } else {
            0
        }) by {
            if i < k - 1 {
                assert(all[i] == ids[i]);
            }
        }
    }
}

/// Registering an op name, with or without a callback, changes how calls of
/// other names are answered in no way: a call of any other name gets the
/// answer it got before. Registering a plain name keeps the callbacks and
/// preloaded responses, so a call of an already registered name is answered
/// as before, too; in particular a callback registered earlier still answers.
pub proof fn law_sync_registration_leaves_other_answers<PV, C>(
    s: SyncLaneState<PV, C>,
    name: Seq<char>,
    callback: C,
    other: Seq<char>,
    payload: PV,
)
    ensures
        sync_register(s, name).callbacks == s.callbacks,
        sync_register(s, name).responses == s.responses,
        other != name || s.registered.contains(other) ==> sync_dispatch(
            sync_register(s, name),
            other,
            payload,
        ).1 == sync_dispatch(s, other, payload).1,
        other != name ==> sync_dispatch(sync_register_callback(s, name, callback), other, payload).1
            == sync_dispatch(s, other, payload).1,
        sync_dispatch(
            sync_register(sync_register_callback(s, other, callback), name),
            other,
            payload,
        ).1 == Ok::<SyncResponseView<C, PV>, BridgeErrorView>(SyncResponseView::Callback(callback)),
{
    let r = sync_register(s, name);
    if other == name && s.registered.contains(other) {
        assert(r.registered =~= s.registered);
    }
    let t = sync_register(sync_register_callback(s, other, callback), name);
    assert(t.callbacks[other] == callback);
}

/// Registering an op name, with or without a callback, leaves the routing of
/// every other name as it was; registering a plain name keeps the name's own
/// callback, if it has one.
pub proof fn law_async_registration_leaves_other_routes<PV, C, R>(
    s: AsyncLaneState<PV, C, R>,
    name: Seq<char>,
    callback: C,
    other: Seq<char>,
)
    ensures
        other != name ==> async_route(async_register(s, name), other) == async_route(s, other),
        other != name ==> async_route(async_register_callback(s, name, callback), other)
            == async_route(s, other),
        async_route(async_register(s, name), name) == (if s.callbacks.contains_key(name) {
            Ok::<Option<C>, BridgeErrorView>(Some(s.callbacks[name]))
        } else {
            Ok::<Option<C>, BridgeErrorView>(None)
        }),
        async_register_callback(s, name, callback).callbacks == s.callbacks.insert(name, callback),
        async_register(s, name).callbacks == s.callbacks,
{
}

/// Until its counter wraps, a lane never hands out an op id that is still
/// recorded (sync) or pending (async), or still queued; the lane keeps every
/// such id below its counter.
pub proof fn law_op_ids_are_fresh<PV, C, R>(
    sync: SyncLaneState<PV, C>,
    name: Seq<char>,
    payload: PV,
    lane: AsyncLaneState<PV, C, R>,
    resolver: R,
)
    requires
        sync_ids_below_counter(sync),
        sync.registered.contains(name),
        async_ids_below_counter(lane),
    ensures
        sync_ids_below_counter(sync_dispatch(sync, name, payload).0),
        !sync.wrapped ==> ({
            let id = spec_next_op_id(sync.next_id).0;
            &&& !sync.completed.contains_key(id)
            &&& !sync.queued.contains(id)
        }),
        async_ids_below_counter(async_enqueue(lane, name, payload, resolver).0),
        !lane.wrapped ==> ({
            let id = async_enqueue(lane, name, payload, resolver).1;
            &&& !lane.pending.contains_key(id)
            &&& !lane.queued.contains(id)
        }),
{
    lemma_sync_dispatch_keeps_ids_below(sync, name, payload);
    lemma_async_enqueue_keeps_ids_below(lane, name, payload, resolver);
}

// ---------------------------------------------------------------------------
// Laws of the op registry
// ---------------------------------------------------------------------------

/// Once `name` is registered, calls of it are never refused as unregistered.
pub proof fn law_sync_registered_op_is_accepted<PV, C>(
    s: SyncLaneState<PV, C>,
    name: Seq<char>,
    payload: PV,
)
    ensures
        sync_dispatch(sync_register(s, name), name, payload).1 != Err::<
            SyncResponseView<C, PV>,
            BridgeErrorView,
        >(BridgeErrorView::OpNotRegistered(s.lane, name)),
{
}

/// Once `callback` is registered for `name`, it answers every call of `name`.
pub proof fn law_sync_callback_answers<PV, C>(
    s: SyncLaneState<PV, C>,
    name: Seq<char>,
    callback: C,
    payload: PV,
)
    ensures
        sync_dispatch(sync_register_callback(s, name, callback), name, payload).1 == Ok::<
            SyncResponseView<C, PV>,
            BridgeErrorView,
        >(SyncResponseView::Callback(callback)),
{
}

/// Preloaded responses answer calls of a registered name without callback in
/// the order they were preloaded: after preloading `response`, the next call
/// with the same payload gets the oldest response queued for it (which is
/// `response` itself when none was queued before), and the other queues stay
/// as they were.
pub proof fn law_sync_preloaded_responses_are_fifo<PV, C>(
    s: SyncLaneState<PV, C>,
    name: Seq<char>,
    payload: PV,
    response: PV,
)
    requires
        s.registered.contains(name),
        !s.callbacks.contains_key(name),
    ensures
        ({
            let q = queued_responses(s.responses, (name, payload)).push(response);
            let (after, answer) = sync_dispatch(
                sync_push_response(s, name, payload, response),
                name,
                payload,
            );
            &&& answer == Ok::<SyncResponseView<C, PV>, BridgeErrorView>(
                SyncResponseView::Preloaded(q[0]),
            )
            &&& queued_responses(after.responses, (name, payload)) == q.drop_first()
            &&& forall|k: (Seq<char>, PV)|
                k != (name, payload) ==> queued_responses(after.responses, k) == queued_responses(
                    s.responses,
                    k,
                )
        }),
{
    let key = (name, payload);
    let q = queued_responses(s.responses, key).push(response);
    let pushed = sync_push_response(s, name, payload, response);
    assert(pushed.responses[key] == q);
    let after = sync_dispatch(pushed, name, payload).0;
    if q.drop_first().len() == 0 {
        assert(queued_responses(after.responses, key) =~= q.drop_first());
    }
}

/// A call of a registered name is recorded and queued: its id, never 0, joins
/// the end of the host's queue and looks up the call's name and payload; when
/// nothing else was queued, the host's next `take` yields it.
pub proof fn law_sync_dispatched_call_reaches_host<PV, C>(
    s: SyncLaneState<PV, C>,
    name: Seq<char>,
    payload: PV,
)
    requires
        s.registered.contains(name),
    ensures
        ({
            let after = sync_dispatch(s, name, payload).0;
            let id = spec_next_op_id(s.next_id).0;
            &&& id != 0
            &&& after.queued == s.queued.push(id)
            &&& sync_lookup(after, id) == Ok::<(Seq<char>, PV), BridgeErrorView>((name, payload))
            &&& s.queued.len() == 0 ==> sync_take(after).1 == id
        }),
{
    let after = sync_dispatch(s, name, payload).0;
    let id = spec_next_op_id(s.next_id).0;
    assert(after.queued =~= s.queued.push(id));
}

/// The host takes queued op ids oldest first.
pub proof fn law_sync_take_is_fifo<PV, C>(s: SyncLaneState<PV, C>)
    requires
        s.queued.len() > 0,
    ensures
        sync_take(s).1 == s.queued[0],
        sync_take(s).0.queued == s.queued.drop_first(),
{
}

/// A deleted op record can no longer be looked up.
pub proof fn law_sync_deleted_op_is_closed<PV, C>(s: SyncLaneState<PV, C>, id: u64)
    requires
        id != 0,
    ensures
        sync_lookup(sync_delete(s, id), id) == Err::<(Seq<char>, PV), BridgeErrorView>(
            BridgeErrorView::OpClosed(s.lane),
        ),
{
}

/// Once `name` is registered on an asynchronous lane, calls of it are routed
/// (to its callback, or to the host's queue) and never refused.
pub proof fn law_async_registered_op_is_routed<PV, C, R>(
    s: AsyncLaneState<PV, C, R>,
    name: Seq<char>,
    callback: C,
)
    ensures
        async_route(async_register(s, name), name) is Ok,
        async_route(async_register_callback(s, name, callback), name) == Ok::<
            Option<C>,
            BridgeErrorView,
        >(Some(callback)),
{
}

/// A queued asynchronous call reaches the host and stays pending until it is
/// settled: its id, never 0, joins the end of the host's queue and looks up
/// the call's name, payload and resolver until `finish` closes it; when
/// nothing else was queued, the host's next `take` yields it.
pub proof fn law_async_call_round_trip<PV, C, R>(
    s: AsyncLaneState<PV, C, R>,
    name: Seq<char>,
    payload: PV,
    resolver: R,
)
    ensures
        ({
            let (queued, id) = async_enqueue(s, name, payload, resolver);
            &&& id != 0
            &&& queued.queued == s.queued.push(id)
            &&& async_lookup(queued, id) == Ok::<(Seq<char>, PV, R), BridgeErrorView>(
                (name, payload, resolver),
            )
            &&& async_lookup(async_finish(queued, id), id) == Err::<
                (Seq<char>, PV, R),
                BridgeErrorView,
            >(BridgeErrorView::OpClosed(s.lane))
            &&& s.queued.len() == 0 ==> async_take(queued).1 == id
        }),
{
    let (queued, id) = async_enqueue(s, name, payload, resolver);
    assert(queued.queued =~= s.queued.push(id));
}

/// The host takes queued asynchronous op ids oldest first.
pub proof fn law_async_take_is_fifo<PV, C, R>(s: AsyncLaneState<PV, C, R>)
    requires
        s.queued.len() > 0,
    ensures
        async_take(s).1 == s.queued[0],
        async_take(s).0.queued == s.queued.drop_first(),
        async_take(s).0.pending == s.pending,
{
}

} // verus!
