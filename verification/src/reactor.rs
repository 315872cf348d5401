//! The reactor core: the slab of sessions, the token space, and the
//! dispatch of readiness events and session results.
//!
//! The caller owns the poller and the sockets.  Clients and backends share
//! one slab, so tokens are globally unique: slot `i` of the slab is the
//! socket registered under token `i` (the listener stands outside this
//! space).  A backend slot remembers which session owns it, so an event on
//! a backend token reaches the owning session.

use vstd::prelude::*;

use crate::config::ApplicationState;
use crate::config::AppStateV;
use crate::session::ExecutionResult;
use crate::session::ExecResultV;
use crate::session::IoResult;
use crate::session::IoResultV;
use crate::session::Readiness;
use crate::session::Session;
use crate::session::SessionV;
use crate::session::SessionStateV;
use crate::session::WriteResult;
use crate::session::WriteResultV;
use crate::session::StreamV;
use crate::session::add_backend_spec;
use crate::session::fresh_session;
use crate::session::REQUEST_BUFFER_SIZE;
use crate::interpreter::zero_mem;
use crate::session::backend_pos;
use crate::session::backend_read_spec;
use crate::session::backend_write_spec;
use crate::session::client_read_spec;
use crate::session::exec_res_view;
use crate::session::inject_value;
use crate::session::io_res_view;
use crate::session::process_events_spec;
use crate::session::r_and;
use crate::session::session_step;
use crate::session::write_res_view;
use crate::value::RuntimeValue;

verus! {

/// One slab slot: free, a client session, or a backend socket owned by the
/// session in another slot.
pub enum SlotState {
    Empty,
    Client(Session),
    Backend(usize),
}

pub ghost enum SlotV {
    Empty,
    Client(SessionV),
    Backend(usize),
}

impl View for SlotState {
    type V = SlotV;

    open spec fn view(&self) -> SlotV {
        match self {
            SlotState::Empty => SlotV::Empty,
            SlotState::Client(s) => SlotV::Client(s@),
            SlotState::Backend(o) => SlotV::Backend(*o),
        }
    }
}

/// The route table, the loaded modules, and the session slab.
pub struct Gateway {
    pub state: ApplicationState,
    pub slots: Vec<SlotState>,
}

#[verifier::ext_equal]
pub ghost struct GatewayV {
    pub state: AppStateV,
    pub slots: Seq<SlotV>,
}

impl View for Gateway {
    type V = GatewayV;

    open spec fn view(&self) -> GatewayV {
        GatewayV { state: self.state@, slots: self.slots@.map_values(|s: SlotState| s@) }
    }
}

impl GatewayV {
    /// Every live session keeps its buffer window inside its buffer.
    pub open spec fn wf(self) -> bool {
        forall|i: int|
            0 <= i < self.slots.len() ==> match #[trigger] self.slots[i] {
                SlotV::Client(s) => s.wf(),
                _ => true,
            }
    }
}

/// What the caller must do after one session step.
pub enum GatewayAction {
    /// Nothing until the next poll.
    Idle,
    /// Step the same session again.
    Step,
    /// These slots were freed; deregister and drop their sockets.
    Closed(Vec<usize>),
    /// Connect a socket to the address, register it under the slot's token,
    /// and wait for writability.
    ConnectBackend(usize, Vec<u8>),
    /// Read once from the client socket of this slot (at most the count)
    /// and report through `report_read`.
    ReadClient(usize, usize),
    /// Write these bytes to the client socket of this slot, then step
    /// again.
    WriteClient(usize, Vec<u8>),
    /// Read once from the backend socket of this slot (at most the count)
    /// and report through `report_read`.
    ReadBackend(usize, usize),
    /// Write these bytes once to the backend socket of this slot and report
    /// through `report_write`.
    WriteBackend(usize, Vec<u8>),
}

pub ghost enum GatewayActionV {
    Idle,
    Step,
    Closed(Seq<usize>),
    ConnectBackend(usize, Seq<u8>),
    ReadClient(usize, usize),
    WriteClient(usize, Seq<u8>),
    ReadBackend(usize, usize),
    WriteBackend(usize, Seq<u8>),
}

pub open spec fn action_view(a: GatewayAction) -> GatewayActionV {
    match a {
        GatewayAction::Idle => GatewayActionV::Idle,
        GatewayAction::Step => GatewayActionV::Step,
        GatewayAction::Closed(t) => GatewayActionV::Closed(t@),
        GatewayAction::ConnectBackend(s, a) => GatewayActionV::ConnectBackend(s, a@),
        GatewayAction::ReadClient(s, n) => GatewayActionV::ReadClient(s, n),
        GatewayAction::WriteClient(s, b) => GatewayActionV::WriteClient(s, b@),
        GatewayAction::ReadBackend(s, n) => GatewayActionV::ReadBackend(s, n),
        GatewayAction::WriteBackend(s, b) => GatewayActionV::WriteBackend(s, b@),
    }
}

/// The first free slot.
pub open spec fn first_empty(slots: Seq<SlotV>, from: int) -> Option<int>
    decreases slots.len() - from,
{
    if from < 0 || from >= slots.len() {
        None
    } else if slots[from] is Empty {
        Some(from)
    } else {
        first_empty(slots, from + 1)
    }
}

pub proof fn lemma_first_empty_bound(slots: Seq<SlotV>, from: int)
    ensures
        first_empty(slots, from) matches Some(i) ==> 0 <= i < slots.len() && slots[i] is Empty,
    decreases slots.len() - from,
{
    if 0 <= from < slots.len() && !(slots[from] is Empty) {
        lemma_first_empty_bound(slots, from + 1);
    }
}

/// Free every slot a closing session named.
pub open spec fn free_slots(slots: Seq<SlotV>, tokens: Seq<usize>) -> Seq<SlotV>
    decreases tokens.len(),
{
    if tokens.len() == 0 {
        slots
    } else {
        let rest = free_slots(slots, tokens.drop_last());
        if tokens.last() < slots.len() {
            rest.update(tokens.last() as int, SlotV::Empty)
        } else {
            rest
        }
    }
}

/// Freeing slots only empties them and keeps the rest.
pub proof fn lemma_free_slots_elem(slots: Seq<SlotV>, tokens: Seq<usize>)
    ensures
        free_slots(slots, tokens).len() == slots.len(),
        forall|i: int|
            0 <= i < slots.len() ==> (#[trigger] free_slots(slots, tokens)[i] == slots[i]
                || free_slots(slots, tokens)[i] is Empty),
    decreases tokens.len(),
{
    if tokens.len() > 0 {
        lemma_free_slots_elem(slots, tokens.drop_last());
    }
}

/// Which session owns the socket under `token`.
pub open spec fn owner_of(slots: Seq<SlotV>, token: usize) -> Option<int> {
    if 0 <= token < slots.len() {
        match slots[token as int] {
            SlotV::Client(_) => Some(token as int),
            SlotV::Backend(o) => if 0 <= o < slots.len() && slots[o as int] is Client {
                Some(o as int)
            } else {
                None
            },
            SlotV::Empty => None,
        }
    } else {
        None
    }
}

/// A readiness event on `token` reaches exactly the owning session; the
/// flag says whether that session now has work.
pub open spec fn on_event_spec(g: GatewayV, token: usize, ev: Readiness) -> (GatewayV, bool) {
    match owner_of(g.slots, token) {
        Some(owner) => match g.slots[owner] {
            SlotV::Client(s) => {
                let stepped = process_events_spec(s, token, ev);
                (
                    GatewayV { slots: g.slots.update(owner, SlotV::Client(stepped.0)), ..g },
                    stepped.1,
                )
            },
            _ => (g, false),
        },
        None => (g, false),
    }
}

/// One step of the session in `slot`, with the slab bookkeeping the
/// reactor owes it: freeing slots on close, allocating a backend slot on an
/// outbound connect (a full slab answers the handler with `-1`).
pub open spec fn step_session_spec(g: GatewayV, slot: usize) -> (GatewayV, GatewayActionV) {
    if 0 <= slot < g.slots.len() && g.slots[slot as int] is Client {
        let s = g.slots[slot as int]->Client_0;
        let stepped = session_step(s, g.state);
        let g1 = GatewayV { slots: g.slots.update(slot as int, SlotV::Client(stepped.0)), ..g };
        match stepped.1 {
            ExecResultV::Close(tokens) => (
                GatewayV { slots: free_slots(g1.slots, tokens), ..g1 },
                GatewayActionV::Closed(tokens),
            ),
            ExecResultV::ConnectBackend(addr) => match first_empty(g1.slots, 0) {
                None => (
                    GatewayV {
                        slots: g1.slots.update(
                            slot as int,
                            SlotV::Client(inject_value(stepped.0, RuntimeValue::I32(-1i32))),
                        ),
                        ..g1
                    },
                    GatewayActionV::Step,
                ),
                Some(b) => (
                    GatewayV {
                        slots: g1.slots.update(b, SlotV::Backend(slot)).update(
                            slot as int,
                            SlotV::Client(add_backend_spec(stepped.0, b as usize)),
                        ),
                        ..g1
                    },
                    GatewayActionV::ConnectBackend(b as usize, addr),
                ),
            },
            ExecResultV::Continue => (g1, GatewayActionV::Step),
            ExecResultV::WouldBlock => (g1, GatewayActionV::Idle),
            ExecResultV::ReadClient(n) => (g1, GatewayActionV::ReadClient(slot, n)),
            ExecResultV::WriteClient(b) => (g1, GatewayActionV::WriteClient(slot, b)),
            ExecResultV::ReadBackend(i, n) => (g1, GatewayActionV::ReadBackend(i, n)),
            ExecResultV::WriteBackend(i, b) => (g1, GatewayActionV::WriteBackend(i, b)),
        }
    } else {
        (g, GatewayActionV::Idle)
    }
}

/// A read outcome reported for the socket under `token` reaches the owning
/// session: the client-read path while waiting for the request, the
/// backend-read path while a `tcp_read` is suspended.
pub open spec fn report_read_spec(g: GatewayV, token: usize, r: IoResultV) -> GatewayV {
    match owner_of(g.slots, token) {
        Some(owner) => match g.slots[owner] {
            SlotV::Client(s) => {
                let s2 = if s.client.index == token {
                    client_read_spec(s, r)
                } else {
                    backend_read_spec(s, r)
                };
                GatewayV { slots: g.slots.update(owner, SlotV::Client(s2)), ..g }
            },
            _ => g,
        },
        None => g,
    }
}

/// A write outcome reported for the backend under `token`.
pub open spec fn report_write_spec(g: GatewayV, token: usize, r: WriteResultV) -> GatewayV {
    match owner_of(g.slots, token) {
        Some(owner) => match g.slots[owner] {
            SlotV::Client(s) => GatewayV {
                slots: g.slots.update(owner, SlotV::Client(backend_write_spec(s, r))),
                ..g
            },
            _ => g,
        },
        None => g,
    }
}

impl Gateway {
    /// A gateway over the loaded application state, with room for this many
    /// sockets.
    pub fn new(state: ApplicationState, capacity: usize) -> (g: Gateway)
        ensures
            g@.state == state@,
            g@.slots.len() == capacity,
            forall|i: int| 0 <= i < capacity ==> g@.slots[i] is Empty,
            g@.wf(),
    {
        let mut slots: Vec<SlotState> = Vec::new();
        let mut i: usize = 0;
        while i < capacity
            invariant
                i <= capacity,
                slots@.len() == i,
                forall|j: int| 0 <= j < i ==> (#[trigger] slots@[j])@ is Empty,
            decreases capacity - i,
        {
            slots.push(SlotState::Empty);
            i = i + 1;
        }
        Gateway { state, slots }
    }

    /// The first free slot.
    fn find_vacant(&self) -> (r: Option<usize>)
        ensures
            match r {
                Some(i) => first_empty(self@.slots, 0) == Some(i as int) && i < self@.slots.len(),
                None => first_empty(self@.slots, 0) is None,
            },
    {
        let n = self.slots.len();
        let mut i: usize = 0;
        while i < n
            invariant
                i <= n,
                n == self@.slots.len(),
                first_empty(self@.slots, 0) == first_empty(self@.slots, i as int),
                forall|j: int| 0 <= j < i ==> !(#[trigger] self@.slots[j] is Empty),
            decreases n - i,
        {
            let vacant = match &self.slots[i] {
                SlotState::Empty => true,
                _ => false,
            };
            if vacant {
                return Some(i);
            }
            i = i + 1;
        }
        None
    }

    /// Accept a client: take the first free slot for it, or drop the
    /// accept when the slab is full.
    pub fn accept(&mut self) -> (r: Option<usize>)
        requires
            old(self)@.wf(),
        ensures
            final(self)@.wf(),
            match r {
                Some(i) => first_empty(old(self)@.slots, 0) == Some(i as int) && final(self)@
                    == (GatewayV {
                    slots: old(self)@.slots.update(
                        i as int,
                        SlotV::Client(crate::session::fresh_session(i)),
                    ),
                    ..old(self)@
                }),
                None => first_empty(old(self)@.slots, 0) is None && final(self)@ == old(self)@,
            },
    {
        match self.find_vacant() {
            None => None,
            Some(i) => {
                let s = Session::new(i);
                self.slots[i] = SlotState::Client(s);
                proof {
                    assert(self@.slots =~= old(self)@.slots.update(
                        i as int,
                        SlotV::Client(fresh_session(i)),
                    ));
                    assert(zero_mem(REQUEST_BUFFER_SIZE as nat).len() == REQUEST_BUFFER_SIZE);
                    assert forall|j: int| 0 <= j < self@.slots.len() implies match #[trigger] self@.slots[j] {
                        SlotV::Client(sv) => sv.wf(),
                        _ => true,
                    } by {
                        if j != i {
                            assert(self@.slots[j] == old(self)@.slots[j]);
                        }
                    }
                }
                Some(i)
            },
        }
    }

    /// Dispatch a readiness event to the owning session; true means that
    /// session should be queued for `step_session`.
    pub fn on_event(&mut self, token: usize, events: Readiness) -> (r: bool)
        requires
            old(self)@.wf(),
        ensures
            final(self)@ == on_event_spec(old(self)@, token, events).0,
            r == on_event_spec(old(self)@, token, events).1,
            final(self)@.wf(),
    {
        proof {
            lemma_on_event_spec_wf(old(self)@, token, events);
        }
        if token >= self.slots.len() {
            return false;
        }
        let owner = match &self.slots[token] {
            SlotState::Client(_) => token,
            SlotState::Backend(o) => {
                let o = *o;
                if o >= self.slots.len() {
                    return false;
                }
                let live = match &self.slots[o] {
                    SlotState::Client(_) => true,
                    _ => false,
                };
                if !live {
                    return false;
                }
                o
            },
            SlotState::Empty => {
                return false;
            },
        };
        match &mut self.slots[owner] {
            SlotState::Client(s) => {
                let r = s.process_events(token, events);
                proof {
                    assert(self@.slots =~= on_event_spec(old(self)@, token, events).0.slots);
                }
                r
            },
            _ => {
                proof {
                    assert(false);
                }
                false
            },
        }
    }

    /// One step of the session in `slot` plus the slab bookkeeping.
    pub fn step_session(&mut self, slot: usize) -> (r: GatewayAction)
        requires
            old(self)@.wf(),
        ensures
            final(self)@ == step_session_spec(old(self)@, slot).0,
            action_view(r) == step_session_spec(old(self)@, slot).1,
            final(self)@.wf(),
    {
        proof {
            lemma_step_session_spec_wf(old(self)@, slot);
        }
        if slot >= self.slots.len() {
            return GatewayAction::Idle;
        }
        let live = match &self.slots[slot] {
            SlotState::Client(_) => true,
            _ => false,
        };
        if !live {
            return GatewayAction::Idle;
        }
        let res = match &mut self.slots[slot] {
            SlotState::Client(s) => {
                proof {
                    assert(old(self)@.slots[slot as int] matches SlotV::Client(sv) && sv.wf());
                }
                s.execute(&self.state)
            },
            _ => {
                proof {
                    assert(false);
                }
                ExecutionResult::WouldBlock
            },
        };
        proof {
            lemma_session_step_wf(
                old(self)@.slots[slot as int]->Client_0,
                old(self)@.state,
            );
            assert(self@.slots =~= old(self)@.slots.update(
                slot as int,
                SlotV::Client(
                    crate::session::session_step(
                        old(self)@.slots[slot as int]->Client_0,
                        old(self)@.state,
                    ).0,
                ),
            ));
        }
        match res {
            ExecutionResult::Close(tokens) => {
                let n = tokens.len();
                let ghost mid = self@.slots;
                proof {
                    assert(tokens@.subrange(0, 0) =~= Seq::<usize>::empty());
                    assert(mid =~= old(self)@.slots.update(
                        slot as int,
                        SlotV::Client(
                            crate::session::session_step(
                                old(self)@.slots[slot as int]->Client_0,
                                old(self)@.state,
                            ).0,
                        ),
                    ));
                }
                let mut k: usize = 0;
                while k < n
                    invariant
                        k <= n,
                        n == tokens@.len(),
                        self@.slots == free_slots(mid, tokens@.subrange(0, k as int)),
                        self@.state == old(self)@.state,
                        self.slots@.len() == mid.len(),
                    decreases n - k,
                {
                    proof {
                        assert(tokens@.subrange(0, k + 1).drop_last() =~= tokens@.subrange(
                            0,
                            k as int,
                        ));
                    }
                    let t = tokens[k];
                    if t < self.slots.len() {
                        self.slots[t] = SlotState::Empty;
                        proof {
                            assert(self@.slots =~= free_slots(mid, tokens@.subrange(0, k + 1)));
                        }
                    } else {
                        proof {
                            assert(self@.slots =~= free_slots(mid, tokens@.subrange(0, k + 1)));
                        }
                    }
                    k = k + 1;
                }
                proof {
                    assert(tokens@.subrange(0, n as int) =~= tokens@);
                    assert(self@ =~= step_session_spec(old(self)@, slot).0);
                }
                GatewayAction::Closed(tokens)
            },
            ExecutionResult::ConnectBackend(addr) => {
                match self.find_vacant() {
                    None => {
                        match &mut self.slots[slot] {
                            SlotState::Client(s) => {
                                s.connect_refused();
                            },
                            _ => {
                                proof {
                                    assert(false);
                                }
                            },
                        }
                        proof {
                            assert(self@.slots =~= step_session_spec(old(self)@, slot).0.slots);
                        }
                        GatewayAction::Step
                    },
                    Some(b) => {
                        proof {
                            lemma_first_empty_bound(self@.slots, 0);
                            assert(b != slot);
                        }
                        self.slots[b] = SlotState::Backend(slot);
                        match &mut self.slots[slot] {
                            SlotState::Client(s) => {
                                s.add_backend(b);
                            },
                            _ => {
                                proof {
                                    assert(false);
                                }
                            },
                        }
                        proof {
                            assert(self@.slots =~= step_session_spec(old(self)@, slot).0.slots);
                        }
                        GatewayAction::ConnectBackend(b, addr)
                    },
                }
            },
            ExecutionResult::Continue => GatewayAction::Step,
            ExecutionResult::WouldBlock => GatewayAction::Idle,
            ExecutionResult::ReadClient(n) => GatewayAction::ReadClient(slot, n),
            ExecutionResult::WriteClient(b) => GatewayAction::WriteClient(slot, b),
            ExecutionResult::ReadBackend(i, n) => GatewayAction::ReadBackend(i, n),
            ExecutionResult::WriteBackend(i, b) => GatewayAction::WriteBackend(i, b),
        }
    }

    /// Report one read performed on the socket under `token`.
    pub fn report_read(&mut self, token: usize, r: &IoResult)
        requires
            old(self)@.wf(),
        ensures
            final(self)@ == report_read_spec(old(self)@, token, io_res_view(r)),
            final(self)@.wf(),
    {
        if token >= self.slots.len() {
            return;
        }
        let owner = match &self.slots[token] {
            SlotState::Client(_) => token,
            SlotState::Backend(o) => {
                let o = *o;
                if o >= self.slots.len() {
                    return;
                }
                let live = match &self.slots[o] {
                    SlotState::Client(_) => true,
                    _ => false,
                };
                if !live {
                    return;
                }
                o
            },
            SlotState::Empty => {
                return;
            },
        };
        match &mut self.slots[owner] {
            SlotState::Client(s) => {
                if s.client.index == token {
                    s.client_read_result(r);
                } else {
                    s.backend_read_result(r);
                }
                proof {
                    assert(self@.slots =~= report_read_spec(
                        old(self)@,
                        token,
                        io_res_view(r),
                    ).slots);
                }
            },
            _ => {
                proof {
                    assert(false);
                }
            },
        }
    }

    /// Report one write performed on the backend under `token`.
    pub fn report_write(&mut self, token: usize, r: &WriteResult)
        requires
            old(self)@.wf(),
        ensures
            final(self)@ == report_write_spec(old(self)@, token, write_res_view(r)),
            final(self)@.wf(),
    {
        if token >= self.slots.len() {
            return;
        }
        let owner = match &self.slots[token] {
            SlotState::Client(_) => token,
            SlotState::Backend(o) => {
                let o = *o;
                if o >= self.slots.len() {
                    return;
                }
                let live = match &self.slots[o] {
                    SlotState::Client(_) => true,
                    _ => false,
                };
                if !live {
                    return;
                }
                o
            },
            SlotState::Empty => {
                return;
            },
        };
        match &mut self.slots[owner] {
            SlotState::Client(s) => {
                s.backend_write_result(r);
                proof {
                    assert(self@.slots =~= report_write_spec(
                        old(self)@,
                        token,
                        write_res_view(r),
                    ).slots);
                }
            },
            _ => {
                proof {
                    assert(false);
                }
            },
        }
    }
}

/// An event dispatch keeps the session's buffer window well formed.
pub proof fn lemma_process_events_wf(s: SessionV, token: usize, ev: Readiness)
    requires
        s.wf(),
    ensures
        process_events_spec(s, token, ev).0.wf(),
{
}

/// An event dispatch keeps every live session well formed.
pub proof fn lemma_on_event_spec_wf(g: GatewayV, token: usize, ev: Readiness)
    requires
        g.wf(),
    ensures
        on_event_spec(g, token, ev).0.wf(),
{
    match owner_of(g.slots, token) {
        Some(owner) => match g.slots[owner] {
            SlotV::Client(s) => {
                lemma_process_events_wf(s, token, ev);
                let s2 = process_events_spec(s, token, ev).0;
                let fs = g.slots.update(owner, SlotV::Client(s2));
                assert forall|j: int| 0 <= j < fs.len() implies match #[trigger] fs[j] {
                    SlotV::Client(sv) => sv.wf(),
                    _ => true,
                } by {
                    if j != owner {
                        assert(fs[j] == g.slots[j]);
                    }
                }
            },
            _ => {},
        },
        None => {},
    }
}

/// One session step keeps the session's buffer window well formed.
pub proof fn lemma_session_step_wf(s: SessionV, app: AppStateV)
    requires
        s.wf(),
    ensures
        session_step(s, app).0.wf(),
{
}

/// One reactor step keeps every live session well formed.
pub proof fn lemma_step_session_spec_wf(g: GatewayV, slot: usize)
    requires
        g.wf(),
    ensures
        step_session_spec(g, slot).0.wf(),
{
    if 0 <= slot < g.slots.len() && g.slots[slot as int] is Client {
        let s = g.slots[slot as int]->Client_0;
        lemma_session_step_wf(s, g.state);
        let stepped = session_step(s, g.state);
        let g1 = GatewayV { slots: g.slots.update(slot as int, SlotV::Client(stepped.0)), ..g };
        assert(g1.wf()) by {
            assert forall|j: int| 0 <= j < g1.slots.len() implies match #[trigger] g1.slots[j] {
                SlotV::Client(sv) => sv.wf(),
                _ => true,
            } by {
                if j != slot {
                    assert(g1.slots[j] == g.slots[j]);
                }
            }
        }
        match stepped.1 {
            ExecResultV::Close(tokens) => {
                lemma_free_slots_elem(g1.slots, tokens);
                let fs = free_slots(g1.slots, tokens);
                assert forall|j: int| 0 <= j < fs.len() implies match #[trigger] fs[j] {
                    SlotV::Client(sv) => sv.wf(),
                    _ => true,
                } by {
                    if fs[j] == g1.slots[j] {
                    }
                }
            },
            ExecResultV::ConnectBackend(_) => {
                match first_empty(g1.slots, 0) {
                    None => {
                        let s2 = inject_value(stepped.0, RuntimeValue::I32(-1i32));
                        assert(s2.wf());
                        let fs = g1.slots.update(slot as int, SlotV::Client(s2));
                        assert forall|j: int| 0 <= j < fs.len() implies match #[trigger] fs[j] {
                            SlotV::Client(sv) => sv.wf(),
                            _ => true,
                        } by {
                            if j != slot {
                                assert(fs[j] == g1.slots[j]);
                            }
                        }
                    },
                    Some(b) => {
                        lemma_first_empty_bound(g1.slots, 0);
                        let s2 = add_backend_spec(stepped.0, b as usize);
                        assert(s2.wf());
                        let fs = g1.slots.update(b, SlotV::Backend(slot)).update(
                            slot as int,
                            SlotV::Client(s2),
                        );
                        assert forall|j: int| 0 <= j < fs.len() implies match #[trigger] fs[j] {
                            SlotV::Client(sv) => sv.wf(),
                            _ => true,
                        } by {
                            if j != slot && j != b {
                                assert(fs[j] == g1.slots[j]);
                            }
                        }
                    },
                }
            },
            _ => {},
        }
    }
}

/// Fairness of the reactor dispatch: when a backend of a session suspended
/// in `tcp_read` on it signals readability, the event reaches exactly that
/// session, the session is flagged as having work, and its next step makes
/// progress: it asks for the backend read (or completes the suspended call)
/// rather than blocking.
pub proof fn lemma_backend_readiness_wakes_owner(
    g: GatewayV,
    token: usize,
    ev: Readiness,
    fd: i32,
    ptr: u32,
    cap: usize,
)
    requires
        0 <= token < g.slots.len(),
        g.slots[token as int] matches SlotV::Backend(owner),
        0 <= g.slots[token as int]->Backend_0 < g.slots.len(),
        g.slots[g.slots[token as int]->Backend_0 as int] matches SlotV::Client(s),
        ({
            let s = g.slots[g.slots[token as int]->Backend_0 as int]->Client_0;
            &&& s.client.index != token
            &&& s.state == SessionStateV::TcpRead(fd, ptr, cap)
            &&& fd >= 0
            &&& fd as usize == token
            &&& backend_pos(s.backends, token) matches Some(p) && s.backends[p].interest.readable
        }),
        ev.readable,
        !ev.writable && !ev.hup && !ev.error,
    ensures
        on_event_spec(g, token, ev).1,
        ({
            let g2 = on_event_spec(g, token, ev).0;
            let owner = g.slots[token as int]->Backend_0;
            let stepped = step_session_spec(g2, owner);
            !(stepped.1 is Idle)
        }),
{
    let owner = g.slots[token as int]->Backend_0;
    let s = g.slots[owner as int]->Client_0;
    let p = backend_pos(s.backends, token)->0;
    crate::session::lemma_backend_pos_bound(s.backends, token);
    let after = process_events_spec(s, token, ev);
    let s2 = after.0;
    assert(s2.backends[p].readiness.readable);
    assert(after.1);
    let g2 = on_event_spec(g, token, ev).0;
    assert(g2.slots[owner as int] == SlotV::Client(s2));
    let stepped2 = session_step(s2, g2.state);
    assert(backend_pos(s2.backends, token) == Some(p)) by {
        lemma_backend_pos_update(s.backends, token, p);
    }
    assert(r_and(s2.backends[p].readiness, s2.backends[p].interest).readable);
}

/// Updating one backend's readiness in place does not move it.
proof fn lemma_backend_pos_update(bs: Seq<StreamV>, index: usize, p: int)
    requires
        backend_pos(bs, index) == Some(p),
        0 <= p < bs.len(),
    ensures
        forall|b2: StreamV|
            b2.index == index ==> backend_pos(bs.update(p, b2), index) == Some(p),
    decreases bs.len(),
{
    assert forall|b2: StreamV| b2.index == index implies backend_pos(
        bs.update(p, b2),
        index,
    ) == Some(p) by {
        lemma_backend_pos_update_one(bs, index, p, b2);
    }
}

proof fn lemma_backend_pos_update_one(
    bs: Seq<StreamV>,
    index: usize,
    p: int,
    b2: StreamV,
)
    requires
        backend_pos(bs, index) == Some(p),
        0 <= p < bs.len(),
        b2.index == index,
    ensures
        backend_pos(bs.update(p, b2), index) == Some(p),
    decreases bs.len(),
{
    if p == 0 {
        assert(bs.update(0, b2)[0] == b2);
    } else {
        assert(bs[0].index != index);
        assert(bs.update(p, b2)[0] == bs[0]);
        assert(bs.update(p, b2).drop_first() =~= bs.drop_first().update(p - 1, b2));
        lemma_backend_pos_update_one(bs.drop_first(), index, p - 1, b2);
    }
}

} // verus!
