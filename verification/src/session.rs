//! The session state machine.
//!
//! A session sequences: read request, resolve route, instantiate module,
//! drive the interpreter, service I/O suspensions, write the response,
//! close.  The session owns no socket: the caller performs each returned
//! I/O action on the real sockets (keyed by slab index) and reports the
//! outcome back, so every decision in here is verified while the I/O stays
//! outside.
//!
//! [`execute`](Session::execute) takes one step and returns `Continue` when
//! there is more to do at once; the caller re-enters until it gets
//! `WouldBlock`, an I/O action, or `Close`.  Its behaviour is pinned by
//! [`session_step`].

use vstd::prelude::*;

use crate::config::ApplicationState;
use crate::config::AppStateV;
use crate::config::route_lookup;
use crate::host::StateV;
use crate::host::State;
use crate::host::YieldV;
use crate::host::Trap;
use crate::host::AsyncHostError;
use crate::host::mem_read_spec;
use crate::host::mem_write_spec;
use crate::interpreter::FrameV;
use crate::interpreter::InstV;
use crate::interpreter::Module;
use crate::interpreter::WasmInstance;
use crate::interpreter::RunResultV;
use crate::interpreter::push_result_spec;
use crate::interpreter::resume_spec;
use crate::interpreter::import_ok;
use crate::interpreter::apply_data;
use crate::interpreter::export_lookup;
use crate::interpreter::zero_mem;
use crate::interpreter::zero_locals;
use crate::interpreter::DEFAULT_STEP_LIMIT;
use crate::memory::range_ok;
use crate::parse::HttpParse;
use crate::parse::HttpParseV;
use crate::parse::http_parse;
use crate::parse::parse_request;
use crate::response::PreparedResponse;
use crate::response::RespV;
use crate::response::render;
use crate::response::render_spec;
use crate::value::RuntimeValue;

verus! {

use vstd::string::StringSliceAdditionalSpecFns;

/// The fixed request buffer: when it fills without a complete request head,
/// the session closes.
pub const REQUEST_BUFFER_SIZE: usize = 8192;

/// Readiness and interest bits of one registered socket.
#[derive(Clone, Copy, Debug, PartialEq, Eq, Structural)]
pub struct Readiness {
    pub readable: bool,
    pub writable: bool,
    pub hup: bool,
    pub error: bool,
}

/// Bitwise union.
pub open spec fn r_or(a: Readiness, b: Readiness) -> Readiness {
    Readiness {
        readable: a.readable || b.readable,
        writable: a.writable || b.writable,
        hup: a.hup || b.hup,
        error: a.error || b.error,
    }
}

/// Bitwise intersection.
pub open spec fn r_and(a: Readiness, b: Readiness) -> Readiness {
    Readiness {
        readable: a.readable && b.readable,
        writable: a.writable && b.writable,
        hup: a.hup && b.hup,
        error: a.error && b.error,
    }
}

/// Whether any bit is set.
pub open spec fn r_any(a: Readiness) -> bool {
    a.readable || a.writable || a.hup || a.error
}

impl Readiness {
    pub fn none() -> (r: Readiness)
        ensures
            r == (Readiness { readable: false, writable: false, hup: false, error: false }),
    {
        Readiness { readable: false, writable: false, hup: false, error: false }
    }

    pub fn union(self, o: Readiness) -> (r: Readiness)
        ensures
            r == r_or(self, o),
    {
        Readiness {
            readable: self.readable || o.readable,
            writable: self.writable || o.writable,
            hup: self.hup || o.hup,
            error: self.error || o.error,
        }
    }

    pub fn meet(self, o: Readiness) -> (r: Readiness)
        ensures
            r == r_and(self, o),
    {
        Readiness {
            readable: self.readable && o.readable,
            writable: self.writable && o.writable,
            hup: self.hup && o.hup,
            error: self.error && o.error,
        }
    }

    pub fn any(self) -> (r: bool)
        ensures
            r == r_any(self),
    {
        self.readable || self.writable || self.hup || self.error
    }
}

/// A registered socket as the session sees it: readiness, interest and its
/// slab index; the socket itself lives with the caller under that index.
pub struct Stream {
    pub readiness: Readiness,
    pub interest: Readiness,
    pub index: usize,
}

#[verifier::ext_equal]
pub ghost struct StreamV {
    pub readiness: Readiness,
    pub interest: Readiness,
    pub index: usize,
}

impl View for Stream {
    type V = StreamV;

    open spec fn view(&self) -> StreamV {
        StreamV { readiness: self.readiness, interest: self.interest, index: self.index }
    }
}

/// The fixed read buffer and the window of unconsumed bytes in it.
pub struct Buf {
    pub buf: crate::memory::LinearMemory,
    pub offset: usize,
    pub len: usize,
}

#[verifier::ext_equal]
pub ghost struct BufV {
    pub bytes: Seq<u8>,
    pub offset: usize,
    pub len: usize,
}

impl View for Buf {
    type V = BufV;

    open spec fn view(&self) -> BufV {
        BufV { bytes: self.buf@, offset: self.offset, len: self.len }
    }
}

/// The primary invariant carrier of a session.
pub enum SessionState {
    /// Draining and parsing the request head.
    WaitingForRequest,
    /// A `tcp_connect` is in flight on the backend with this index.
    WaitingForBackendConnect(usize),
    /// A suspended `tcp_read`: backend id, destination pointer, capacity.
    TcpRead(i32, u32, usize),
    /// A suspended `tcp_write`: backend id, bytes, bytes already written.
    TcpWrite(i32, Vec<u8>, usize),
    /// The interpreter has work.
    Executing,
    /// The handler finished with a complete response; waiting to write it.
    ResponseReady,
    /// A fatal fault; a server-error response goes out next.
    Failed,
    /// The response went out; only closing is left.
    Done,
}

pub ghost enum SessionStateV {
    WaitingForRequest,
    WaitingForBackendConnect(usize),
    TcpRead(i32, u32, usize),
    TcpWrite(i32, Seq<u8>, usize),
    Executing,
    ResponseReady,
    Failed,
    Done,
}

impl View for SessionState {
    type V = SessionStateV;

    open spec fn view(&self) -> SessionStateV {
        match self {
            SessionState::WaitingForRequest => SessionStateV::WaitingForRequest,
            SessionState::WaitingForBackendConnect(i) => SessionStateV::WaitingForBackendConnect(
                *i,
            ),
            SessionState::TcpRead(fd, ptr, cap) => SessionStateV::TcpRead(*fd, *ptr, *cap),
            SessionState::TcpWrite(fd, buf, w) => SessionStateV::TcpWrite(*fd, buf@, *w),
            SessionState::Executing => SessionStateV::Executing,
            SessionState::ResponseReady => SessionStateV::ResponseReady,
            SessionState::Failed => SessionStateV::Failed,
            SessionState::Done => SessionStateV::Done,
        }
    }
}

/// What one step of the session asks of its caller.
pub enum ExecutionResult {
    /// Nothing to do until the next readiness event.
    WouldBlock,
    /// Free these slab slots and drop the session.
    Close(Vec<usize>),
    /// Progress was made; step again.
    Continue,
    /// Open a non-blocking connection to this address, allocate a slot, and
    /// report it through `add_backend`.
    ConnectBackend(Vec<u8>),
    /// Read once from the client socket, at most this many bytes, and
    /// report through `client_read_result`.
    ReadClient(usize),
    /// Write these bytes to the client socket, then step again.
    WriteClient(Vec<u8>),
    /// Read once from this backend, at most this many bytes, and report
    /// through `backend_read_result`.
    ReadBackend(usize, usize),
    /// Write these bytes once to this backend and report through
    /// `backend_write_result`.
    WriteBackend(usize, Vec<u8>),
}

pub ghost enum ExecResultV {
    WouldBlock,
    Close(Seq<usize>),
    Continue,
    ConnectBackend(Seq<u8>),
    ReadClient(usize),
    WriteClient(Seq<u8>),
    ReadBackend(usize, usize),
    WriteBackend(usize, Seq<u8>),
}

pub open spec fn exec_res_view(r: ExecutionResult) -> ExecResultV {
    match r {
        ExecutionResult::WouldBlock => ExecResultV::WouldBlock,
        ExecutionResult::Close(t) => ExecResultV::Close(t@),
        ExecutionResult::Continue => ExecResultV::Continue,
        ExecutionResult::ConnectBackend(a) => ExecResultV::ConnectBackend(a@),
        ExecutionResult::ReadClient(n) => ExecResultV::ReadClient(n),
        ExecutionResult::WriteClient(b) => ExecResultV::WriteClient(b@),
        ExecutionResult::ReadBackend(i, n) => ExecResultV::ReadBackend(i, n),
        ExecutionResult::WriteBackend(i, b) => ExecResultV::WriteBackend(i, b@),
    }
}

/// The outcome of one read the caller performed.
pub enum IoResult {
    /// Bytes arrived.
    Data(Vec<u8>),
    /// The peer closed (a read of zero bytes).
    Eof,
    /// The socket would block.
    WouldBlock,
    /// An unrecoverable socket error.
    Error,
}

pub ghost enum IoResultV {
    Data(Seq<u8>),
    Eof,
    WouldBlock,
    Error,
}

pub open spec fn io_res_view(r: &IoResult) -> IoResultV {
    match r {
        IoResult::Data(b) => IoResultV::Data(b@),
        IoResult::Eof => IoResultV::Eof,
        IoResult::WouldBlock => IoResultV::WouldBlock,
        IoResult::Error => IoResultV::Error,
    }
}

/// The outcome of one write the caller performed.
pub enum WriteResult {
    /// This many bytes went out (zero means end-of-write).
    Wrote(usize),
    /// The socket would block.
    WouldBlock,
    /// An unrecoverable socket error.
    Error,
}

/// One client connection working through its lifecycle.
pub struct Session {
    pub client: Stream,
    pub backends: Vec<Stream>,
    pub instance: Option<WasmInstance>,
    /// Index of the routed module inside the application state.
    pub module: Option<usize>,
    pub buffer: Buf,
    pub state: SessionState,
    pub method: Option<Vec<u8>>,
    pub path: Option<Vec<u8>>,
    /// Bytes read so far for a suspended `tcp_read`.
    pub pending: Vec<u8>,
    /// Whether the one response of this session went out.
    pub wrote_response: bool,
    /// Whether the client closed its side.
    pub client_eof: bool,
}

#[verifier::ext_equal]
pub ghost struct SessionV {
    pub client: StreamV,
    pub backends: Seq<StreamV>,
    pub instance: Option<InstV>,
    pub module: Option<usize>,
    pub buffer: BufV,
    pub state: SessionStateV,
    pub method: Option<Seq<u8>>,
    pub path: Option<Seq<u8>>,
    pub pending: Seq<u8>,
    pub wrote_response: bool,
    pub client_eof: bool,
}

impl View for Session {
    type V = SessionV;

    open spec fn view(&self) -> SessionV {
        SessionV {
            client: self.client@,
            backends: self.backends@.map_values(|b: Stream| b@),
            instance: match self.instance {
                Some(ref i) => Some(i@),
                None => None,
            },
            module: self.module,
            buffer: self.buffer@,
            state: self.state@,
            method: match self.method {
                Some(ref m) => Some(m@),
                None => None,
            },
            path: match self.path {
                Some(ref p) => Some(p@),
                None => None,
            },
            pending: self.pending@,
            wrote_response: self.wrote_response,
            client_eof: self.client_eof,
        }
    }
}

impl SessionV {
    /// The buffer window stays inside the fixed buffer.
    pub open spec fn wf(self) -> bool {
        &&& self.buffer.bytes.len() == REQUEST_BUFFER_SIZE
        &&& self.buffer.offset + self.buffer.len <= REQUEST_BUFFER_SIZE
    }
}

/// The slab slots a closing session gives back: its client and all its
/// backends.
pub open spec fn close_tokens(s: SessionV) -> Seq<usize> {
    seq![s.client.index] + s.backends.map_values(|b: StreamV| b.index)
}

/// Position of the backend registered under a slab index.
pub open spec fn backend_pos(bs: Seq<StreamV>, index: usize) -> Option<int>
    decreases bs.len(),
{
    if bs.len() == 0 {
        None
    } else if bs[0].index == index {
        Some(0int)
    } else {
        match backend_pos(bs.drop_first(), index) {
            Some(i) => Some(i + 1),
            None => None,
        }
    }
}

pub proof fn lemma_backend_pos_bound(bs: Seq<StreamV>, index: usize)
    ensures
        backend_pos(bs, index) matches Some(i) ==> 0 <= i < bs.len() && bs[i].index == index,
    decreases bs.len(),
{
    if bs.len() > 0 && bs[0].index != index {
        lemma_backend_pos_bound(bs.drop_first(), index);
    }
}

/// `HTTP/1.1 404 Not Found` with body `Route not found`.
pub open spec fn resp_404_route() -> RespV {
    RespV {
        status_code: Some(404u16),
        reason: Some("Not Found".spec_bytes()),
        headers: seq![("Content-length".spec_bytes(), "16".spec_bytes())],
        body: Some("Route not found\n".spec_bytes()),
    }
}

/// `HTTP/1.1 404 Not Found` with body `Function not found`.
pub open spec fn resp_404_function() -> RespV {
    RespV {
        status_code: Some(404u16),
        reason: Some("Not Found".spec_bytes()),
        headers: seq![("Content-length".spec_bytes(), "19".spec_bytes())],
        body: Some("Function not found\n".spec_bytes()),
    }
}

/// `HTTP/1.1 500 Internal Server Error` with a short diagnostic body.
pub open spec fn resp_500() -> RespV {
    RespV {
        status_code: Some(500u16),
        reason: Some("Internal Server Error".spec_bytes()),
        headers: seq![("Content-length".spec_bytes(), "15".spec_bytes())],
        body: Some("Internal error\n".spec_bytes()),
    }
}

/// Sending a failure response: it counts as the session's one response, and
/// only closing is left.
pub open spec fn write_failure(s: SessionV, resp: RespV) -> (SessionV, ExecResultV) {
    (
        SessionV { state: SessionStateV::Done, wrote_response: true, ..s },
        ExecResultV::WriteClient(render_spec(resp)),
    )
}

/// Inject a host-call result into the suspended interpreter; failure to
/// inject (no frame, full stack) is fatal.
pub open spec fn inject_value(s: SessionV, v: RuntimeValue) -> SessionV {
    match s.instance {
        Some(inst) => match push_result_spec(inst.stack, v) {
            Some(fs2) => SessionV {
                instance: Some(InstV { stack: fs2, ..inst }),
                state: SessionStateV::Executing,
                ..s
            },
            None => SessionV { state: SessionStateV::Failed, ..s },
        },
        None => SessionV { state: SessionStateV::Failed, ..s },
    }
}

/// Complete a suspended `tcp_read`: copy the accumulated bytes into linear
/// memory at the suspended pointer and inject the byte count.
pub open spec fn finish_read(s: SessionV, ptr: u32) -> SessionV {
    match s.instance {
        Some(inst) => {
            if range_ok(ptr, s.pending.len() as u64, inst.state.memory.len()) && s.pending.len()
                <= i64::MAX {
                let st2 = StateV {
                    memory: mem_write_spec(inst.state.memory, ptr, s.pending),
                    ..inst.state
                };
                let s1 = SessionV {
                    instance: Some(InstV { state: st2, ..inst }),
                    pending: Seq::<u8>::empty(),
                    ..s
                };
                inject_value(s1, RuntimeValue::I64(s.pending.len() as i64))
            } else {
                SessionV { state: SessionStateV::Failed, ..s }
            }
        },
        None => SessionV { state: SessionStateV::Failed, ..s },
    }
}

/// Clear one readiness bit of the backend registered under `index`.
pub open spec fn clear_backend_readable(s: SessionV, index: usize) -> SessionV {
    match backend_pos(s.backends, index) {
        Some(pos) => {
            let b = s.backends[pos];
            SessionV {
                backends: s.backends.update(
                    pos,
                    StreamV { readiness: Readiness { readable: false, ..b.readiness }, ..b },
                ),
                ..s
            }
        },
        None => s,
    }
}

pub open spec fn clear_backend_writable(s: SessionV, index: usize) -> SessionV {
    match backend_pos(s.backends, index) {
        Some(pos) => {
            let b = s.backends[pos];
            SessionV {
                backends: s.backends.update(
                    pos,
                    StreamV { readiness: Readiness { writable: false, ..b.readiness }, ..b },
                ),
                ..s
            }
        },
        None => s,
    }
}

/// The import table the resolver produces for a module whose imports all
/// resolve.
pub open spec fn resolved_of(imports: Seq<crate::interpreter::ImportV>) -> Seq<usize> {
    Seq::new(imports.len(), |i: int| crate::host::resolve_spec(imports[i].name)->0)
}

/// Route resolution and module instantiation, entered from `Executing` with
/// no instance yet.  A configuration miss answers 404; an instantiation
/// fault answers 500; a missing or unusable handler export answers 404 with
/// `Function not found`.
pub open spec fn create_instance_spec(s: SessionV, app: AppStateV) -> (SessionV, ExecResultV) {
    match (s.method, s.path) {
        (Some(m), Some(p)) => {
            let found = route_lookup(app.routes, m, p);
            if found matches Some(i) && 0 <= i < app.routes.len() && 0 <= app.routes[i].module
                < app.modules.len() {
                let entry = app.routes[found->0];
                let module = app.modules[entry.module].1;
                if !(forall|k: int|
                    0 <= k < module.imports.len() ==> import_ok(#[trigger] module.imports[k])) {
                    write_failure(s, resp_500())
                } else {
                    match apply_data(zero_mem(module.mem_size), module.data) {
                        None => write_failure(s, resp_500()),
                        Some(mem) => match export_lookup(module.exports, entry.function) {
                            None => write_failure(s, resp_404_function()),
                            Some(f) => {
                                if !(0 <= f < module.functions.len() && module.functions[
                                    f
                                ].n_params == 0) {
                                    write_failure(s, resp_404_function())
                                } else {
                                    (
                                        SessionV {
                                            instance: Some(
                                                InstV {
                                                    state: StateV {
                                                        memory: mem,
                                                        prepared_response: RespV {
                                                            status_code: None,
                                                            reason: None,
                                                            headers: Seq::<(Seq<u8>, Seq<u8>)>::empty(),
                                                            body: None,
                                                        },
                                                        db: entry.env,
                                                        log: Seq::<Seq<u8>>::empty(),
                                                    },
                                                    stack: seq![
                                                        FrameV {
                                                            func: f,
                                                            pc: 0,
                                                            locals: zero_locals(
                                                                module.functions[f].n_locals,
                                                            ),
                                                            stack: Seq::<RuntimeValue>::empty(),
                                                        },
                                                    ],
                                                    resolved: resolved_of(module.imports),
                                                    fuel: DEFAULT_STEP_LIMIT as nat,
                                                },
                                            ),
                                            module: Some(entry.module as usize),
                                            ..s
                                        },
                                        ExecResultV::Continue,
                                    )
                                }
                            },
                        },
                    }
                }
            } else {
                write_failure(s, resp_404_route())
            }
        },
        _ => write_failure(s, resp_500()),
    }
}

/// One `resume` of the interpreter and the dispatch of what it produced:
/// completion, suspension, or trap.
pub open spec fn resume_step_spec(s: SessionV, app: AppStateV) -> (SessionV, ExecResultV) {
    match (s.instance, s.module) {
        (Some(inst), Some(mi)) => {
            if !(mi < app.modules.len()) {
                write_failure(s, resp_500())
            } else {
                let module = app.modules[mi as int].1;
                let rv = resume_spec(module, inst.stack, inst.state, inst.resolved, inst.fuel);
                let s1 = SessionV {
                    instance: Some(
                        InstV {
                            state: rv.state,
                            stack: rv.stack,
                            resolved: inst.resolved,
                            fuel: rv.fuel,
                        },
                    ),
                    ..s
                };
                match rv.result {
                    RunResultV::Trapped => write_failure(s1, resp_500()),
                    RunResultV::Done(_) => {
                        if rv.state.prepared_response.complete() {
                            (
                                SessionV {
                                    client: StreamV {
                                        interest: Readiness {
                                            writable: true,
                                            ..s1.client.interest
                                        },
                                        ..s1.client
                                    },
                                    state: SessionStateV::ResponseReady,
                                    ..s1
                                },
                                ExecResultV::Continue,
                            )
                        } else {
                            write_failure(s1, resp_500())
                        }
                    },
                    RunResultV::Yield(y) => match y {
                        YieldV::Connecting(addr) => (s1, ExecResultV::ConnectBackend(addr)),
                        YieldV::TcpWrite(fd, ptr, len, written) => {
                            match mem_read_spec(rv.state.memory, ptr, len) {
                                None => write_failure(s1, resp_500()),
                                Some(bts) => {
                                    if fd < 0 {
                                        (inject_value(s1, RuntimeValue::I64(-1i64)), ExecResultV::Continue)
                                    } else {
                                        match backend_pos(s1.backends, fd as usize) {
                                            None => (
                                                inject_value(s1, RuntimeValue::I64(-1i64)),
                                                ExecResultV::Continue,
                                            ),
                                            Some(pos) => {
                                                let b = s1.backends[pos];
                                                (
                                                    SessionV {
                                                        backends: s1.backends.update(
                                                            pos,
                                                            StreamV {
                                                                interest: Readiness {
                                                                    writable: true,
                                                                    ..b.interest
                                                                },
                                                                ..b
                                                            },
                                                        ),
                                                        state: SessionStateV::TcpWrite(
                                                            fd,
                                                            bts,
                                                            written,
                                                        ),
                                                        ..s1
                                                    },
                                                    ExecResultV::Continue,
                                                )
                                            },
                                        }
                                    }
                                },
                            }
                        },
                        YieldV::TcpRead(fd, ptr, cap) => {
                            if cap > usize::MAX {
                                write_failure(s1, resp_500())
                            } else if fd < 0 {
                                (inject_value(s1, RuntimeValue::I64(-1i64)), ExecResultV::Continue)
                            } else {
                                match backend_pos(s1.backends, fd as usize) {
                                    None => (
                                        inject_value(s1, RuntimeValue::I64(-1i64)),
                                        ExecResultV::Continue,
                                    ),
                                    Some(pos) => {
                                        let b = s1.backends[pos];
                                        (
                                            SessionV {
                                                backends: s1.backends.update(
                                                    pos,
                                                    StreamV {
                                                        interest: Readiness {
                                                            readable: true,
                                                            ..b.interest
                                                        },
                                                        ..b
                                                    },
                                                ),
                                                state: SessionStateV::TcpRead(
                                                    fd,
                                                    ptr,
                                                    cap as usize,
                                                ),
                                                pending: Seq::<u8>::empty(),
                                                ..s1
                                            },
                                            ExecResultV::Continue,
                                        )
                                    },
                                }
                            }
                        },
                    },
                }
            }
        },
        _ => write_failure(s, resp_500()),
    }
}

/// One step of the whole session machine.
pub open spec fn session_step(s: SessionV, app: AppStateV) -> (SessionV, ExecResultV) {
    match s.state {
        SessionStateV::WaitingForRequest => {
            let free = (REQUEST_BUFFER_SIZE - s.buffer.offset - s.buffer.len) as usize;
            if s.client_eof {
                (s, ExecResultV::Close(close_tokens(s)))
            } else if r_and(s.client.readiness, s.client.interest).readable && free > 0 {
                (s, ExecResultV::ReadClient(free))
            } else {
                let window = s.buffer.bytes.subrange(
                    s.buffer.offset as int,
                    s.buffer.offset + s.buffer.len,
                );
                match http_parse(window) {
                    HttpParseV::Partial => {
                        if free == 0 {
                            (s, ExecResultV::Close(close_tokens(s)))
                        } else {
                            (s, ExecResultV::WouldBlock)
                        }
                    },
                    HttpParseV::Error => (s, ExecResultV::Close(close_tokens(s))),
                    HttpParseV::Complete { consumed, method, path } => {
                        if 0 <= consumed <= s.buffer.len {
                            (
                                SessionV {
                                    buffer: BufV {
                                        offset: (s.buffer.offset + consumed) as usize,
                                        len: (s.buffer.len - consumed) as usize,
                                        ..s.buffer
                                    },
                                    client: StreamV {
                                        interest: Readiness {
                                            readable: false,
                                            ..s.client.interest
                                        },
                                        ..s.client
                                    },
                                    method: Some(method),
                                    path: Some(path),
                                    state: SessionStateV::Executing,
                                    ..s
                                },
                                ExecResultV::Continue,
                            )
                        } else {
                            (s, ExecResultV::Close(close_tokens(s)))
                        }
                    },
                }
            }
        },
        SessionStateV::Executing => {
            if s.instance is None {
                create_instance_spec(s, app)
            } else {
                resume_step_spec(s, app)
            }
        },
        SessionStateV::ResponseReady => {
            if r_and(s.client.readiness, s.client.interest).writable {
                match s.instance {
                    Some(inst) => (
                        SessionV { state: SessionStateV::Done, wrote_response: true, ..s },
                        ExecResultV::WriteClient(render_spec(inst.state.prepared_response)),
                    ),
                    None => write_failure(s, resp_500()),
                }
            } else {
                (s, ExecResultV::WouldBlock)
            }
        },
        SessionStateV::WaitingForBackendConnect(_) => (s, ExecResultV::WouldBlock),
        SessionStateV::TcpRead(fd, ptr, cap) => {
            if fd < 0 {
                (inject_value(s, RuntimeValue::I64(-1i64)), ExecResultV::Continue)
            } else {
                match backend_pos(s.backends, fd as usize) {
                    None => (inject_value(s, RuntimeValue::I64(-1i64)), ExecResultV::Continue),
                    Some(pos) => {
                        if r_and(s.backends[pos].readiness, s.backends[pos].interest).readable {
                            if s.pending.len() >= cap {
                                (finish_read(s, ptr), ExecResultV::Continue)
                            } else {
                                (
                                    s,
                                    ExecResultV::ReadBackend(
                                        fd as usize,
                                        (cap - s.pending.len()) as usize,
                                    ),
                                )
                            }
                        } else {
                            (s, ExecResultV::WouldBlock)
                        }
                    },
                }
            }
        },
        SessionStateV::TcpWrite(fd, buf, written) => {
            if fd < 0 {
                (inject_value(s, RuntimeValue::I64(-1i64)), ExecResultV::Continue)
            } else {
                match backend_pos(s.backends, fd as usize) {
                    None => (inject_value(s, RuntimeValue::I64(-1i64)), ExecResultV::Continue),
                    Some(pos) => {
                        if r_and(s.backends[pos].readiness, s.backends[pos].interest).writable {
                            if written >= buf.len() || written > i64::MAX {
                                if written <= i64::MAX {
                                    (
                                        inject_value(s, RuntimeValue::I64(written as i64)),
                                        ExecResultV::Continue,
                                    )
                                } else {
                                    (SessionV { state: SessionStateV::Failed, ..s }, ExecResultV::Continue)
                                }
                            } else {
                                (s, ExecResultV::WriteBackend(fd as usize, buf.skip(written as int)))
                            }
                        } else {
                            (s, ExecResultV::WouldBlock)
                        }
                    },
                }
            }
        },
        SessionStateV::Failed => write_failure(s, resp_500()),
        SessionStateV::Done => (s, ExecResultV::Close(close_tokens(s))),
    }
}

/// The one-response invariant: the response flag rises only when the
/// session moves to `Done`, and `Done` only closes.
pub open spec fn response_inv(s: SessionV) -> bool {
    s.wrote_response ==> s.state is Done
}

/// At most one response per session: a step hands out response bytes only
/// when none have gone out yet, and doing so settles the session in `Done`,
/// whose only further step is closing.  The bytes themselves are a
/// [`render_spec`] image: one status line, then the header lines, one blank
/// line, and the body.
pub proof fn lemma_at_most_one_response(s: SessionV, app: AppStateV)
    requires
        response_inv(s),
    ensures
        session_step(s, app).1 is WriteClient ==> !s.wrote_response && session_step(
            s,
            app,
        ).0.wrote_response && session_step(s, app).0.state is Done,
        s.wrote_response ==> !(session_step(s, app).1 is WriteClient),
        response_inv(session_step(s, app).0),
        s.state is Done ==> session_step(s, app).1 == ExecResultV::Close(close_tokens(s)),
{
}

/// The transitions outside `execute` never emit response bytes and keep
/// the one-response invariant.
pub proof fn lemma_reports_preserve_response_inv(
    s: SessionV,
    token: usize,
    ev: Readiness,
    io: IoResultV,
    w: WriteResultV,
    idx: usize,
)
    requires
        response_inv(s),
    ensures
        response_inv(process_events_spec(s, token, ev).0),
        response_inv(client_read_spec(s, io)),
        response_inv(backend_read_spec(s, io)),
        response_inv(backend_write_spec(s, w)),
        !s.wrote_response ==> response_inv(add_backend_spec(s, idx)),
{
    match s.state {
        SessionStateV::WaitingForRequest => {},
        SessionStateV::WaitingForBackendConnect(_) => {},
        SessionStateV::TcpRead(_, _, _) => {},
        SessionStateV::TcpWrite(_, _, _) => {},
        SessionStateV::Executing => {},
        SessionStateV::ResponseReady => {},
        SessionStateV::Failed => {},
        SessionStateV::Done => {},
    }
}

/// A readiness event delivered by the reactor for the socket under `token`:
/// merge it in, complete a pending connect, and say whether the session now
/// has work.  A pending connect succeeds only on writability without error:
/// an event carrying `error` or `hup` is a failed connect and injects `-1`,
/// even when the writable bit arrives in the same event, as pollers report
/// a refused connect.
pub open spec fn process_events_spec(s: SessionV, token: usize, ev: Readiness) -> (
    SessionV,
    bool,
) {
    if token == s.client.index {
        let c2 = StreamV { readiness: r_or(s.client.readiness, ev), ..s.client };
        let s2 = SessionV { client: c2, ..s };
        (s2, r_any(r_and(c2.readiness, c2.interest)))
    } else {
        match backend_pos(s.backends, token) {
            None => (s, false),
            Some(pos) => {
                let s1 = match s.state {
                    SessionStateV::WaitingForBackendConnect(t) => if t == token {
                        if ev.error || ev.hup {
                            inject_value(s, RuntimeValue::I32(-1i32))
                        } else if ev.writable {
                            if token <= i32::MAX {
                                inject_value(s, RuntimeValue::I32(token as i32))
                            } else {
                                inject_value(s, RuntimeValue::I32(-1i32))
                            }
                        } else {
                            s
                        }
                    } else {
                        s
                    },
                    _ => s,
                };
                let b = s1.backends[pos];
                let b2 = StreamV { readiness: r_or(b.readiness, ev), ..b };
                (
                    SessionV { backends: s1.backends.update(pos, b2), ..s1 },
                    r_any(r_and(b2.readiness, b2.interest)),
                )
            },
        }
    }
}

/// The buffer after appending bytes at the end of its window.
pub open spec fn buf_append(b: BufV, data: Seq<u8>) -> BufV {
    let at = b.offset + b.len;
    BufV {
        bytes: b.bytes.subrange(0, at as int) + data + b.bytes.subrange(
            at + data.len(),
            b.bytes.len() as int,
        ),
        offset: b.offset,
        len: (b.len + data.len()) as usize,
    }
}

/// The outcome of one client read while waiting for the request.
pub open spec fn client_read_spec(s: SessionV, r: IoResultV) -> SessionV {
    match s.state {
        SessionStateV::WaitingForRequest => match r {
            IoResultV::Data(bytes) => {
                let free = REQUEST_BUFFER_SIZE - s.buffer.offset - s.buffer.len;
                let taken = if bytes.len() <= free {
                    bytes
                } else {
                    bytes.take(free as int)
                };
                SessionV { buffer: buf_append(s.buffer, taken), ..s }
            },
            IoResultV::Eof => SessionV { client_eof: true, ..s },
            IoResultV::WouldBlock => SessionV {
                client: StreamV {
                    readiness: Readiness { readable: false, ..s.client.readiness },
                    ..s.client
                },
                ..s
            },
            IoResultV::Error => SessionV { client_eof: true, ..s },
        },
        _ => s,
    }
}

/// The outcome of one backend read while a `tcp_read` is suspended.
pub open spec fn backend_read_spec(s: SessionV, r: IoResultV) -> SessionV {
    match s.state {
        SessionStateV::TcpRead(fd, ptr, cap) => match r {
            IoResultV::Data(bytes) => {
                let room = if cap > s.pending.len() {
                    cap - s.pending.len()
                } else {
                    0
                };
                let taken = if bytes.len() <= room {
                    bytes
                } else {
                    bytes.take(room as int)
                };
                let s1 = SessionV { pending: s.pending + taken, ..s };
                if s1.pending.len() >= cap {
                    finish_read(s1, ptr)
                } else {
                    s1
                }
            },
            IoResultV::Eof => {
                let s1 = if fd >= 0 {
                    clear_backend_readable(s, fd as usize)
                } else {
                    s
                };
                finish_read(s1, ptr)
            },
            IoResultV::WouldBlock => {
                let s1 = if fd >= 0 {
                    clear_backend_readable(s, fd as usize)
                } else {
                    s
                };
                finish_read(s1, ptr)
            },
            IoResultV::Error => inject_value(s, RuntimeValue::I64(-1i64)),
        },
        _ => s,
    }
}

pub ghost enum WriteResultV {
    Wrote(usize),
    WouldBlock,
    Error,
}

pub open spec fn write_res_view(r: &WriteResult) -> WriteResultV {
    match r {
        WriteResult::Wrote(n) => WriteResultV::Wrote(*n),
        WriteResult::WouldBlock => WriteResultV::WouldBlock,
        WriteResult::Error => WriteResultV::Error,
    }
}

/// The outcome of one backend write while a `tcp_write` is suspended.
pub open spec fn backend_write_spec(s: SessionV, r: WriteResultV) -> SessionV {
    match s.state {
        SessionStateV::TcpWrite(fd, buf, written) => match r {
            WriteResultV::Wrote(n) => {
                if n == 0 {
                    let s1 = if fd >= 0 {
                        clear_backend_writable(s, fd as usize)
                    } else {
                        s
                    };
                    if written <= i64::MAX {
                        inject_value(s1, RuntimeValue::I64(written as i64))
                    } else {
                        SessionV { state: SessionStateV::Failed, ..s1 }
                    }
                } else {
                    let w2 = if written + n >= buf.len() {
                        buf.len() as int
                    } else {
                        written + n
                    };
                    if w2 == buf.len() {
                        if w2 <= i64::MAX {
                            inject_value(s, RuntimeValue::I64(w2 as i64))
                        } else {
                            SessionV { state: SessionStateV::Failed, ..s }
                        }
                    } else {
                        SessionV { state: SessionStateV::TcpWrite(fd, buf, w2 as usize), ..s }
                    }
                }
            },
            WriteResultV::WouldBlock => if fd >= 0 {
                clear_backend_writable(s, fd as usize)
            } else {
                s
            },
            WriteResultV::Error => inject_value(s, RuntimeValue::I64(-1i64)),
        },
        _ => s,
    }
}

/// A backend was registered under a fresh slab index after a
/// `ConnectBackend`: record it with write interest and wait for the
/// connect to settle.
pub open spec fn add_backend_spec(s: SessionV, index: usize) -> SessionV {
    SessionV {
        backends: s.backends.push(
            StreamV {
                readiness: Readiness { readable: false, writable: false, hup: false, error: false },
                interest: Readiness { readable: false, writable: true, hup: true, error: true },
                index: index,
            },
        ),
        state: SessionStateV::WaitingForBackendConnect(index),
        ..s
    }
}

/// Build one of the fixed failure responses.
fn failure_response(status: u16, reason: &str, hval: &str, body: &str) -> (r: PreparedResponse)
    ensures
        r@ == (RespV {
            status_code: Some(status),
            reason: Some(reason.spec_bytes()),
            headers: seq![("Content-length".spec_bytes(), hval.spec_bytes())],
            body: Some(body.spec_bytes()),
        }),
{
    let mut headers: Vec<(Vec<u8>, Vec<u8>)> = Vec::new();
    headers.push(
        (
            vstd::slice::slice_to_vec("Content-length".as_bytes()),
            vstd::slice::slice_to_vec(hval.as_bytes()),
        ),
    );
    let r = PreparedResponse {
        status_code: Some(status),
        reason: Some(vstd::slice::slice_to_vec(reason.as_bytes())),
        headers,
        body: Some(vstd::slice::slice_to_vec(body.as_bytes())),
    };
    proof {
        assert(r@.headers =~= seq![("Content-length".spec_bytes(), hval.spec_bytes())]);
    }
    r
}

fn resp_404_route_exec() -> (r: PreparedResponse)
    ensures
        r@ == resp_404_route(),
{
    failure_response(404, "Not Found", "16", "Route not found\n")
}

fn resp_404_function_exec() -> (r: PreparedResponse)
    ensures
        r@ == resp_404_function(),
{
    failure_response(404, "Not Found", "19", "Function not found\n")
}

fn resp_500_exec() -> (r: PreparedResponse)
    ensures
        r@ == resp_500(),
{
    failure_response(500, "Internal Server Error", "15", "Internal error\n")
}

/// Position of the backend registered under a slab index.
fn find_backend(backends: &Vec<Stream>, index: usize) -> (r: Option<usize>)
    ensures
        ({
            let bv = backends@.map_values(|b: Stream| b@);
            match r {
                Some(p) => backend_pos(bv, index) == Some(p as int) && p < backends@.len(),
                None => backend_pos(bv, index) is None,
            }
        }),
{
    let ghost bv = backends@.map_values(|b: Stream| b@);
    let n = backends.len();
    proof {
        assert(bv.skip(0) =~= bv);
    }
    let mut i: usize = 0;
    while i < n
        invariant
            i <= n,
            n == backends@.len(),
            bv == backends@.map_values(|b: Stream| b@),
            backend_pos(bv, index) == match backend_pos(bv.skip(i as int), index) {
                Some(k) => Some(k + i),
                None => None::<int>,
            },
        decreases n - i,
    {
        proof {
            assert(bv.skip(i as int)[0] == bv[i as int]);
        }
        if backends[i].index == index {
            return Some(i);
        }
        proof {
            assert(bv.skip(i as int).drop_first() =~= bv.skip(i + 1));
        }
        i = i + 1;
    }
    proof {
        assert(bv.skip(n as int) =~= Seq::<StreamV>::empty());
    }
    None
}

/// The view of a newly accepted session registered under `index`.
pub open spec fn fresh_session(index: usize) -> SessionV {
    SessionV {
        client: StreamV {
            readiness: Readiness { readable: false, writable: false, hup: false, error: false },
            interest: Readiness { readable: true, writable: false, hup: true, error: true },
            index: index,
        },
        backends: Seq::<StreamV>::empty(),
        instance: None,
        module: None,
        buffer: BufV { bytes: zero_mem(REQUEST_BUFFER_SIZE as nat), offset: 0, len: 0 },
        state: SessionStateV::WaitingForRequest,
        method: None,
        path: None,
        pending: Seq::<u8>::empty(),
        wrote_response: false,
        client_eof: false,
    }
}

impl Session {
    /// A fresh session for an accepted client registered under `index`.
    pub fn new(index: usize) -> (s: Session)
        ensures
            s@ == fresh_session(index),
            s@ == (SessionV {
                client: StreamV {
                    readiness: Readiness {
                        readable: false,
                        writable: false,
                        hup: false,
                        error: false,
                    },
                    interest: Readiness {
                        readable: true,
                        writable: false,
                        hup: true,
                        error: true,
                    },
                    index: index,
                },
                backends: Seq::<StreamV>::empty(),
                instance: None,
                module: None,
                buffer: BufV {
                    bytes: zero_mem(REQUEST_BUFFER_SIZE as nat),
                    offset: 0,
                    len: 0,
                },
                state: SessionStateV::WaitingForRequest,
                method: None,
                path: None,
                pending: Seq::<u8>::empty(),
                wrote_response: false,
                client_eof: false,
            }),
            s@.wf(),
    {
        let s = Session {
            client: Stream {
                readiness: Readiness::none(),
                interest: Readiness { readable: true, writable: false, hup: true, error: true },
                index,
            },
            backends: Vec::new(),
            instance: None,
            module: None,
            buffer: Buf {
                buf: crate::memory::LinearMemory::new(REQUEST_BUFFER_SIZE),
                offset: 0,
                len: 0,
            },
            state: SessionState::WaitingForRequest,
            method: None,
            path: None,
            pending: Vec::new(),
            wrote_response: false,
            client_eof: false,
        };
        proof {
            assert(s@.backends =~= Seq::<StreamV>::empty());
            assert(s@.buffer.bytes =~= zero_mem(REQUEST_BUFFER_SIZE as nat));
        }
        s
    }

    /// The reactor could not allocate a backend slot: the handler's
    /// `tcp_connect` answers `-1`.
    pub fn connect_refused(&mut self)
        ensures
            final(self)@ == inject_value(old(self)@, RuntimeValue::I32(-1i32)),
    {
        self.do_inject(RuntimeValue::I32(-1i32));
    }

    /// Record the backend the reactor allocated for a `ConnectBackend`.
    pub fn add_backend(&mut self, index: usize)
        ensures
            final(self)@ == add_backend_spec(old(self)@, index),
    {
        self.backends.push(
            Stream {
                readiness: Readiness::none(),
                interest: Readiness { readable: false, writable: true, hup: true, error: true },
                index,
            },
        );
        self.state = SessionState::WaitingForBackendConnect(index);
        proof {
            assert(self@.backends =~= add_backend_spec(old(self)@, index).backends);
        }
    }

    /// Give back every slab slot this session holds.
    fn close_result(&self) -> (r: ExecutionResult)
        ensures
            exec_res_view(r) == ExecResultV::Close(close_tokens(self@)),
    {
        let mut tokens: Vec<usize> = Vec::new();
        tokens.push(self.client.index);
        let n = self.backends.len();
        let mut i: usize = 0;
        while i < n
            invariant
                i <= n,
                n == self.backends@.len(),
                tokens@.len() == i + 1,
                tokens@[0] == self.client@.index,
                forall|j: int| 0 <= j < i ==> tokens@[j + 1] == self.backends@[j]@.index,
            decreases n - i,
        {
            tokens.push(self.backends[i].index);
            i = i + 1;
        }
        proof {
            assert(tokens@ =~= close_tokens(self@));
        }
        ExecutionResult::Close(tokens)
    }

    /// Send a failure response and move to `Done`.
    fn fail_with(&mut self, resp: &PreparedResponse) -> (r: ExecutionResult)
        ensures
            final(self)@ == write_failure(old(self)@, resp@).0,
            exec_res_view(r) == write_failure(old(self)@, resp@).1,
    {
        self.state = SessionState::Done;
        self.wrote_response = true;
        let out = render(resp);
        proof {
            assert(self@ =~= write_failure(old(self)@, resp@).0);
        }
        ExecutionResult::WriteClient(out)
    }

    /// Inject a host-call result into the suspended interpreter.
    fn do_inject(&mut self, v: RuntimeValue)
        ensures
            final(self)@ == inject_value(old(self)@, v),
    {
        let ok = match &mut self.instance {
            Some(inst) => match inst.add_function_result(v) {
                Ok(_) => true,
                Err(_) => false,
            },
            None => false,
        };
        if ok {
            self.state = SessionState::Executing;
        } else {
            self.state = SessionState::Failed;
        }
        proof {
            assert(self@ =~= inject_value(old(self)@, v));
        }
    }

    /// Complete a suspended `tcp_read`.
    fn do_finish_read(&mut self, ptr: u32)
        ensures
            final(self)@ == finish_read(old(self)@, ptr),
    {
        let n = self.pending.len();
        if n as u64 > i64::MAX as u64 {
            self.state = SessionState::Failed;
            proof {
                assert(self@ =~= finish_read(old(self)@, ptr));
            }
            return;
        }
        let wrote = match &mut self.instance {
            Some(inst) => match inst.state.write_buf(ptr, self.pending.as_slice()) {
                Ok(_) => true,
                Err(_) => false,
            },
            None => {
                self.state = SessionState::Failed;
                proof {
                    assert(self@ =~= finish_read(old(self)@, ptr));
                }
                return;
            },
        };
        if !wrote {
            self.state = SessionState::Failed;
            proof {
                assert(self@ =~= finish_read(old(self)@, ptr));
            }
            return;
        }
        self.pending = Vec::new();
        self.do_inject(RuntimeValue::I64(n as i64));
        proof {
            assert(self@.pending =~= Seq::<u8>::empty());
            assert(self@ =~= finish_read(old(self)@, ptr));
        }
    }

    /// Clear the readable bit of the backend under `index`.
    fn do_clear_backend_readable(&mut self, index: usize)
        ensures
            final(self)@ == clear_backend_readable(old(self)@, index),
    {
        match find_backend(&self.backends, index) {
            None => {
                proof {
                    assert(self@ =~= clear_backend_readable(old(self)@, index));
                }
            },
            Some(p) => {
                let b = &mut self.backends[p];
                let rd = b.readiness;
                b.readiness = Readiness { readable: false, ..rd };
                proof {
                    assert(self@.backends =~= clear_backend_readable(old(self)@, index).backends);
                    assert(self@ =~= clear_backend_readable(old(self)@, index));
                }
            },
        }
    }

    /// Clear the writable bit of the backend under `index`.
    fn do_clear_backend_writable(&mut self, index: usize)
        ensures
            final(self)@ == clear_backend_writable(old(self)@, index),
    {
        match find_backend(&self.backends, index) {
            None => {
                proof {
                    assert(self@ =~= clear_backend_writable(old(self)@, index));
                }
            },
            Some(p) => {
                let b = &mut self.backends[p];
                let rd = b.readiness;
                b.readiness = Readiness { writable: false, ..rd };
                proof {
                    assert(self@.backends =~= clear_backend_writable(old(self)@, index).backends);
                    assert(self@ =~= clear_backend_writable(old(self)@, index));
                }
            },
        }
    }

    /// Merge a readiness event into the socket under `token`; complete a
    /// pending connect when it is that backend's: an event carrying `error`
    /// or `hup` is a failed connect and injects `-1` even when the writable
    /// bit arrives with it; writability without error injects the backend
    /// id.  True means the session has work for `execute`.
    pub fn process_events(&mut self, token: usize, events: Readiness) -> (r: bool)
        ensures
            final(self)@ == process_events_spec(old(self)@, token, events).0,
            r == process_events_spec(old(self)@, token, events).1,
    {
        if token == self.client.index {
            self.client.readiness = self.client.readiness.union(events);
            let r = self.client.readiness.meet(self.client.interest).any();
            proof {
                assert(self@ =~= process_events_spec(old(self)@, token, events).0);
            }
            r
        } else {
            match find_backend(&self.backends, token) {
                None => {
                    proof {
                        assert(self@ =~= process_events_spec(old(self)@, token, events).0);
                    }
                    false
                },
                Some(pos) => {
                    let waiting = match &self.state {
                        SessionState::WaitingForBackendConnect(t) => *t == token,
                        _ => false,
                    };
                    if waiting {
                        if events.error || events.hup {
                            self.do_inject(RuntimeValue::I32(-1i32));
                        } else if events.writable {
                            if token <= i32::MAX as usize {
                                self.do_inject(RuntimeValue::I32(token as i32));
                            } else {
                                self.do_inject(RuntimeValue::I32(-1i32));
                            }
                        }
                    }
                    let b = &mut self.backends[pos];
                    let rd = b.readiness;
                    b.readiness = rd.union(events);
                    let r = self.backends[pos].readiness.meet(self.backends[pos].interest).any();
                    proof {
                        assert(self@ =~= process_events_spec(old(self)@, token, events).0);
                    }
                    r
                },
            }
        }
    }

    /// Report one client read performed for `ReadClient`.
    #[verifier::rlimit(100)]
    pub fn client_read_result(&mut self, r: &IoResult)
        requires
            old(self)@.wf(),
        ensures
            final(self)@ == client_read_spec(old(self)@, io_res_view(r)),
            final(self)@.wf(),
    {
        let waiting = match &self.state {
            SessionState::WaitingForRequest => true,
            _ => false,
        };
        if !waiting {
            return;
        }
        match r {
            IoResult::Data(bytes) => {
                let at = self.buffer.offset + self.buffer.len;
                let free = REQUEST_BUFFER_SIZE - at;
                let take_n = if bytes.len() <= free {
                    bytes.len()
                } else {
                    free
                };
                let part = vstd::slice::slice_subrange(bytes.as_slice(), 0, take_n);
                let res = self.buffer.buf.write(at as u32, part);
                proof {
                    assert(res is Ok);
                }
                self.buffer.len = self.buffer.len + take_n;
                proof {
                    let sv = client_read_spec(old(self)@, io_res_view(r));
                    assert(self@.buffer.bytes =~= sv.buffer.bytes);
                    assert(self@ =~= sv);
                }
            },
            IoResult::Eof => {
                self.client_eof = true;
            },
            IoResult::WouldBlock => {
                let rd = self.client.readiness;
                self.client.readiness = Readiness { readable: false, ..rd };
            },
            IoResult::Error => {
                self.client_eof = true;
            },
        }
    }

    /// Report one backend read performed for `ReadBackend`.
    pub fn backend_read_result(&mut self, r: &IoResult)
        ensures
            final(self)@ == backend_read_spec(old(self)@, io_res_view(r)),
    {
        let (fd, ptr, cap) = match &self.state {
            SessionState::TcpRead(fd, ptr, cap) => (*fd, *ptr, *cap),
            _ => {
                return;
            },
        };
        match r {
            IoResult::Data(bytes) => {
                let have = self.pending.len();
                let room = if cap > have {
                    cap - have
                } else {
                    0
                };
                let take_n = if bytes.len() <= room {
                    bytes.len()
                } else {
                    room
                };
                let ghost taken = if bytes@.len() <= room as int {
                    bytes@
                } else {
                    bytes@.take(room as int)
                };
                let mut k: usize = 0;
                while k < take_n
                    invariant
                        k <= take_n,
                        take_n <= bytes@.len(),
                        self.pending@ == old(self).pending@ + bytes@.subrange(0, k as int),
                        self@ == (SessionV { pending: self.pending@, ..old(self)@ }),
                    decreases take_n - k,
                {
                    self.pending.push(bytes[k]);
                    proof {
                        assert(self.pending@ =~= old(self).pending@ + bytes@.subrange(0, k + 1));
                    }
                    k = k + 1;
                }
                proof {
                    assert(self.pending@ =~= old(self).pending@ + taken);
                }
                if self.pending.len() >= cap {
                    self.do_finish_read(ptr);
                }
                proof {
                    assert(self@ =~= backend_read_spec(old(self)@, io_res_view(r)));
                }
            },
            IoResult::Eof => {
                if fd >= 0 {
                    self.do_clear_backend_readable(fd as usize);
                }
                self.do_finish_read(ptr);
                proof {
                    assert(self@ =~= backend_read_spec(old(self)@, io_res_view(r)));
                }
            },
            IoResult::WouldBlock => {
                if fd >= 0 {
                    self.do_clear_backend_readable(fd as usize);
                }
                self.do_finish_read(ptr);
                proof {
                    assert(self@ =~= backend_read_spec(old(self)@, io_res_view(r)));
                }
            },
            IoResult::Error => {
                self.do_inject(RuntimeValue::I64(-1i64));
                proof {
                    assert(self@ =~= backend_read_spec(old(self)@, io_res_view(r)));
                }
            },
        }
    }

    /// Report one backend write performed for `WriteBackend`.
    #[verifier::rlimit(100)]
    pub fn backend_write_result(&mut self, r: &WriteResult)
        ensures
            final(self)@ == backend_write_spec(old(self)@, write_res_view(r)),
    {
        let (fd, blen, written) = match &self.state {
            SessionState::TcpWrite(fd, buf, written) => (*fd, buf.len(), *written),
            _ => {
                return;
            },
        };
        match r {
            WriteResult::Wrote(n) => {
                let n = *n;
                if n == 0 {
                    if fd >= 0 {
                        self.do_clear_backend_writable(fd as usize);
                    }
                    if written as u64 <= i64::MAX as u64 {
                        self.do_inject(RuntimeValue::I64(written as i64));
                    } else {
                        self.state = SessionState::Failed;
                    }
                    proof {
                        assert(self@ =~= backend_write_spec(old(self)@, write_res_view(r)));
                    }
                } else {
                    let w2 = if written >= blen || n >= blen - written {
                        blen
                    } else {
                        written + n
                    };
                    if w2 == blen {
                        if w2 as u64 <= i64::MAX as u64 {
                            self.do_inject(RuntimeValue::I64(w2 as i64));
                        } else {
                            self.state = SessionState::Failed;
                        }
                    } else {
                        let buf = match &self.state {
                            SessionState::TcpWrite(_, b, _) => crate::bytes::clone_bytes(b),
                            _ => Vec::new(),
                        };
                        self.state = SessionState::TcpWrite(fd, buf, w2);
                    }
                    proof {
                        assert(self@ =~= backend_write_spec(old(self)@, write_res_view(r)));
                    }
                }
            },
            WriteResult::WouldBlock => {
                if fd >= 0 {
                    self.do_clear_backend_writable(fd as usize);
                }
                proof {
                    assert(self@ =~= backend_write_spec(old(self)@, write_res_view(r)));
                }
            },
            WriteResult::Error => {
                self.do_inject(RuntimeValue::I64(-1i64));
                proof {
                    assert(self@ =~= backend_write_spec(old(self)@, write_res_view(r)));
                }
            },
        }
    }

    /// Resolve the route and instantiate the module: resolve named imports
    /// with strict signature checking, allocate linear memory, copy the
    /// data segments, bind the handler export, and seed the host state with
    /// the route's env.
    pub fn create_instance(&mut self, app: &ApplicationState) -> (r: ExecutionResult)
        ensures
            final(self)@ == create_instance_spec(old(self)@, app@).0,
            exec_res_view(r) == create_instance_spec(old(self)@, app@).1,
    {
        let routed = match (&self.method, &self.path) {
            (Some(m), Some(p)) => app.route(m.as_slice(), p.as_slice()),
            _ => {
                let resp = resp_500_exec();
                return self.fail_with(&resp);
            },
        };
        let (func_name, midx, module, env) = match routed {
            Some(t) => t,
            None => {
                let resp = resp_404_route_exec();
                return self.fail_with(&resp);
            },
        };
        let resolved = match crate::interpreter::resolve_imports(module) {
            Some(v) => v,
            None => {
                let resp = resp_500_exec();
                return self.fail_with(&resp);
            },
        };
        let mem = match crate::interpreter::init_memory(module) {
            Some(m) => m,
            None => {
                let resp = resp_500_exec();
                return self.fail_with(&resp);
            },
        };
        let f = match crate::interpreter::export_by_name(module, func_name.as_slice()) {
            Some(f) => f,
            None => {
                let resp = resp_404_function_exec();
                return self.fail_with(&resp);
            },
        };
        let args: Vec<RuntimeValue> = Vec::new();
        let stack = match crate::interpreter::create_stack(module, f, &args) {
            Some(st) => st,
            None => {
                let resp = resp_404_function_exec();
                return self.fail_with(&resp);
            },
        };
        let db = crate::bytes::clone_pairs(env);
        let st = State::new(mem, db);
        let inst = WasmInstance::new(st, resolved, stack);
        self.instance = Some(inst);
        self.module = Some(midx);
        proof {
            let sv = create_instance_spec(old(self)@, app@).0;
            assert(self@.instance->0.state.db =~= sv.instance->0.state.db);
            assert(self@.instance->0.resolved =~= sv.instance->0.resolved);
            assert(Seq::<RuntimeValue>::empty() + zero_locals(
                module@.functions[f as int].n_locals,
            ) =~= zero_locals(module@.functions[f as int].n_locals));
            assert(self@.instance->0.stack =~= sv.instance->0.stack);
            assert(self@.instance->0 =~= sv.instance->0);
            assert(self@ =~= sv);
        }
        ExecutionResult::Continue
    }

    /// Run the interpreter until it returns, suspends, or traps, and act on
    /// what it produced.
    #[verifier::rlimit(100)]
    pub fn resume(&mut self, app: &ApplicationState) -> (r: ExecutionResult)
        ensures
            final(self)@ == resume_step_spec(old(self)@, app@).0,
            exec_res_view(r) == resume_step_spec(old(self)@, app@).1,
    {
        let mi = match self.module {
            Some(mi) => mi,
            None => {
                let resp = resp_500_exec();
                return self.fail_with(&resp);
            },
        };
        if self.instance.is_none() {
            let resp = resp_500_exec();
            return self.fail_with(&resp);
        }
        if mi >= app.modules.len() {
            let resp = resp_500_exec();
            return self.fail_with(&resp);
        }
        let module = &app.modules[mi].1;
        let res = match &mut self.instance {
            Some(inst) => inst.resume(module),
            None => {
                let resp = resp_500_exec();
                return self.fail_with(&resp);
            },
        };
        match res {
            Ok(_) => {
                let complete = match &self.instance {
                    Some(inst) => inst.state.prepared_response.is_complete(),
                    None => false,
                };
                if complete {
                    let it = self.client.interest;
                    self.client.interest = Readiness { writable: true, ..it };
                    self.state = SessionState::ResponseReady;
                    proof {
                        assert(self@ =~= resume_step_spec(old(self)@, app@).0);
                    }
                    ExecutionResult::Continue
                } else {
                    let resp = resp_500_exec();
                    self.fail_with(&resp)
                }
            },
            Err(Trap::Fatal) => {
                let resp = resp_500_exec();
                self.fail_with(&resp)
            },
            Err(Trap::Host(y)) => match y {
                AsyncHostError::Connecting(addr) => {
                    proof {
                        assert(self@ =~= resume_step_spec(old(self)@, app@).0);
                    }
                    ExecutionResult::ConnectBackend(addr)
                },
                AsyncHostError::TcpWrite(fd, ptr, len, written) => {
                    let got = match &self.instance {
                        Some(inst) => inst.state.get_buf(ptr, len),
                        None => None,
                    };
                    let bts = match got {
                        Some(b) => b,
                        None => {
                            let resp = resp_500_exec();
                            return self.fail_with(&resp);
                        },
                    };
                    if fd < 0 {
                        self.do_inject(RuntimeValue::I64(-1i64));
                        proof {
                            assert(self@ =~= resume_step_spec(old(self)@, app@).0);
                        }
                        return ExecutionResult::Continue;
                    }
                    match find_backend(&self.backends, fd as usize) {
                        None => {
                            self.do_inject(RuntimeValue::I64(-1i64));
                            proof {
                                assert(self@ =~= resume_step_spec(old(self)@, app@).0);
                            }
                            ExecutionResult::Continue
                        },
                        Some(pos) => {
                            let b = &mut self.backends[pos];
                            let it = b.interest;
                            b.interest = Readiness { writable: true, ..it };
                            self.state = SessionState::TcpWrite(fd, bts, written);
                            proof {
                                assert(self@.backends =~= resume_step_spec(
                                    old(self)@,
                                    app@,
                                ).0.backends);
                                assert(self@ =~= resume_step_spec(old(self)@, app@).0);
                            }
                            ExecutionResult::Continue
                        },
                    }
                },
                AsyncHostError::TcpRead(fd, ptr, cap) => {
                    if cap > usize::MAX as u64 {
                        let resp = resp_500_exec();
                        return self.fail_with(&resp);
                    }
                    if fd < 0 {
                        self.do_inject(RuntimeValue::I64(-1i64));
                        proof {
                            assert(self@ =~= resume_step_spec(old(self)@, app@).0);
                        }
                        return ExecutionResult::Continue;
                    }
                    match find_backend(&self.backends, fd as usize) {
                        None => {
                            self.do_inject(RuntimeValue::I64(-1i64));
                            proof {
                                assert(self@ =~= resume_step_spec(old(self)@, app@).0);
                            }
                            ExecutionResult::Continue
                        },
                        Some(pos) => {
                            let b = &mut self.backends[pos];
                            let it = b.interest;
                            b.interest = Readiness { readable: true, ..it };
                            self.state = SessionState::TcpRead(fd, ptr, cap as usize);
                            self.pending = Vec::new();
                            proof {
                                assert(self@.pending =~= Seq::<u8>::empty());
                                assert(self@.backends =~= resume_step_spec(
                                    old(self)@,
                                    app@,
                                ).0.backends);
                                assert(self@ =~= resume_step_spec(old(self)@, app@).0);
                            }
                            ExecutionResult::Continue
                        },
                    }
                },
            },
        }
    }

    /// One step of the session machine.  `Continue` means more can be done
    /// at once: the caller re-enters until it gets `WouldBlock`, an I/O
    /// action, or `Close`.
    pub fn execute(&mut self, app: &ApplicationState) -> (r: ExecutionResult)
        requires
            old(self)@.wf(),
        ensures
            final(self)@ == session_step(old(self)@, app@).0,
            exec_res_view(r) == session_step(old(self)@, app@).1,
    {
        let is_wfr = match &self.state {
            SessionState::WaitingForRequest => true,
            _ => false,
        };
        if is_wfr {
            let at = self.buffer.offset + self.buffer.len;
            let free = REQUEST_BUFFER_SIZE - at;
            if self.client_eof {
                return self.close_result();
            }
            if self.client.readiness.meet(self.client.interest).readable && free > 0 {
                return ExecutionResult::ReadClient(free);
            }
            let window = match self.buffer.buf.read(
                self.buffer.offset as u32,
                self.buffer.len as u64,
            ) {
                Some(w) => w,
                None => {
                    proof {
                        assert(false);
                    }
                    return ExecutionResult::WouldBlock;
                },
            };
            match parse_request(window.as_slice()) {
                HttpParse::Partial => {
                    if free == 0 {
                        return self.close_result();
                    }
                    return ExecutionResult::WouldBlock;
                },
                HttpParse::Error => {
                    return self.close_result();
                },
                HttpParse::Complete { consumed, method, path } => {
                    self.buffer.offset = self.buffer.offset + consumed;
                    self.buffer.len = self.buffer.len - consumed;
                    let it = self.client.interest;
                    self.client.interest = Readiness { readable: false, ..it };
                    self.method = Some(method);
                    self.path = Some(path);
                    self.state = SessionState::Executing;
                    proof {
                        assert(self@ =~= session_step(old(self)@, app@).0);
                    }
                    return ExecutionResult::Continue;
                },
            }
        }
        let (fd_r, ptr_r, cap_r, is_read) = match &self.state {
            SessionState::TcpRead(fd, ptr, cap) => (*fd, *ptr, *cap, true),
            _ => (0i32, 0u32, 0usize, false),
        };
        if is_read {
            if fd_r < 0 {
                self.do_inject(RuntimeValue::I64(-1i64));
                proof {
                    assert(self@ =~= session_step(old(self)@, app@).0);
                }
                return ExecutionResult::Continue;
            }
            match find_backend(&self.backends, fd_r as usize) {
                None => {
                    self.do_inject(RuntimeValue::I64(-1i64));
                    proof {
                        assert(self@ =~= session_step(old(self)@, app@).0);
                    }
                    return ExecutionResult::Continue;
                },
                Some(pos) => {
                    if self.backends[pos].readiness.meet(self.backends[pos].interest).readable {
                        if self.pending.len() >= cap_r {
                            self.do_finish_read(ptr_r);
                            proof {
                                assert(self@ =~= session_step(old(self)@, app@).0);
                            }
                            return ExecutionResult::Continue;
                        }
                        return ExecutionResult::ReadBackend(
                            fd_r as usize,
                            cap_r - self.pending.len(),
                        );
                    }
                    return ExecutionResult::WouldBlock;
                },
            }
        }
        let (fd_w, blen_w, written_w, is_write) = match &self.state {
            SessionState::TcpWrite(fd, buf, written) => (*fd, buf.len(), *written, true),
            _ => (0i32, 0usize, 0usize, false),
        };
        if is_write {
            if fd_w < 0 {
                self.do_inject(RuntimeValue::I64(-1i64));
                proof {
                    assert(self@ =~= session_step(old(self)@, app@).0);
                }
                return ExecutionResult::Continue;
            }
            match find_backend(&self.backends, fd_w as usize) {
                None => {
                    self.do_inject(RuntimeValue::I64(-1i64));
                    proof {
                        assert(self@ =~= session_step(old(self)@, app@).0);
                    }
                    return ExecutionResult::Continue;
                },
                Some(pos) => {
                    if self.backends[pos].readiness.meet(self.backends[pos].interest).writable {
                        if written_w >= blen_w || written_w as u64 > i64::MAX as u64 {
                            if written_w as u64 <= i64::MAX as u64 {
                                self.do_inject(RuntimeValue::I64(written_w as i64));
                                proof {
                                    assert(self@ =~= session_step(old(self)@, app@).0);
                                }
                                return ExecutionResult::Continue;
                            }
                            self.state = SessionState::Failed;
                            proof {
                                assert(self@ =~= session_step(old(self)@, app@).0);
                            }
                            return ExecutionResult::Continue;
                        }
                        let rest = match &self.state {
                            SessionState::TcpWrite(_, buf, _) => crate::bytes::tail_of(
                                buf,
                                written_w,
                            ),
                            _ => Vec::new(),
                        };
                        return ExecutionResult::WriteBackend(fd_w as usize, rest);
                    }
                    return ExecutionResult::WouldBlock;
                },
            }
        }
        match &self.state {
            SessionState::Executing => {
                if self.instance.is_none() {
                    self.create_instance(app)
                } else {
                    self.resume(app)
                }
            },
            SessionState::ResponseReady => {
                if self.client.readiness.meet(self.client.interest).writable {
                    let out = match &self.instance {
                        Some(inst) => render(&inst.state.prepared_response),
                        None => {
                            let resp = resp_500_exec();
                            return self.fail_with(&resp);
                        },
                    };
                    self.state = SessionState::Done;
                    self.wrote_response = true;
                    proof {
                        assert(self@ =~= session_step(old(self)@, app@).0);
                    }
                    ExecutionResult::WriteClient(out)
                } else {
                    ExecutionResult::WouldBlock
                }
            },
            SessionState::WaitingForBackendConnect(_) => ExecutionResult::WouldBlock,
            SessionState::Failed => {
                let resp = resp_500_exec();
                self.fail_with(&resp)
            },
            SessionState::Done => self.close_result(),
            _ => {
                proof {
                    assert(false);
                }
                ExecutionResult::WouldBlock
            },
        }
    }
}

} // verus!
