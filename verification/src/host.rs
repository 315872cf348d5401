//! The host environment: per-session state and the synchronous host-call ABI
//! that handler bytecode imports.
//!
//! All pointers are offsets into the module's linear memory and all sizes
//! are byte counts.  The four response calls, `log` and `db_get` complete
//! inline.  The three networking calls never perform I/O here: they fail the
//! host call with a typed payload carrying the I/O intent, which suspends
//! the interpreter; the session later injects the result value and resumes.
//!
//! Every call's behaviour is pinned by [`invoke_spec`], a pure model of the
//! dispatch over the mathematical image of the state.

use vstd::prelude::*;

use crate::memory::LinearMemory;
use crate::memory::range_ok;
use crate::response::PreparedResponse;
use crate::response::RespV;
use crate::value::RuntimeValue;
use crate::value::ValueType;
use crate::value::args_match;

verus! {

use vstd::string::StringSliceAdditionalSpecFns;

/// log(ptr: i32, size: i64)
pub const LOG_INDEX: usize = 0;

/// response_set_status_line(status: i32, ptr: i32, size: i64)
pub const RESPONSE_SET_STATUS_LINE: usize = 1;

/// response_set_header(name_ptr: i32, name_size: i64, value_ptr: i32, value_size: i64)
pub const RESPONSE_SET_HEADER: usize = 2;

/// response_set_body(ptr: i32, size: i64)
pub const RESPONSE_SET_BODY: usize = 3;

/// tcp_connect(ptr: i32, size: i64) -> i32
pub const TCP_CONNECT: usize = 4;

/// tcp_read(fd: i32, ptr: i32, size: i64) -> i64
pub const TCP_READ: usize = 5;

/// tcp_write(fd: i32, ptr: i32, size: i64) -> i64
pub const TCP_WRITE: usize = 6;

/// db_get(key_ptr: i32, key_size: i64, value_ptr: i32, value_size: i64) -> i64
pub const DB_GET: usize = 7;

/// The I/O intent carried out of a suspending host call.
#[derive(Debug)]
pub enum AsyncHostError {
    /// Connect to the address held by the byte string.
    Connecting(Vec<u8>),
    /// Read up to the given count into linear memory at the pointer.
    TcpRead(i32, u32, u64),
    /// Write the byte range at the pointer; the last field counts bytes
    /// already written.
    TcpWrite(i32, u32, u64, usize),
}

/// Why a host call did not complete: a suspension or a fatal fault.
#[derive(Debug)]
pub enum Trap {
    /// A suspension point: the session services the intent and resumes.
    Host(AsyncHostError),
    /// A fatal trap; the session answers with a server error and closes.
    Fatal,
}

/// Mathematical image of a suspension payload.
pub ghost enum YieldV {
    Connecting(Seq<u8>),
    TcpRead(i32, u32, u64),
    TcpWrite(i32, u32, u64, usize),
}

impl View for AsyncHostError {
    type V = YieldV;

    open spec fn view(&self) -> YieldV {
        match self {
            AsyncHostError::Connecting(a) => YieldV::Connecting(a@),
            AsyncHostError::TcpRead(fd, ptr, cap) => YieldV::TcpRead(*fd, *ptr, *cap),
            AsyncHostError::TcpWrite(fd, ptr, len, w) => YieldV::TcpWrite(*fd, *ptr, *len, *w),
        }
    }
}

/// Per-session mutable state reachable from the host calls.
pub struct State {
    /// The linear memory of the module instance.
    pub memory: LinearMemory,
    /// The response under construction.
    pub prepared_response: PreparedResponse,
    /// The key/value environment, cloned from the route entry.
    pub db: Vec<(Vec<u8>, Vec<u8>)>,
    /// The operator log, one entry per `log` call.
    pub log: Vec<Vec<u8>>,
}

/// Mathematical image of the host state.
#[verifier::ext_equal]
pub ghost struct StateV {
    pub memory: Seq<u8>,
    pub prepared_response: RespV,
    pub db: Seq<(Seq<u8>, Seq<u8>)>,
    pub log: Seq<Seq<u8>>,
}

impl View for State {
    type V = StateV;

    open spec fn view(&self) -> StateV {
        StateV {
            memory: self.memory@,
            prepared_response: self.prepared_response@,
            db: self.db@.map_values(|p: (Vec<u8>, Vec<u8>)| (p.0@, p.1@)),
            log: self.log@.map_values(|l: Vec<u8>| l@),
        }
    }
}

/// Outcome of one host-call dispatch.
pub ghost enum InvokeResV {
    /// The call completed inline with an optional return value.
    Done(Option<RuntimeValue>),
    /// The call suspended with an I/O intent.
    Yield(YieldV),
    /// The call faulted (bad pointer, bad arguments).
    Fatal,
}

/// Image of an exec dispatch result.
pub open spec fn invoke_res_view(r: Result<Option<RuntimeValue>, Trap>) -> InvokeResV {
    match r {
        Ok(v) => InvokeResV::Done(v),
        Err(Trap::Host(y)) => InvokeResV::Yield(y@),
        Err(Trap::Fatal) => InvokeResV::Fatal,
    }
}

/// Reading `ptr .. ptr + len` out of a memory image.
pub open spec fn mem_read_spec(mem: Seq<u8>, ptr: u32, len: u64) -> Option<Seq<u8>> {
    if range_ok(ptr, len, mem.len()) {
        Some(mem.subrange(ptr as int, ptr + len))
    } else {
        None
    }
}

/// Writing `bytes` at `ptr` into a memory image; meaningful only in bounds.
pub open spec fn mem_write_spec(mem: Seq<u8>, ptr: u32, bytes: Seq<u8>) -> Seq<u8>
    recommends
        range_ok(ptr, bytes.len() as u64, mem.len()),
{
    mem.subrange(0, ptr as int) + bytes + mem.subrange(ptr + bytes.len(), mem.len() as int)
}

/// First value stored under `key`, if any.
pub open spec fn db_lookup(db: Seq<(Seq<u8>, Seq<u8>)>, key: Seq<u8>) -> Option<Seq<u8>>
    decreases db.len(),
{
    if db.len() == 0 {
        None
    } else if db[0].0 == key {
        Some(db[0].1)
    } else {
        db_lookup(db.drop_first(), key)
    }
}

/// Parameter types of the host function at `index`.
pub open spec fn host_params(index: int) -> Seq<ValueType> {
    if index == LOG_INDEX {
        seq![ValueType::I32, ValueType::I64]
    } else if index == RESPONSE_SET_STATUS_LINE {
        seq![ValueType::I32, ValueType::I32, ValueType::I64]
    } else if index == RESPONSE_SET_HEADER {
        seq![ValueType::I32, ValueType::I64, ValueType::I32, ValueType::I64]
    } else if index == RESPONSE_SET_BODY {
        seq![ValueType::I32, ValueType::I64]
    } else if index == TCP_CONNECT {
        seq![ValueType::I32, ValueType::I64]
    } else if index == TCP_READ {
        seq![ValueType::I32, ValueType::I32, ValueType::I64]
    } else if index == TCP_WRITE {
        seq![ValueType::I32, ValueType::I32, ValueType::I64]
    } else if index == DB_GET {
        seq![ValueType::I32, ValueType::I64, ValueType::I32, ValueType::I64]
    } else {
        Seq::<ValueType>::empty()
    }
}

/// Return type of the host function at `index`.
pub open spec fn host_ret(index: int) -> Option<ValueType> {
    if index == TCP_CONNECT {
        Some(ValueType::I32)
    } else if index == TCP_READ || index == TCP_WRITE || index == DB_GET {
        Some(ValueType::I64)
    } else {
        None
    }
}

pub open spec fn valid_host_index(index: int) -> bool {
    0 <= index < 8
}

/// What `log` does: validate the range, then append the bytes to the
/// operator log.
pub open spec fn log_spec(s: StateV, ptr: u32, len: u64) -> (StateV, InvokeResV) {
    match mem_read_spec(s.memory, ptr, len) {
        None => (s, InvokeResV::Fatal),
        Some(bytes) => (StateV { log: s.log.push(bytes), ..s }, InvokeResV::Done(None)),
    }
}

/// What `response_set_status_line` does: status truncated to `u16`, reason
/// copied out of memory; both fields overwritten.
pub open spec fn set_status_spec(s: StateV, status: i32, ptr: u32, len: u64) -> (
    StateV,
    InvokeResV,
) {
    match mem_read_spec(s.memory, ptr, len) {
        None => (s, InvokeResV::Fatal),
        Some(bytes) => (
            StateV {
                prepared_response: RespV {
                    status_code: Some(status as u16),
                    reason: Some(bytes),
                    ..s.prepared_response
                },
                ..s
            },
            InvokeResV::Done(None),
        ),
    }
}

/// What `response_set_header` does: append one header, keeping order and
/// duplicates.
pub open spec fn set_header_spec(s: StateV, p1: u32, l1: u64, p2: u32, l2: u64) -> (
    StateV,
    InvokeResV,
) {
    match mem_read_spec(s.memory, p1, l1) {
        None => (s, InvokeResV::Fatal),
        Some(name) => match mem_read_spec(s.memory, p2, l2) {
            None => (s, InvokeResV::Fatal),
            Some(value) => (
                StateV {
                    prepared_response: RespV {
                        headers: s.prepared_response.headers.push((name, value)),
                        ..s.prepared_response
                    },
                    ..s
                },
                InvokeResV::Done(None),
            ),
        },
    }
}

/// What `response_set_body` does: the body becomes a copy of the range.
pub open spec fn set_body_spec(s: StateV, ptr: u32, len: u64) -> (StateV, InvokeResV) {
    match mem_read_spec(s.memory, ptr, len) {
        None => (s, InvokeResV::Fatal),
        Some(bytes) => (
            StateV {
                prepared_response: RespV { body: Some(bytes), ..s.prepared_response },
                ..s
            },
            InvokeResV::Done(None),
        ),
    }
}

/// What `tcp_connect` does: copy the address out of memory and suspend.
pub open spec fn tcp_connect_spec(s: StateV, ptr: u32, len: u64) -> (StateV, InvokeResV) {
    match mem_read_spec(s.memory, ptr, len) {
        None => (s, InvokeResV::Fatal),
        Some(addr) => (s, InvokeResV::Yield(YieldV::Connecting(addr))),
    }
}

/// What `tcp_read` does: validate the destination range and suspend.
pub open spec fn tcp_read_spec(s: StateV, fd: i32, ptr: u32, cap: u64) -> (StateV, InvokeResV) {
    if range_ok(ptr, cap, s.memory.len()) {
        (s, InvokeResV::Yield(YieldV::TcpRead(fd, ptr, cap)))
    } else {
        (s, InvokeResV::Fatal)
    }
}

/// What `tcp_write` does: validate the source range and suspend with no
/// bytes written yet.
pub open spec fn tcp_write_spec(s: StateV, fd: i32, ptr: u32, len: u64) -> (StateV, InvokeResV) {
    if range_ok(ptr, len, s.memory.len()) {
        (s, InvokeResV::Yield(YieldV::TcpWrite(fd, ptr, len, 0)))
    } else {
        (s, InvokeResV::Fatal)
    }
}

/// What `db_get` does: report the full stored length (`-1` when the key is
/// missing) and write the first `min(len, cap)` bytes of the value.
pub open spec fn db_get_spec(s: StateV, kp: u32, kl: u64, vp: u32, vcap: u64) -> (
    StateV,
    InvokeResV,
) {
    match mem_read_spec(s.memory, kp, kl) {
        None => (s, InvokeResV::Fatal),
        Some(key) => match db_lookup(s.db, key) {
            None => (s, InvokeResV::Done(Some(RuntimeValue::I64(-1i64)))),
            Some(value) => {
                if value.len() > i64::MAX {
                    (s, InvokeResV::Fatal)
                } else {
                    let to_write = if value.len() <= vcap { value.len() } else { vcap as nat };
                    if range_ok(vp, to_write as u64, s.memory.len()) {
                        (
                            StateV {
                                memory: mem_write_spec(
                                    s.memory,
                                    vp,
                                    value.subrange(0, to_write as int),
                                ),
                                ..s
                            },
                            InvokeResV::Done(Some(RuntimeValue::I64(value.len() as i64))),
                        )
                    } else {
                        (s, InvokeResV::Fatal)
                    }
                }
            },
        },
    }
}

/// The whole dispatch: argument typing, then the call at `index`.
pub open spec fn invoke_spec(s: StateV, index: int, args: Seq<RuntimeValue>) -> (
    StateV,
    InvokeResV,
) {
    if !valid_host_index(index) || !args_match(args, host_params(index)) {
        (s, InvokeResV::Fatal)
    } else if index == LOG_INDEX {
        log_spec(s, args[0].spec_i32() as u32, args[1].spec_i64() as u64)
    } else if index == RESPONSE_SET_STATUS_LINE {
        set_status_spec(s, args[0].spec_i32(), args[1].spec_i32() as u32, args[2].spec_i64() as u64)
    } else if index == RESPONSE_SET_HEADER {
        set_header_spec(
            s,
            args[0].spec_i32() as u32,
            args[1].spec_i64() as u64,
            args[2].spec_i32() as u32,
            args[3].spec_i64() as u64,
        )
    } else if index == RESPONSE_SET_BODY {
        set_body_spec(s, args[0].spec_i32() as u32, args[1].spec_i64() as u64)
    } else if index == TCP_CONNECT {
        tcp_connect_spec(s, args[0].spec_i32() as u32, args[1].spec_i64() as u64)
    } else if index == TCP_READ {
        tcp_read_spec(
            s,
            args[0].spec_i32(),
            args[1].spec_i32() as u32,
            args[2].spec_i64() as u64,
        )
    } else if index == TCP_WRITE {
        tcp_write_spec(
            s,
            args[0].spec_i32(),
            args[1].spec_i32() as u32,
            args[2].spec_i64() as u64,
        )
    } else {
        db_get_spec(
            s,
            args[0].spec_i32() as u32,
            args[1].spec_i64() as u64,
            args[2].spec_i32() as u32,
            args[3].spec_i64() as u64,
        )
    }
}

impl State {
    /// Fresh state around an instantiated linear memory and the env copied
    /// from the route entry.
    pub fn new(memory: LinearMemory, db: Vec<(Vec<u8>, Vec<u8>)>) -> (s: State)
        ensures
            s@.memory == memory@,
            s@.prepared_response == (RespV {
                status_code: None,
                reason: None,
                headers: Seq::<(Seq<u8>, Seq<u8>)>::empty(),
                body: None,
            }),
            s@.db == db@.map_values(|p: (Vec<u8>, Vec<u8>)| (p.0@, p.1@)),
            s@.log == Seq::<Seq<u8>>::empty(),
    {
        let s = State {
            memory,
            prepared_response: PreparedResponse::new(),
            db,
            log: Vec::new(),
        };
        proof {
            assert(s@.log =~= Seq::<Seq<u8>>::empty());
        }
        s
    }

    /// Copy of a byte range of linear memory, as the suspended `tcp_write`
    /// service step needs it.
    pub fn get_buf(&self, ptr: u32, size: u64) -> (r: Option<Vec<u8>>)
        ensures
            r is Some <==> range_ok(ptr, size, self@.memory.len()),
            r matches Some(v) ==> v@ == self@.memory.subrange(ptr as int, ptr + size),
    {
        self.memory.read(ptr, size)
    }

    /// Store bytes into linear memory, as the completed `tcp_read` service
    /// step needs it.
    pub fn write_buf(&mut self, ptr: u32, data: &[u8]) -> (r: Result<(), ()>)
        ensures
            r is Ok <==> range_ok(ptr, data@.len() as u64, old(self)@.memory.len()),
            r is Ok ==> final(self)@ == (StateV {
                memory: mem_write_spec(old(self)@.memory, ptr, data@),
                ..old(self)@
            }),
            r is Err ==> final(self)@ == old(self)@,
    {
        let r = self.memory.write(ptr, data);
        proof {
            if r is Ok {
                assert(final(self)@ =~= StateV {
                    memory: mem_write_spec(old(self)@.memory, ptr, data@),
                    ..old(self)@
                });
            } else {
                assert(final(self)@ =~= old(self)@);
            }
        }
        r
    }
}

/// Typed extraction of a `(i32, i64)` argument list.
fn take_2(args: &Vec<RuntimeValue>) -> (r: Option<(i32, i64)>)
    ensures
        r is Some <==> args_match(args@, seq![ValueType::I32, ValueType::I64]),
        r matches Some(v) ==> v.0 == args@[0].spec_i32() && v.1 == args@[1].spec_i64(),
{
    if args.len() != 2 {
        assert(!args_match(args@, seq![ValueType::I32, ValueType::I64]));
        return None;
    }
    match (args[0], args[1]) {
        (RuntimeValue::I32(a), RuntimeValue::I64(b)) => {
            assert(args_match(args@, seq![ValueType::I32, ValueType::I64])) by {
                let params = seq![ValueType::I32, ValueType::I64];
                assert forall|i: int| 0 <= i < 2 implies (#[trigger] args@[i]).value_type()
                    == params[i] by {
                    if i == 0 {
                    } else {
                        assert(i == 1);
                    }
                }
            }
            Some((a, b))
        },
        _ => {
            assert(!args_match(args@, seq![ValueType::I32, ValueType::I64]));
            None
        },
    }
}

/// Typed extraction of a `(i32, i32, i64)` argument list.
fn take_3(args: &Vec<RuntimeValue>) -> (r: Option<(i32, i32, i64)>)
    ensures
        r is Some <==> args_match(args@, seq![ValueType::I32, ValueType::I32, ValueType::I64]),
        r matches Some(v) ==> v.0 == args@[0].spec_i32() && v.1 == args@[1].spec_i32() && v.2
            == args@[2].spec_i64(),
{
    if args.len() != 3 {
        assert(!args_match(args@, seq![ValueType::I32, ValueType::I32, ValueType::I64]));
        return None;
    }
    match (args[0], args[1], args[2]) {
        (RuntimeValue::I32(a), RuntimeValue::I32(b), RuntimeValue::I64(c)) => {
            assert(args_match(args@, seq![ValueType::I32, ValueType::I32, ValueType::I64])) by {
                let params = seq![ValueType::I32, ValueType::I32, ValueType::I64];
                assert forall|i: int| 0 <= i < 3 implies (#[trigger] args@[i]).value_type()
                    == params[i] by {
                    if i == 0 {
                    } else if i == 1 {
                    } else {
                        assert(i == 2);
                    }
                }
            }
            Some((a, b, c))
        },
        _ => {
            assert(!args_match(args@, seq![ValueType::I32, ValueType::I32, ValueType::I64]));
            None
        },
    }
}

/// Typed extraction of a `(i32, i64, i32, i64)` argument list.
fn take_4(args: &Vec<RuntimeValue>) -> (r: Option<(i32, i64, i32, i64)>)
    ensures
        r is Some <==> args_match(
            args@,
            seq![ValueType::I32, ValueType::I64, ValueType::I32, ValueType::I64],
        ),
        r matches Some(v) ==> v.0 == args@[0].spec_i32() && v.1 == args@[1].spec_i64() && v.2
            == args@[2].spec_i32() && v.3 == args@[3].spec_i64(),
{
    if args.len() != 4 {
        assert(!args_match(
            args@,
            seq![ValueType::I32, ValueType::I64, ValueType::I32, ValueType::I64],
        ));
        return None;
    }
    match (args[0], args[1], args[2], args[3]) {
        (RuntimeValue::I32(a), RuntimeValue::I64(b), RuntimeValue::I32(c), RuntimeValue::I64(d)) => {
            assert(args_match(
                args@,
                seq![ValueType::I32, ValueType::I64, ValueType::I32, ValueType::I64],
            )) by {
                let params = seq![ValueType::I32, ValueType::I64, ValueType::I32, ValueType::I64];
                assert forall|i: int| 0 <= i < 4 implies (#[trigger] args@[i]).value_type()
                    == params[i] by {
                    if i == 0 {
                    } else if i == 1 {
                    } else if i == 2 {
                    } else {
                        assert(i == 3);
                    }
                }
            }
            Some((a, b, c, d))
        },
        _ => {
            assert(!args_match(
                args@,
                seq![ValueType::I32, ValueType::I64, ValueType::I32, ValueType::I64],
            ));
            None
        },
    }
}

/// First value stored under `key` in the env, if any.
fn db_find(db: &Vec<(Vec<u8>, Vec<u8>)>, key: &Vec<u8>) -> (r: Option<Vec<u8>>)
    ensures
        ({
            let dbv = db@.map_values(|p: (Vec<u8>, Vec<u8>)| (p.0@, p.1@));
            match r {
                Some(v) => db_lookup(dbv, key@) == Some(v@),
                None => db_lookup(dbv, key@) is None,
            }
        }),
{
    let ghost dbv = db@.map_values(|p: (Vec<u8>, Vec<u8>)| (p.0@, p.1@));
    let n = db.len();
    proof {
        assert(dbv.skip(0) =~= dbv);
    }
    let mut i: usize = 0;
    while i < n
        invariant
            i <= n,
            n == db@.len(),
            dbv == db@.map_values(|p: (Vec<u8>, Vec<u8>)| (p.0@, p.1@)),
            db_lookup(dbv, key@) == db_lookup(dbv.skip(i as int), key@),
        decreases n - i,
    {
        if db[i].0 == *key {
            let v = db[i].1.clone();
            proof {
                assert(db@[i as int].0@ =~= key@);
                assert(v@ =~= db@[i as int].1@);
                assert(dbv.skip(i as int)[0] == dbv[i as int]);
                assert(db_lookup(dbv.skip(i as int), key@) == Some(dbv[i as int].1));
            }
            return Some(v);
        }
        proof {
            assert(dbv.skip(i as int)[0] == dbv[i as int]);
            assert(dbv.skip(i as int).drop_first() =~= dbv.skip(i + 1));
        }
        i = i + 1;
    }
    proof {
        assert(dbv.skip(n as int) =~= Seq::<(Seq<u8>, Seq<u8>)>::empty());
    }
    None
}

/// Dispatch one host call against the session state.
///
/// This is the synchronous API handler bytecode sees: the response calls,
/// `log` and `db_get` complete inline; the networking calls return the
/// suspension payload as a host trap.  The behaviour is exactly
/// [`invoke_spec`] of the state's image.
pub fn invoke_index(state: &mut State, index: usize, args: &Vec<RuntimeValue>) -> (r: Result<
    Option<RuntimeValue>,
    Trap,
>)
    ensures
        final(state)@ == invoke_spec(old(state)@, index as int, args@).0,
        invoke_res_view(r) == invoke_spec(old(state)@, index as int, args@).1,
{
    if index == LOG_INDEX {
        let (ptr, len) = match take_2(args) {
            Some(v) => v,
            None => { return Err(Trap::Fatal); },
        };
        match state.memory.read(ptr as u32, len as u64) {
            None => Err(Trap::Fatal),
            Some(bytes) => {
                state.log.push(bytes);
                proof {
                    assert(final(state)@ =~= log_spec(
                        old(state)@,
                        ptr as u32,
                        len as u64,
                    ).0);
                }
                Ok(None)
            },
        }
    } else if index == RESPONSE_SET_STATUS_LINE {
        let (status, ptr, len) = match take_3(args) {
            Some(v) => v,
            None => { return Err(Trap::Fatal); },
        };
        match state.memory.read(ptr as u32, len as u64) {
            None => Err(Trap::Fatal),
            Some(bytes) => {
                state.prepared_response.status_code = Some(status as u16);
                state.prepared_response.reason = Some(bytes);
                proof {
                    assert(final(state)@ =~= set_status_spec(
                        old(state)@,
                        status,
                        ptr as u32,
                        len as u64,
                    ).0);
                }
                Ok(None)
            },
        }
    } else if index == RESPONSE_SET_HEADER {
        let (p1, l1, p2, l2) = match take_4(args) {
            Some(v) => v,
            None => { return Err(Trap::Fatal); },
        };
        let name = match state.memory.read(p1 as u32, l1 as u64) {
            None => { return Err(Trap::Fatal); },
            Some(b) => b,
        };
        let value = match state.memory.read(p2 as u32, l2 as u64) {
            None => { return Err(Trap::Fatal); },
            Some(b) => b,
        };
        state.prepared_response.headers.push((name, value));
        proof {
            assert(final(state)@ =~= set_header_spec(
                old(state)@,
                p1 as u32,
                l1 as u64,
                p2 as u32,
                l2 as u64,
            ).0);
        }
        Ok(None)
    } else if index == RESPONSE_SET_BODY {
        let (ptr, len) = match take_2(args) {
            Some(v) => v,
            None => { return Err(Trap::Fatal); },
        };
        match state.memory.read(ptr as u32, len as u64) {
            None => Err(Trap::Fatal),
            Some(bytes) => {
                state.prepared_response.body = Some(bytes);
                proof {
                    assert(final(state)@ =~= set_body_spec(
                        old(state)@,
                        ptr as u32,
                        len as u64,
                    ).0);
                }
                Ok(None)
            },
        }
    } else if index == TCP_CONNECT {
        let (ptr, len) = match take_2(args) {
            Some(v) => v,
            None => { return Err(Trap::Fatal); },
        };
        match state.memory.read(ptr as u32, len as u64) {
            None => Err(Trap::Fatal),
            Some(addr) => Err(Trap::Host(AsyncHostError::Connecting(addr))),
        }
    } else if index == TCP_READ {
        let (fd, ptr, cap) = match take_3(args) {
            Some(v) => v,
            None => { return Err(Trap::Fatal); },
        };
        let n = state.memory.size();
        if cap as u64 <= n as u64 && ptr as u32 as u64 <= n as u64 - cap as u64 {
            Err(Trap::Host(AsyncHostError::TcpRead(fd, ptr as u32, cap as u64)))
        } else {
            Err(Trap::Fatal)
        }
    } else if index == TCP_WRITE {
        let (fd, ptr, len) = match take_3(args) {
            Some(v) => v,
            None => { return Err(Trap::Fatal); },
        };
        let n = state.memory.size();
        if len as u64 <= n as u64 && ptr as u32 as u64 <= n as u64 - len as u64 {
            Err(Trap::Host(AsyncHostError::TcpWrite(fd, ptr as u32, len as u64, 0)))
        } else {
            Err(Trap::Fatal)
        }
    } else if index == DB_GET {
        let (kp, kl, vp, vcap) = match take_4(args) {
            Some(v) => v,
            None => { return Err(Trap::Fatal); },
        };
        let key = match state.memory.read(kp as u32, kl as u64) {
            None => { return Err(Trap::Fatal); },
            Some(b) => b,
        };
        match db_find(&state.db, &key) {
            None => Ok(Some(RuntimeValue::I64(-1))),
            Some(value) => {
                if value.len() as u64 > i64::MAX as u64 {
                    return Err(Trap::Fatal);
                }
                let cap = vcap as u64;
                let to_write: usize = if value.len() as u64 <= cap {
                    value.len()
                } else {
                    cap as usize
                };
                let part = vstd::slice::slice_subrange(value.as_slice(), 0, to_write);
                match state.memory.write(vp as u32, part) {
                    Err(_) => Err(Trap::Fatal),
                    Ok(_) => {
                        proof {
                            assert(final(state)@ =~= db_get_spec(
                                old(state)@,
                                kp as u32,
                                kl as u64,
                                vp as u32,
                                vcap as u64,
                            ).0);
                        }
                        Ok(Some(RuntimeValue::I64(value.len() as i64)))
                    },
                }
            },
        }
    } else {
        Err(Trap::Fatal)
    }
}

/// The host index an import name resolves to.
pub open spec fn resolve_spec(name: Seq<u8>) -> Option<usize> {
    if name == "log".spec_bytes() {
        Some(LOG_INDEX)
    } else if name == "response_set_status_line".spec_bytes() {
        Some(RESPONSE_SET_STATUS_LINE)
    } else if name == "response_set_header".spec_bytes() {
        Some(RESPONSE_SET_HEADER)
    } else if name == "response_set_body".spec_bytes() {
        Some(RESPONSE_SET_BODY)
    } else if name == "tcp_connect".spec_bytes() {
        Some(TCP_CONNECT)
    } else if name == "tcp_read".spec_bytes() {
        Some(TCP_READ)
    } else if name == "tcp_write".spec_bytes() {
        Some(TCP_WRITE)
    } else if name == "db_get".spec_bytes() {
        Some(DB_GET)
    } else {
        None
    }
}

/// Resolve an import name to its host index; `None` is an instantiation
/// error.
pub fn resolve_func(name: &[u8]) -> (r: Option<usize>)
    ensures
        r == resolve_spec(name@),
{
    if crate::bytes::bytes_eq(name, "log".as_bytes()) {
        Some(LOG_INDEX)
    } else if crate::bytes::bytes_eq(name, "response_set_status_line".as_bytes()) {
        Some(RESPONSE_SET_STATUS_LINE)
    } else if crate::bytes::bytes_eq(name, "response_set_header".as_bytes()) {
        Some(RESPONSE_SET_HEADER)
    } else if crate::bytes::bytes_eq(name, "response_set_body".as_bytes()) {
        Some(RESPONSE_SET_BODY)
    } else if crate::bytes::bytes_eq(name, "tcp_connect".as_bytes()) {
        Some(TCP_CONNECT)
    } else if crate::bytes::bytes_eq(name, "tcp_read".as_bytes()) {
        Some(TCP_READ)
    } else if crate::bytes::bytes_eq(name, "tcp_write".as_bytes()) {
        Some(TCP_WRITE)
    } else if crate::bytes::bytes_eq(name, "db_get".as_bytes()) {
        Some(DB_GET)
    } else {
        None
    }
}

/// Strict signature check at module-instantiation time: the declared types
/// must equal the table exactly.
pub fn check_signature(index: usize, params: &Vec<ValueType>, ret: &Option<ValueType>) -> (b:
    bool)
    ensures
        b == (valid_host_index(index as int) && params@ == host_params(index as int) && *ret
            == host_ret(index as int)),
{
    if index >= 8 {
        return false;
    }
    let ret_ok = match (ret, ret_of(index)) {
        (None, None) => true,
        (Some(a), Some(b)) => value_type_eq(*a, b),
        _ => false,
    };
    if !ret_ok {
        return false;
    }
    let table = params_of(index);
    if params.len() != table.len() {
        return false;
    }
    let n = table.len();
    let mut i: usize = 0;
    while i < n
        invariant
            i <= n,
            n == params@.len() == table@.len(),
            table@ == host_params(index as int),
            forall|j: int| 0 <= j < i ==> params@[j] == table@[j],
        decreases n - i,
    {
        if !value_type_eq(params[i], table[i]) {
            return false;
        }
        i = i + 1;
    }
    proof {
        assert(params@ =~= host_params(index as int));
    }
    true
}

fn value_type_eq(a: ValueType, b: ValueType) -> (r: bool)
    ensures
        r == (a == b),
{
    match (a, b) {
        (ValueType::I32, ValueType::I32) => true,
        (ValueType::I64, ValueType::I64) => true,
        _ => false,
    }
}

/// The parameter-type table as a vector.
fn params_of(index: usize) -> (v: Vec<ValueType>)
    requires
        index < 8,
    ensures
        v@ == host_params(index as int),
{
    let mut v: Vec<ValueType> = Vec::new();
    if index == LOG_INDEX || index == RESPONSE_SET_BODY || index == TCP_CONNECT {
        v.push(ValueType::I32);
        v.push(ValueType::I64);
        proof {
            assert(v@ =~= host_params(index as int));
        }
    } else if index == RESPONSE_SET_STATUS_LINE || index == TCP_READ || index == TCP_WRITE {
        v.push(ValueType::I32);
        v.push(ValueType::I32);
        v.push(ValueType::I64);
        proof {
            assert(v@ =~= host_params(index as int));
        }
    } else {
        v.push(ValueType::I32);
        v.push(ValueType::I64);
        v.push(ValueType::I32);
        v.push(ValueType::I64);
        proof {
            assert(v@ =~= host_params(index as int));
        }
    }
    v
}

/// The return-type table.
fn ret_of(index: usize) -> (r: Option<ValueType>)
    ensures
        r == host_ret(index as int),
{
    if index == TCP_CONNECT {
        Some(ValueType::I32)
    } else if index == TCP_READ || index == TCP_WRITE || index == DB_GET {
        Some(ValueType::I64)
    } else {
        None
    }
}

/// Memory safety at the ABI: a suspending host call validates its
/// pointer and length against the current linear memory before the session
/// services any I/O, so an invalid range faults the call instead of
/// reaching outside the sandbox.  The inline calls only touch memory
/// through bounds-checked reads and writes.
pub proof fn lemma_host_call_pointer_validated(s: StateV, index: int, args: Seq<RuntimeValue>)
    ensures
        invoke_spec(s, index, args).1 matches InvokeResV::Yield(y) ==> match y {
            YieldV::TcpRead(_, ptr, cap) => range_ok(ptr, cap, s.memory.len()),
            YieldV::TcpWrite(_, ptr, len, _) => range_ok(ptr, len, s.memory.len()),
            YieldV::Connecting(_) => true,
        },
{
}

/// A host call never changes the env: the backbone of the `db_get`
/// idempotence law.
pub proof fn lemma_invoke_preserves_db(s: StateV, index: int, args: Seq<RuntimeValue>)
    ensures
        invoke_spec(s, index, args).0.db == s.db,
{
}

/// The `db_get` length probe is idempotent: a probe with capacity zero
/// leaves memory unchanged, so a second call with the same key reports the
/// same length, and what it writes is a prefix of the stored value.
pub proof fn lemma_db_get_probe_idempotent(
    s: StateV,
    kp: u32,
    kl: u64,
    vp1: u32,
    vp2: u32,
    vcap: u64,
)
    requires
        mem_read_spec(s.memory, kp, kl) is Some,
        db_lookup(s.db, mem_read_spec(s.memory, kp, kl)->0) is Some,
        db_lookup(s.db, mem_read_spec(s.memory, kp, kl)->0)->0.len() <= i64::MAX,
        vp1 <= s.memory.len(),
    ensures
        ({
            let probe = db_get_spec(s, kp, kl, vp1, 0);
            let second = db_get_spec(probe.0, kp, kl, vp2, vcap);
            let value = db_lookup(s.db, mem_read_spec(s.memory, kp, kl)->0)->0;
            &&& probe.0.memory == s.memory
            &&& probe.1 == InvokeResV::Done(Some(RuntimeValue::I64(value.len() as i64)))
            &&& (second.1 matches InvokeResV::Done(r) ==> r == Some(
                RuntimeValue::I64(value.len() as i64),
            ))
            &&& (second.1 is Done && vcap >= value.len() && range_ok(
                vp2,
                value.len() as u64,
                s.memory.len(),
            ) ==> second.0.memory.subrange(vp2 as int, vp2 + value.len()) == value)
        }),
{
    let key = mem_read_spec(s.memory, kp, kl)->0;
    let value = db_lookup(s.db, key)->0;
    let probe = db_get_spec(s, kp, kl, vp1, 0);
    assert(value.subrange(0, 0) =~= Seq::<u8>::empty());
    assert(probe.0.memory =~= s.memory);
    let second = db_get_spec(probe.0, kp, kl, vp2, vcap);
    if vcap >= value.len() && range_ok(vp2, value.len() as u64, s.memory.len()) {
        assert(value.subrange(0, value.len() as int) =~= value);
        assert(second.0.memory.subrange(vp2 as int, vp2 + value.len()) =~= value);
    }
}

} // verus!
