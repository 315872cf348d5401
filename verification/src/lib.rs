//! A serverless request gateway that executes portable bytecode handlers per
//! HTTP request.
//!
//! A handler module exports functions that are invoked to produce an HTTP
//! response; the gateway imports into each module a set of host calls for
//! logging, response construction, a small key/value environment, and
//! outbound TCP I/O.  Outbound I/O is non-blocking and driven by a
//! single-threaded event loop, yet the host-call surface exposed to handlers
//! is synchronous: each host call that could block is a suspension point of
//! the bytecode interpreter.  The interpreter's call stack is frozen, the
//! I/O intent is recorded as session state, and the interpreter is resumed
//! with the result pushed onto its value stack when readiness arrives.
//!
//! The crate verifies the core: the linear-memory sandbox, the host-call
//! environment, the resumable interpreter driver, the route table, and the
//! session state machine that ties them to a socket reactor.  Sockets,
//! polling and configuration files live outside the library; callers hand in
//! bytes and readiness events and carry out the I/O actions the library
//! returns.

pub mod bytes;
pub mod config;
pub mod host;
pub mod interpreter;
pub mod memory;
pub mod parse;
pub mod reactor;
pub mod response;
pub mod session;
pub mod value;
