use wasm_gateway::config::ApplicationState;
use wasm_gateway::config::Config;
use wasm_gateway::config::WasmApp;
use wasm_gateway::interpreter::DataSegment;
use wasm_gateway::interpreter::Export;
use wasm_gateway::interpreter::Function;
use wasm_gateway::interpreter::HostImport;
use wasm_gateway::interpreter::Instr;
use wasm_gateway::interpreter::Module;
use wasm_gateway::reactor::Gateway;
use wasm_gateway::reactor::GatewayAction;
use wasm_gateway::reactor::SlotState;
use wasm_gateway::session::IoResult;
use wasm_gateway::session::Readiness;
use wasm_gateway::session::SessionState;
use wasm_gateway::session::WriteResult;
use wasm_gateway::value::ValueType;

fn imp(name: &str, params: &[ValueType], ret: Option<ValueType>) -> HostImport {
    HostImport { name: name.as_bytes().to_vec(), params: params.to_vec(), ret }
}

/// The full host ABI, imported in host-index order so that `CallHost(i)`
/// names host function `i`.
fn abi_imports() -> Vec<HostImport> {
    vec![
        imp("log", &[ValueType::I32, ValueType::I64], None),
        imp("response_set_status_line", &[ValueType::I32, ValueType::I32, ValueType::I64], None),
        imp(
            "response_set_header",
            &[ValueType::I32, ValueType::I64, ValueType::I32, ValueType::I64],
            None,
        ),
        imp("response_set_body", &[ValueType::I32, ValueType::I64], None),
        imp("tcp_connect", &[ValueType::I32, ValueType::I64], Some(ValueType::I32)),
        imp("tcp_read", &[ValueType::I32, ValueType::I32, ValueType::I64], Some(ValueType::I64)),
        imp("tcp_write", &[ValueType::I32, ValueType::I32, ValueType::I64], Some(ValueType::I64)),
        imp(
            "db_get",
            &[ValueType::I32, ValueType::I64, ValueType::I32, ValueType::I64],
            Some(ValueType::I64),
        ),
    ]
}

fn seg(offset: u32, bytes: &[u8]) -> DataSegment {
    DataSegment { offset, bytes: bytes.to_vec() }
}

fn module(functions: Vec<Function>, exports: Vec<(&str, usize)>, data: Vec<DataSegment>) -> Module {
    Module {
        imports: abi_imports(),
        functions,
        exports: exports
            .into_iter()
            .map(|(n, f)| Export { name: n.as_bytes().to_vec(), func: f })
            .collect(),
        data,
        mem_size: 4096,
    }
}

/// The static-hello handler: status line, content-length header, fixed body.
fn hello_module() -> Module {
    let body = vec![
        Instr::I32Const(200),
        Instr::I32Const(0),
        Instr::I64Const(2),
        Instr::CallHost(1),
        Instr::I32Const(16),
        Instr::I64Const(14),
        Instr::I32Const(32),
        Instr::I64Const(2),
        Instr::CallHost(2),
        Instr::I32Const(64),
        Instr::I64Const(23),
        Instr::CallHost(3),
        Instr::Return,
    ];
    module(
        vec![Function { n_params: 0, n_locals: 0, returns: false, body }],
        vec![("hello", 0)],
        vec![
            seg(0, b"Ok"),
            seg(16, b"Content-length"),
            seg(32, b"23"),
            seg(64, b"Hello world from wasm!\n"),
        ],
    )
}

/// The db_get two-phase probe handler: probe with capacity zero, then read
/// the exact length; on a missing key answer a diagnostic body.
fn db_module() -> Module {
    let body = vec![
        // 0..5: probe with cap 0, store length in local 0
        Instr::I32Const(0),
        Instr::I64Const(12),
        Instr::I32Const(64),
        Instr::I64Const(0),
        Instr::CallHost(7),
        Instr::LocalSet(0),
        // 6..8: branch to the miss path when the length is negative
        Instr::LocalGet(0),
        Instr::I64Ltz,
        Instr::BrIf(23),
        // 9..14: second call with the probed capacity
        Instr::I32Const(0),
        Instr::I64Const(12),
        Instr::I32Const(64),
        Instr::LocalGet(0),
        Instr::CallHost(7),
        Instr::LocalSet(1),
        // 15..22: respond 200 with the value as body
        Instr::I32Const(200),
        Instr::I32Const(16),
        Instr::I64Const(2),
        Instr::CallHost(1),
        Instr::I32Const(64),
        Instr::LocalGet(1),
        Instr::CallHost(3),
        Instr::Return,
        // 23..30: miss path: 200 with a diagnostic body
        Instr::I32Const(200),
        Instr::I32Const(16),
        Instr::I64Const(2),
        Instr::CallHost(1),
        Instr::I32Const(32),
        Instr::I64Const(7),
        Instr::CallHost(3),
        Instr::Return,
    ];
    module(
        vec![Function { n_params: 0, n_locals: 2, returns: false, body }],
        vec![("handle", 0)],
        vec![seg(0, b"/env/backend"), seg(16, b"Ok"), seg(32, b"no key\n")],
    )
}

/// The backend round-trip handler: connect, write `hello\n`, read up to 100
/// bytes, respond with what came back; on a failed connect answer
/// `refused\n`.
fn backend_module() -> Module {
    let body = vec![
        // 0..3: connect to the address at 0, store the id in local 0
        Instr::I32Const(0),
        Instr::I64Const(14),
        Instr::CallHost(4),
        Instr::LocalSet(0),
        // 4..6: branch to the refused path (starting at 27) on a negative id
        Instr::LocalGet(0),
        Instr::I32Ltz,
        Instr::BrIf(27),
        // 7..11: write `hello\n`
        Instr::LocalGet(0),
        Instr::I32Const(64),
        Instr::I64Const(6),
        Instr::CallHost(6),
        Instr::Drop,
        // 12..16: read up to 100 bytes into 128, store the count in local 1
        Instr::LocalGet(0),
        Instr::I32Const(128),
        Instr::I64Const(100),
        Instr::CallHost(5),
        Instr::LocalSet(1),
        // 17..25: respond 200 with the read bytes as body
        Instr::I32Const(200),
        Instr::I32Const(16),
        Instr::I64Const(2),
        Instr::CallHost(1),
        Instr::I32Const(128),
        Instr::LocalGet(1),
        Instr::CallHost(3),
        Instr::Return,
        Instr::Return,
        Instr::Return,
        // 27..34: refused path
        Instr::I32Const(200),
        Instr::I32Const(16),
        Instr::I64Const(2),
        Instr::CallHost(1),
        Instr::I32Const(48),
        Instr::I64Const(8),
        Instr::CallHost(3),
        Instr::Return,
    ];
    module(
        vec![Function { n_params: 0, n_locals: 2, returns: false, body }],
        vec![("handle", 0)],
        vec![seg(0, b"127.0.0.1:9000"), seg(16, b"Ok"), seg(48, b"refused\n"), seg(64, b"hello\n")],
    )
}

fn app(method: &str, path: &str, function: &str, env: Option<Vec<(&str, &str)>>) -> WasmApp {
    WasmApp {
        file_path: b"m.bin".to_vec(),
        method: method.as_bytes().to_vec(),
        url_path: path.as_bytes().to_vec(),
        function: function.as_bytes().to_vec(),
        env: env.map(|e| {
            e.into_iter().map(|(k, v)| (k.as_bytes().to_vec(), v.as_bytes().to_vec())).collect()
        }),
    }
}

fn gateway(m: Module, applications: Vec<WasmApp>) -> Gateway {
    let config = Config { listen_address: b"127.0.0.1:8080".to_vec(), applications };
    let state = ApplicationState::new(config, vec![(b"m.bin".to_vec(), m)]).unwrap();
    Gateway::new(state, 16)
}

fn readable_ev() -> Readiness {
    Readiness { readable: true, writable: false, hup: false, error: false }
}

fn writable_ev() -> Readiness {
    Readiness { readable: false, writable: true, hup: false, error: false }
}

fn error_ev() -> Readiness {
    Readiness { readable: false, writable: false, hup: false, error: true }
}

/// Drive one client request with no backend traffic; returns the response
/// bytes written to the client.
fn drive_simple(gw: &mut Gateway, request: &[u8]) -> Option<Vec<u8>> {
    let slot = gw.accept().unwrap();
    assert!(gw.on_event(slot, readable_ev()));
    let mut request = Some(request.to_vec());
    let mut response: Option<Vec<u8>> = None;
    let mut sent_writable = false;
    for _ in 0..200 {
        match gw.step_session(slot) {
            GatewayAction::Step => {},
            GatewayAction::Idle => {
                assert!(!sent_writable, "stuck after writable was delivered");
                gw.on_event(slot, writable_ev());
                sent_writable = true;
            },
            GatewayAction::ReadClient(s, _) => {
                assert_eq!(s, slot);
                match request.take() {
                    Some(bytes) => gw.report_read(s, &IoResult::Data(bytes)),
                    None => gw.report_read(s, &IoResult::WouldBlock),
                }
            },
            GatewayAction::WriteClient(s, bytes) => {
                assert_eq!(s, slot);
                assert!(response.is_none(), "a second response was written");
                response = Some(bytes);
            },
            GatewayAction::Closed(_) => return response,
            other => panic!("unexpected action {:?}", action_name(&other)),
        }
    }
    panic!("session did not settle");
}

fn action_name(a: &GatewayAction) -> &'static str {
    match a {
        GatewayAction::Idle => "Idle",
        GatewayAction::Step => "Step",
        GatewayAction::Closed(_) => "Closed",
        GatewayAction::ConnectBackend(_, _) => "ConnectBackend",
        GatewayAction::ReadClient(_, _) => "ReadClient",
        GatewayAction::WriteClient(_, _) => "WriteClient",
        GatewayAction::ReadBackend(_, _) => "ReadBackend",
        GatewayAction::WriteBackend(_, _) => "WriteBackend",
    }
}

#[test]
fn static_hello() {
    let mut gw = gateway(hello_module(), vec![app("GET", "/hello", "hello", None)]);
    let response = drive_simple(&mut gw, b"GET /hello HTTP/1.1\r\nHost:x\r\n\r\n").unwrap();
    assert_eq!(
        response,
        b"HTTP/1.1 200 Ok\r\nContent-length: 23\r\n\r\nHello world from wasm!\n".to_vec()
    );
}

#[test]
fn route_miss_is_404() {
    let mut gw = gateway(hello_module(), vec![app("GET", "/hello", "hello", None)]);
    let response = drive_simple(&mut gw, b"GET /nope HTTP/1.1\r\n\r\n").unwrap();
    assert_eq!(
        response,
        b"HTTP/1.1 404 Not Found\r\nContent-length: 16\r\n\r\nRoute not found\n".to_vec()
    );
}

#[test]
fn method_mismatch_is_404() {
    let mut gw = gateway(hello_module(), vec![app("GET", "/hello", "hello", None)]);
    let response = drive_simple(&mut gw, b"POST /hello HTTP/1.1\r\n\r\n").unwrap();
    assert_eq!(
        response,
        b"HTTP/1.1 404 Not Found\r\nContent-length: 16\r\n\r\nRoute not found\n".to_vec()
    );
}

#[test]
fn missing_export_is_404_function() {
    let mut gw = gateway(hello_module(), vec![app("GET", "/hello", "nosuch", None)]);
    let response = drive_simple(&mut gw, b"GET /hello HTTP/1.1\r\n\r\n").unwrap();
    assert_eq!(
        response,
        b"HTTP/1.1 404 Not Found\r\nContent-length: 19\r\n\r\nFunction not found\n".to_vec()
    );
}

#[test]
fn db_get_hit_serves_value() {
    let mut gw = gateway(
        db_module(),
        vec![app("GET", "/db", "handle", Some(vec![("/env/backend", "127.0.0.1:9000")]))],
    );
    let response = drive_simple(&mut gw, b"GET /db HTTP/1.1\r\n\r\n").unwrap();
    let expected = b"HTTP/1.1 200 Ok\r\n\r\n127.0.0.1:9000".to_vec();
    assert_eq!(response, expected);
}

#[test]
fn db_get_miss_returns_minus_one_twice() {
    let mut gw = gateway(db_module(), vec![app("GET", "/db", "handle", None)]);
    let response = drive_simple(&mut gw, b"GET /db HTTP/1.1\r\n\r\n").unwrap();
    assert_eq!(response, b"HTTP/1.1 200 Ok\r\n\r\nno key\n".to_vec());
}

#[test]
fn handler_without_response_is_500() {
    let m = module(
        vec![Function { n_params: 0, n_locals: 0, returns: false, body: vec![Instr::Return] }],
        vec![("noop", 0)],
        vec![],
    );
    let mut gw = gateway(m, vec![app("GET", "/x", "noop", None)]);
    let response = drive_simple(&mut gw, b"GET /x HTTP/1.1\r\n\r\n").unwrap();
    assert_eq!(
        response,
        b"HTTP/1.1 500 Internal Server Error\r\nContent-length: 15\r\n\r\nInternal error\n".to_vec()
    );
}

#[test]
fn trapping_handler_is_500() {
    // Popping from an empty value stack is a fatal trap.
    let m = module(
        vec![Function { n_params: 0, n_locals: 0, returns: false, body: vec![Instr::Drop] }],
        vec![("bad", 0)],
        vec![],
    );
    let mut gw = gateway(m, vec![app("GET", "/x", "bad", None)]);
    let response = drive_simple(&mut gw, b"GET /x HTTP/1.1\r\n\r\n").unwrap();
    assert!(response.starts_with(b"HTTP/1.1 500 "));
}

#[test]
fn bad_pointer_in_host_call_is_500() {
    // The body pointer is far outside the 4096-byte linear memory.
    let m = module(
        vec![Function {
            n_params: 0,
            n_locals: 0,
            returns: false,
            body: vec![Instr::I32Const(100000), Instr::I64Const(10), Instr::CallHost(3)],
        }],
        vec![("bad", 0)],
        vec![],
    );
    let mut gw = gateway(m, vec![app("GET", "/x", "bad", None)]);
    let response = drive_simple(&mut gw, b"GET /x HTTP/1.1\r\n\r\n").unwrap();
    assert!(response.starts_with(b"HTTP/1.1 500 "));
}

#[test]
fn parse_error_closes_without_response() {
    let mut gw = gateway(hello_module(), vec![app("GET", "/hello", "hello", None)]);
    let response = drive_simple(&mut gw, b"\0\0garbage\r\n\r\n");
    assert!(response.is_none());
}

#[test]
fn oversized_request_closes_without_response() {
    let mut gw = gateway(hello_module(), vec![app("GET", "/hello", "hello", None)]);
    // 9000 bytes with no request end: overflows the fixed 8 KiB buffer.
    let mut big = b"GET /hello HTTP/1.1\r\n".to_vec();
    big.extend(std::iter::repeat(b'a').take(9000));
    let response = drive_simple(&mut gw, &big);
    assert!(response.is_none());
}

#[test]
fn duplicate_route_last_wins() {
    let m = hello_module();
    let mut gw = gateway(
        m,
        vec![app("GET", "/hello", "nosuch", None), app("GET", "/hello", "hello", None)],
    );
    let response = drive_simple(&mut gw, b"GET /hello HTTP/1.1\r\n\r\n").unwrap();
    assert!(response.starts_with(b"HTTP/1.1 200 Ok"));
}

/// Drive the backend round-trip of one session up to its suspended
/// `tcp_read`, delivering the connect and servicing the backend write.
/// Returns the backend slot.
fn drive_to_tcp_read(gw: &mut Gateway, slot: usize) -> usize {
    assert!(gw.on_event(slot, readable_ev()));
    let mut request = Some(b"GET /be HTTP/1.1\r\n\r\n".to_vec());
    let mut backend = None;
    for _ in 0..200 {
        match gw.step_session(slot) {
            GatewayAction::Step => {},
            GatewayAction::ReadClient(s, _) => match request.take() {
                Some(bytes) => gw.report_read(s, &IoResult::Data(bytes)),
                None => gw.report_read(s, &IoResult::WouldBlock),
            },
            GatewayAction::ConnectBackend(b, addr) => {
                assert_eq!(addr, b"127.0.0.1:9000".to_vec());
                backend = Some(b);
                // the non-blocking connect settles: writable
                assert!(gw.on_event(b, writable_ev()));
            },
            GatewayAction::WriteBackend(b, bytes) => {
                assert_eq!(Some(b), backend);
                assert_eq!(bytes, b"hello\n".to_vec());
                gw.report_write(b, &WriteResult::Wrote(bytes.len()));
            },
            GatewayAction::Idle => {
                // suspended tcp_read, waiting for backend readability
                let b = backend.unwrap();
                match &gw.slots[slot] {
                    SlotState::Client(s) => {
                        assert!(matches!(s.state, SessionState::TcpRead(_, _, _)));
                    },
                    _ => panic!("session gone"),
                }
                return b;
            },
            other => panic!("unexpected action {:?}", action_name(&other)),
        }
    }
    panic!("never reached the suspended read");
}

#[test]
fn backend_round_trip() {
    let mut gw = gateway(backend_module(), vec![app("GET", "/be", "handle", None)]);
    let slot = gw.accept().unwrap();
    let backend = drive_to_tcp_read(&mut gw, slot);
    // the backend answers
    assert!(gw.on_event(backend, readable_ev()));
    let mut fed = false;
    let mut response: Option<Vec<u8>> = None;
    let mut sent_writable = false;
    for _ in 0..200 {
        match gw.step_session(slot) {
            GatewayAction::Step => {},
            GatewayAction::ReadBackend(b, cap) => {
                assert_eq!(b, backend);
                assert!(cap <= 100);
                if fed {
                    gw.report_read(b, &IoResult::WouldBlock);
                } else {
                    gw.report_read(b, &IoResult::Data(b"world\n".to_vec()));
                    fed = true;
                }
            },
            GatewayAction::Idle => {
                assert!(!sent_writable);
                gw.on_event(slot, writable_ev());
                sent_writable = true;
            },
            GatewayAction::WriteClient(_, bytes) => {
                response = Some(bytes);
            },
            GatewayAction::Closed(tokens) => {
                // both the client's and the backend's slots are given back
                assert!(tokens.contains(&slot));
                assert!(tokens.contains(&backend));
                let r = response.unwrap();
                assert_eq!(r, b"HTTP/1.1 200 Ok\r\n\r\nworld\n".to_vec());
                return;
            },
            other => panic!("unexpected action {:?}", action_name(&other)),
        }
    }
    panic!("session did not settle");
}

#[test]
fn backend_connect_refused() {
    // pollers report a refused non-blocking connect as one event carrying
    // writable together with error/hup: the handler must still see -1
    let failed = Readiness { readable: false, writable: true, hup: true, error: true };
    drive_connect_refused(failed);
}

#[test]
fn backend_connect_refused_error_only() {
    drive_connect_refused(error_ev());
}

/// Drive the backend handler while the connect fails with the given
/// readiness event; the handler must take its refused path.
fn drive_connect_refused(failure: Readiness) {
    let mut gw = gateway(backend_module(), vec![app("GET", "/be", "handle", None)]);
    let slot = gw.accept().unwrap();
    assert!(gw.on_event(slot, readable_ev()));
    let mut request = Some(b"GET /be HTTP/1.1\r\n\r\n".to_vec());
    let mut response: Option<Vec<u8>> = None;
    let mut sent_writable = false;
    for _ in 0..200 {
        match gw.step_session(slot) {
            GatewayAction::Step => {},
            GatewayAction::ReadClient(s, _) => match request.take() {
                Some(bytes) => gw.report_read(s, &IoResult::Data(bytes)),
                None => gw.report_read(s, &IoResult::WouldBlock),
            },
            GatewayAction::ConnectBackend(b, _) => {
                // the listener is absent: the connect fails
                assert!(gw.on_event(b, failure));
            },
            GatewayAction::Idle => {
                assert!(!sent_writable);
                gw.on_event(slot, writable_ev());
                sent_writable = true;
            },
            GatewayAction::WriteClient(_, bytes) => {
                response = Some(bytes);
            },
            GatewayAction::Closed(_) => {
                let r = response.unwrap();
                assert_eq!(r, b"HTTP/1.1 200 Ok\r\n\r\nrefused\n".to_vec());
                return;
            },
            other => panic!("unexpected action {:?}", action_name(&other)),
        }
    }
    panic!("session did not settle");
}

#[test]
fn fairness_under_concurrent_reads() {
    let mut gw = gateway(backend_module(), vec![app("GET", "/be", "handle", None)]);
    let mut pairs = Vec::new();
    for _ in 0..3 {
        let slot = gw.accept().unwrap();
        let backend = drive_to_tcp_read(&mut gw, slot);
        pairs.push((slot, backend));
    }
    // every session whose backend signals readiness observes progress
    for (slot, backend) in pairs {
        assert!(gw.on_event(backend, readable_ev()));
        match gw.step_session(slot) {
            GatewayAction::ReadBackend(b, _) => assert_eq!(b, backend),
            other => panic!("session starved: {:?}", action_name(&other)),
        }
    }
}
