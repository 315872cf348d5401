use wasm_gateway::host::AsyncHostError;
use wasm_gateway::host::DB_GET;
use wasm_gateway::host::LOG_INDEX;
use wasm_gateway::host::RESPONSE_SET_BODY;
use wasm_gateway::host::State;
use wasm_gateway::host::Trap;
use wasm_gateway::host::invoke_index;
use wasm_gateway::host::resolve_func;
use wasm_gateway::host::check_signature;
use wasm_gateway::interpreter::DataSegment;
use wasm_gateway::interpreter::Export;
use wasm_gateway::interpreter::Function;
use wasm_gateway::interpreter::HostImport;
use wasm_gateway::interpreter::Instr;
use wasm_gateway::interpreter::Module;
use wasm_gateway::interpreter::WasmInstance;
use wasm_gateway::interpreter::create_stack;
use wasm_gateway::interpreter::export_by_name;
use wasm_gateway::interpreter::init_memory;
use wasm_gateway::interpreter::resolve_imports;
use wasm_gateway::memory::LinearMemory;
use wasm_gateway::response::PreparedResponse;
use wasm_gateway::response::render;
use wasm_gateway::value::RuntimeValue;
use wasm_gateway::value::ValueType;

#[test]
fn memory_read_write_in_bounds() {
    let mut m = LinearMemory::new(8);
    assert_eq!(m.size(), 8);
    assert!(m.write(2, b"abc").is_ok());
    assert_eq!(m.read(2, 3), Some(b"abc".to_vec()));
    assert_eq!(m.read(0, 8).unwrap(), b"\0\0abc\0\0\0".to_vec());
}

#[test]
fn memory_rejects_out_of_bounds() {
    let mut m = LinearMemory::new(8);
    assert!(m.write(7, b"ab").is_err());
    assert!(m.read(7, 2).is_none());
    assert!(m.read(9, 0).is_none());
    // a failed write leaves the sandbox untouched
    assert_eq!(m.read(0, 8).unwrap(), vec![0u8; 8]);
}

#[test]
fn render_layout() {
    let resp = PreparedResponse {
        status_code: Some(200),
        reason: Some(b"Ok".to_vec()),
        headers: vec![
            (b"Content-length".to_vec(), b"5".to_vec()),
            (b"X-Extra".to_vec(), b"1".to_vec()),
        ],
        body: Some(b"hello".to_vec()),
    };
    let out = render(&resp);
    assert_eq!(out, b"HTTP/1.1 200 Ok\r\nContent-length: 5\r\nX-Extra: 1\r\n\r\nhello".to_vec());
}

#[test]
fn render_multi_digit_status() {
    let resp = PreparedResponse {
        status_code: Some(404),
        reason: Some(b"Not Found".to_vec()),
        headers: Vec::new(),
        body: Some(b"".to_vec()),
    };
    let out = render(&resp);
    assert_eq!(out, b"HTTP/1.1 404 Not Found\r\n\r\n".to_vec());
}

#[test]
fn resolve_and_check_signatures() {
    assert_eq!(resolve_func(b"db_get"), Some(DB_GET));
    assert_eq!(resolve_func(b"nope"), None);
    assert!(check_signature(
        DB_GET,
        &vec![ValueType::I32, ValueType::I64, ValueType::I32, ValueType::I64],
        &Some(ValueType::I64),
    ));
    // a mismatched import type is rejected
    assert!(!check_signature(
        DB_GET,
        &vec![ValueType::I32, ValueType::I64, ValueType::I32, ValueType::I64],
        &Some(ValueType::I32),
    ));
    assert!(!check_signature(DB_GET, &vec![ValueType::I32], &Some(ValueType::I64)));
}

fn state_with_key() -> State {
    let mut mem = LinearMemory::new(64);
    mem.write(0, b"k").unwrap();
    State::new(mem, vec![(b"k".to_vec(), b"value".to_vec())])
}

fn db_get_args(cap: i64) -> Vec<RuntimeValue> {
    vec![
        RuntimeValue::I32(0),
        RuntimeValue::I64(1),
        RuntimeValue::I32(16),
        RuntimeValue::I64(cap),
    ]
}

#[test]
fn db_get_length_probe_is_idempotent() {
    let mut st = state_with_key();
    // probe with capacity zero: full length, nothing written
    let first = invoke_index(&mut st, DB_GET, &db_get_args(0)).unwrap();
    assert_eq!(first, Some(RuntimeValue::I64(5)));
    assert_eq!(st.memory.read(16, 5).unwrap(), vec![0u8; 5]);
    // second call with the probed capacity: same length, value written
    let second = invoke_index(&mut st, DB_GET, &db_get_args(5)).unwrap();
    assert_eq!(second, Some(RuntimeValue::I64(5)));
    assert_eq!(st.memory.read(16, 5).unwrap(), b"value".to_vec());
}

#[test]
fn db_get_truncates_to_capacity_but_reports_full_length() {
    let mut st = state_with_key();
    let r = invoke_index(&mut st, DB_GET, &db_get_args(2)).unwrap();
    assert_eq!(r, Some(RuntimeValue::I64(5)));
    assert_eq!(st.memory.read(16, 5).unwrap(), b"va\0\0\0".to_vec());
}

#[test]
fn db_get_missing_key_is_minus_one() {
    let mut mem = LinearMemory::new(64);
    mem.write(0, b"k").unwrap();
    let mut st = State::new(mem, Vec::new());
    let r = invoke_index(&mut st, DB_GET, &db_get_args(0)).unwrap();
    assert_eq!(r, Some(RuntimeValue::I64(-1)));
}

#[test]
fn log_appends_to_the_operator_log() {
    let mut mem = LinearMemory::new(16);
    mem.write(0, b"hi").unwrap();
    let mut st = State::new(mem, Vec::new());
    let args = vec![RuntimeValue::I32(0), RuntimeValue::I64(2)];
    assert_eq!(invoke_index(&mut st, LOG_INDEX, &args).unwrap(), None);
    assert_eq!(invoke_index(&mut st, LOG_INDEX, &args).unwrap(), None);
    assert_eq!(st.log, vec![b"hi".to_vec(), b"hi".to_vec()]);
}

#[test]
fn re_setting_the_body_overwrites() {
    let mut mem = LinearMemory::new(16);
    mem.write(0, b"ab").unwrap();
    mem.write(2, b"cd").unwrap();
    let mut st = State::new(mem, Vec::new());
    let first = vec![RuntimeValue::I32(0), RuntimeValue::I64(2)];
    let second = vec![RuntimeValue::I32(2), RuntimeValue::I64(2)];
    invoke_index(&mut st, RESPONSE_SET_BODY, &first).unwrap();
    invoke_index(&mut st, RESPONSE_SET_BODY, &second).unwrap();
    assert_eq!(st.prepared_response.body, Some(b"cd".to_vec()));
}

#[test]
fn db_get_bad_key_pointer_is_fatal() {
    let mut st = state_with_key();
    let args = vec![
        RuntimeValue::I32(1000),
        RuntimeValue::I64(1),
        RuntimeValue::I32(16),
        RuntimeValue::I64(0),
    ];
    assert!(matches!(invoke_index(&mut st, DB_GET, &args), Err(Trap::Fatal)));
}

/// A module whose handler connects, then uses the injected backend id as
/// the response status: what the handler observes after a suspension is
/// exactly the injected value.
fn observe_module() -> Module {
    let body = vec![
        Instr::I32Const(0),
        Instr::I64Const(3),
        Instr::CallHost(0),  // tcp_connect (sole import)
        Instr::I32Const(0),
        Instr::I64Const(2),
        Instr::CallHost(1),  // response_set_status_line(status = injected, ptr 0, len 2)
        Instr::I32Const(0),
        Instr::I64Const(0),
        Instr::CallHost(2),  // empty body
        Instr::Return,
    ];
    Module {
        imports: vec![
            HostImport {
                name: b"tcp_connect".to_vec(),
                params: vec![ValueType::I32, ValueType::I64],
                ret: Some(ValueType::I32),
            },
            HostImport {
                name: b"response_set_status_line".to_vec(),
                params: vec![ValueType::I32, ValueType::I32, ValueType::I64],
                ret: None,
            },
            HostImport {
                name: b"response_set_body".to_vec(),
                params: vec![ValueType::I32, ValueType::I64],
                ret: None,
            },
        ],
        functions: vec![Function { n_params: 0, n_locals: 0, returns: false, body }],
        exports: vec![Export { name: b"h".to_vec(), func: 0 }],
        data: vec![DataSegment { offset: 0, bytes: b"x:1".to_vec() }],
        mem_size: 64,
    }
}

#[test]
fn injected_result_is_what_the_handler_observes() {
    let m = observe_module();
    let resolved = resolve_imports(&m).unwrap();
    let mem = init_memory(&m).unwrap();
    let f = export_by_name(&m, b"h").unwrap();
    let stack = create_stack(&m, f, &Vec::new()).unwrap();
    let st = State::new(mem, Vec::new());
    let mut inst = WasmInstance::new(st, resolved, stack);
    // the handler suspends on tcp_connect with the address bytes
    match inst.resume(&m) {
        Err(Trap::Host(AsyncHostError::Connecting(addr))) => {
            assert_eq!(addr, b"x:1".to_vec());
        },
        _ => panic!("expected a connect suspension"),
    }
    // inject 222 and resume: the very value becomes the response status
    inst.add_function_result(RuntimeValue::I32(222)).unwrap();
    assert!(inst.resume(&m).is_ok());
    assert_eq!(inst.state.prepared_response.status_code, Some(222));
}

#[test]
fn instantiation_rejects_wrong_import_signature() {
    let m = Module {
        imports: vec![
            HostImport {
                name: b"tcp_connect".to_vec(),
                params: vec![ValueType::I32],
                ret: Some(ValueType::I32),
            },
        ],
        functions: vec![
            Function { n_params: 0, n_locals: 0, returns: false, body: vec![Instr::Return] },
        ],
        exports: vec![Export { name: b"h".to_vec(), func: 0 }],
        data: Vec::new(),
        mem_size: 64,
    };
    assert!(resolve_imports(&m).is_none());
}

#[test]
fn instantiation_rejects_oversized_data_segment() {
    let m = Module {
        imports: Vec::new(),
        functions: vec![
            Function { n_params: 0, n_locals: 0, returns: false, body: vec![Instr::Return] },
        ],
        exports: vec![Export { name: b"h".to_vec(), func: 0 }],
        data: vec![DataSegment { offset: 60, bytes: b"abcdef".to_vec() }],
        mem_size: 64,
    };
    assert!(init_memory(&m).is_none());
}

#[test]
fn out_of_fuel_is_a_trap() {
    // an infinite loop: jump back to the start forever
    let m = Module {
        imports: Vec::new(),
        functions: vec![
            Function { n_params: 0, n_locals: 0, returns: false, body: vec![Instr::Jump(0)] },
        ],
        exports: vec![Export { name: b"h".to_vec(), func: 0 }],
        data: Vec::new(),
        mem_size: 64,
    };
    let resolved = resolve_imports(&m).unwrap();
    let mem = init_memory(&m).unwrap();
    let f = export_by_name(&m, b"h").unwrap();
    let stack = create_stack(&m, f, &Vec::new()).unwrap();
    let st = State::new(mem, Vec::new());
    let mut inst = WasmInstance::new(st, resolved, stack);
    assert!(matches!(inst.resume(&m), Err(Trap::Fatal)));
}

#[test]
fn nested_calls_return_values_to_callers() {
    // function 1 returns 21; the handler doubles it by calling twice and
    // storing the sum as the status
    let handler = Function {
        n_params: 0,
        n_locals: 0,
        returns: false,
        body: vec![
            Instr::Call(1),
            Instr::I32Const(0),
            Instr::I64Const(0),
            Instr::CallHost(0),  // response_set_status_line(21, 0, 0)
            Instr::I32Const(0),
            Instr::I64Const(0),
            Instr::CallHost(1),  // empty body
            Instr::Return,
        ],
    };
    let leaf = Function {
        n_params: 0,
        n_locals: 0,
        returns: true,
        body: vec![Instr::I32Const(21), Instr::Return],
    };
    let m = Module {
        imports: vec![
            HostImport {
                name: b"response_set_status_line".to_vec(),
                params: vec![ValueType::I32, ValueType::I32, ValueType::I64],
                ret: None,
            },
            HostImport {
                name: b"response_set_body".to_vec(),
                params: vec![ValueType::I32, ValueType::I64],
                ret: None,
            },
        ],
        functions: vec![handler, leaf],
        exports: vec![Export { name: b"h".to_vec(), func: 0 }],
        data: Vec::new(),
        mem_size: 64,
    };
    let resolved = resolve_imports(&m).unwrap();
    let mem = init_memory(&m).unwrap();
    let f = export_by_name(&m, b"h").unwrap();
    let stack = create_stack(&m, f, &Vec::new()).unwrap();
    let st = State::new(mem, Vec::new());
    let mut inst = WasmInstance::new(st, resolved, stack);
    assert!(inst.resume(&m).is_ok());
    assert_eq!(inst.state.prepared_response.status_code, Some(21));
}
