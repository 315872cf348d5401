//! The resumable interpreter driver.
//!
//! The driver owns a function-context stack whose bottom frame is the
//! top-level handler.  It steps bytecode until the handler returns or a
//! host call suspends.  On a suspension the current frame goes back on the
//! stack with its program counter already past the call site and no return
//! value pushed, so pushing the result and re-entering behaves exactly as
//! if the host call had returned that value inline.
//!
//! Execution is pinned by two pure models: [`step_spec`], one instruction,
//! and [`resume_spec`], the whole driver loop including host-call dispatch.

use vstd::prelude::*;

use crate::host::AsyncHostError;
use crate::host::InvokeResV;
use crate::host::State;
use crate::host::StateV;
use crate::host::Trap;
use crate::host::YieldV;
use crate::host::invoke_index;
use crate::host::invoke_spec;
use crate::value::RuntimeValue;
use crate::value::ValueType;
use crate::value::args_match;

verus! {

/// Most values one frame's value stack can hold.
pub const DEFAULT_VALUE_STACK_LIMIT: usize = 16384;

/// Most frames the function-context stack can hold.
pub const DEFAULT_FRAME_STACK_LIMIT: usize = 16384;

/// Instruction budget of one instance; exhausting it is a fatal trap, like
/// overflowing a stack.
pub const DEFAULT_STEP_LIMIT: usize = 1000000;

/// One bytecode instruction.
#[derive(Clone, Copy, Debug, PartialEq, Eq, Structural)]
pub enum Instr {
    /// Push the constant.
    I32Const(i32),
    /// Push the constant.
    I64Const(i64),
    /// Pop one value.
    Drop,
    /// Push the local at the index.
    LocalGet(u32),
    /// Pop one value into the local at the index.
    LocalSet(u32),
    /// Pop an `i32`, push 1 if it is negative, else 0.
    I32Ltz,
    /// Pop an `i64`, push 1 if it is negative, else 0.
    I64Ltz,
    /// Pop an `i32`, push 1 if it is zero, else 0.
    I32Eqz,
    /// Pop an `i64`, push 1 if it is zero, else 0.
    I64Eqz,
    /// Continue at the target program counter.
    Jump(u32),
    /// Pop an `i32`; continue at the target if it is nonzero.
    BrIf(u32),
    /// Call the module function at the index.
    Call(u32),
    /// Call the host import at the index.
    CallHost(u32),
    /// Return from the current frame.
    Return,
}

/// A function defined inside a module.
pub struct Function {
    /// How many values the caller passes; they become the first locals.
    pub n_params: usize,
    /// How many further zero-initialized locals the body uses.
    pub n_locals: usize,
    /// Whether the function leaves one value for its caller.
    pub returns: bool,
    pub body: Vec<Instr>,
}

/// A host function the module imports, by name and signature.
pub struct HostImport {
    pub name: Vec<u8>,
    pub params: Vec<ValueType>,
    pub ret: Option<ValueType>,
}

/// A function the module exports, by name.
pub struct Export {
    pub name: Vec<u8>,
    pub func: usize,
}

/// Bytes copied into linear memory at instantiation.
pub struct DataSegment {
    pub offset: u32,
    pub bytes: Vec<u8>,
}

/// An immutable, parsed bytecode artifact with named exports.  Loaded once
/// per distinct path at startup and shared read-only by the sessions that
/// route to it.
pub struct Module {
    pub imports: Vec<HostImport>,
    pub functions: Vec<Function>,
    pub exports: Vec<Export>,
    pub data: Vec<DataSegment>,
    /// Size of the instance's linear memory in bytes.
    pub mem_size: usize,
}

#[verifier::ext_equal]
pub ghost struct FunctionV {
    pub n_params: nat,
    pub n_locals: nat,
    pub returns: bool,
    pub body: Seq<Instr>,
}

#[verifier::ext_equal]
pub ghost struct ImportV {
    pub name: Seq<u8>,
    pub params: Seq<ValueType>,
    pub ret: Option<ValueType>,
}

#[verifier::ext_equal]
pub ghost struct ModuleV {
    pub imports: Seq<ImportV>,
    pub functions: Seq<FunctionV>,
    pub exports: Seq<(Seq<u8>, int)>,
    pub data: Seq<(u32, Seq<u8>)>,
    pub mem_size: nat,
}

impl View for Function {
    type V = FunctionV;

    open spec fn view(&self) -> FunctionV {
        FunctionV {
            n_params: self.n_params as nat,
            n_locals: self.n_locals as nat,
            returns: self.returns,
            body: self.body@,
        }
    }
}

impl View for HostImport {
    type V = ImportV;

    open spec fn view(&self) -> ImportV {
        ImportV { name: self.name@, params: self.params@, ret: self.ret }
    }
}

impl View for Module {
    type V = ModuleV;

    open spec fn view(&self) -> ModuleV {
        ModuleV {
            imports: self.imports@.map_values(|i: HostImport| i@),
            functions: self.functions@.map_values(|f: Function| f@),
            exports: self.exports@.map_values(|e: Export| (e.name@, e.func as int)),
            data: self.data@.map_values(|d: DataSegment| (d.offset, d.bytes@)),
            mem_size: self.mem_size as nat,
        }
    }
}

/// One call frame: the function, its program counter, its locals and its
/// value stack.
pub struct FunctionContext {
    pub func: usize,
    pub pc: usize,
    pub locals: Vec<RuntimeValue>,
    pub stack: Vec<RuntimeValue>,
}

#[verifier::ext_equal]
pub ghost struct FrameV {
    pub func: int,
    pub pc: int,
    pub locals: Seq<RuntimeValue>,
    pub stack: Seq<RuntimeValue>,
}

impl View for FunctionContext {
    type V = FrameV;

    open spec fn view(&self) -> FrameV {
        FrameV {
            func: self.func as int,
            pc: self.pc as int,
            locals: self.locals@,
            stack: self.stack@,
        }
    }
}

/// Image of a whole function-context stack; the last element is the top.
pub open spec fn frames_view(s: Seq<FunctionContext>) -> Seq<FrameV> {
    s.map_values(|c: FunctionContext| c@)
}

/// What one step of the engine produced.
pub enum StepOutcome {
    /// An instruction ran; keep stepping.
    Continue,
    /// The bottom frame returned with the handler's result.
    Returned(Option<RuntimeValue>),
    /// The instruction was a host call: its import index and arguments.
    /// The caller frame is already back on the stack, suspended.
    HostCall(usize, Vec<RuntimeValue>),
    /// A fatal trap: bad index, type mismatch, stack exhaustion.
    Trapped,
}

pub ghost enum StepOutV {
    Continue,
    Returned(Option<RuntimeValue>),
    HostCall(int, Seq<RuntimeValue>),
    Trapped,
}

pub open spec fn step_out_view(o: StepOutcome) -> StepOutV {
    match o {
        StepOutcome::Continue => StepOutV::Continue,
        StepOutcome::Returned(v) => StepOutV::Returned(v),
        StepOutcome::HostCall(i, args) => StepOutV::HostCall(i as int, args@),
        StepOutcome::Trapped => StepOutV::Trapped,
    }
}

/// Zero-initialized locals.
pub open spec fn zero_locals(n: nat) -> Seq<RuntimeValue> {
    Seq::new(n, |i: int| RuntimeValue::I32(0))
}

/// Replace the top frame.
pub open spec fn replace_top(fs: Seq<FrameV>, fr: FrameV) -> Seq<FrameV> {
    fs.drop_last().push(fr)
}

/// Push a value onto the top frame and advance its program counter.
pub open spec fn push_value_step(fs: Seq<FrameV>, v: RuntimeValue) -> (Seq<FrameV>, StepOutV) {
    let fr = fs.last();
    if fr.stack.len() >= DEFAULT_VALUE_STACK_LIMIT {
        (fs, StepOutV::Trapped)
    } else {
        (
            replace_top(fs, FrameV { pc: fr.pc + 1, stack: fr.stack.push(v), ..fr }),
            StepOutV::Continue,
        )
    }
}

/// Return from the top frame: pop it, and hand its result (if the function
/// declares one) to the caller's value stack, or out of the driver when no
/// caller is left.
pub open spec fn return_step(m: ModuleV, fs: Seq<FrameV>) -> (Seq<FrameV>, StepOutV) {
    let fr = fs.last();
    let rest = fs.drop_last();
    let f = m.functions[fr.func];
    if f.returns {
        if fr.stack.len() == 0 {
            (fs, StepOutV::Trapped)
        } else {
            let v = fr.stack.last();
            if rest.len() == 0 {
                (rest, StepOutV::Returned(Some(v)))
            } else {
                let caller = rest.last();
                if caller.stack.len() >= DEFAULT_VALUE_STACK_LIMIT {
                    (fs, StepOutV::Trapped)
                } else {
                    (
                        replace_top(rest, FrameV { stack: caller.stack.push(v), ..caller }),
                        StepOutV::Continue,
                    )
                }
            }
        }
    } else {
        if rest.len() == 0 {
            (rest, StepOutV::Returned(None))
        } else {
            (rest, StepOutV::Continue)
        }
    }
}

/// One step of the engine on the frame stack: execute the next instruction
/// of the top frame.
pub open spec fn step_spec(m: ModuleV, fs: Seq<FrameV>) -> (Seq<FrameV>, StepOutV) {
    if fs.len() == 0 {
        (fs, StepOutV::Trapped)
    } else {
        let fr = fs.last();
        let rest = fs.drop_last();
        if !(0 <= fr.func < m.functions.len()) {
            (fs, StepOutV::Trapped)
        } else {
            let f = m.functions[fr.func];
            if fr.pc >= f.body.len() {
                // Falling off the end behaves like an explicit return.
                return_step(m, fs)
            } else {
                match f.body[fr.pc] {
                    Instr::I32Const(c) => push_value_step(fs, RuntimeValue::I32(c)),
                    Instr::I64Const(c) => push_value_step(fs, RuntimeValue::I64(c)),
                    Instr::Drop => {
                        if fr.stack.len() == 0 {
                            (fs, StepOutV::Trapped)
                        } else {
                            (
                                replace_top(
                                    fs,
                                    FrameV { pc: fr.pc + 1, stack: fr.stack.drop_last(), ..fr },
                                ),
                                StepOutV::Continue,
                            )
                        }
                    },
                    Instr::LocalGet(i) => {
                        if i >= fr.locals.len() {
                            (fs, StepOutV::Trapped)
                        } else {
                            push_value_step(fs, fr.locals[i as int])
                        }
                    },
                    Instr::LocalSet(i) => {
                        if i >= fr.locals.len() || fr.stack.len() == 0 {
                            (fs, StepOutV::Trapped)
                        } else {
                            (
                                replace_top(
                                    fs,
                                    FrameV {
                                        pc: fr.pc + 1,
                                        locals: fr.locals.update(i as int, fr.stack.last()),
                                        stack: fr.stack.drop_last(),
                                        ..fr
                                    },
                                ),
                                StepOutV::Continue,
                            )
                        }
                    },
                    Instr::I32Ltz => test_step(fs, ValueType::I32, true),
                    Instr::I64Ltz => test_step(fs, ValueType::I64, true),
                    Instr::I32Eqz => test_step(fs, ValueType::I32, false),
                    Instr::I64Eqz => test_step(fs, ValueType::I64, false),
                    Instr::Jump(t) => (
                        replace_top(fs, FrameV { pc: t as int, ..fr }),
                        StepOutV::Continue,
                    ),
                    Instr::BrIf(t) => {
                        if fr.stack.len() == 0 || fr.stack.last().value_type() != ValueType::I32 {
                            (fs, StepOutV::Trapped)
                        } else {
                            let taken = fr.stack.last().spec_i32() != 0;
                            (
                                replace_top(
                                    fs,
                                    FrameV {
                                        pc: if taken {
                                            t as int
                                        } else {
                                            fr.pc + 1
                                        },
                                        stack: fr.stack.drop_last(),
                                        ..fr
                                    },
                                ),
                                StepOutV::Continue,
                            )
                        }
                    },
                    Instr::Call(fi) => {
                        if !(fi < m.functions.len()) {
                            (fs, StepOutV::Trapped)
                        } else {
                            let callee = m.functions[fi as int];
                            if fr.stack.len() < callee.n_params {
                                (fs, StepOutV::Trapped)
                            } else if fs.len() >= DEFAULT_FRAME_STACK_LIMIT {
                                (fs, StepOutV::Trapped)
                            } else {
                                let base = fr.stack.len() - callee.n_params;
                                let fr2 = FrameV {
                                    pc: fr.pc + 1,
                                    stack: fr.stack.subrange(0, base as int),
                                    ..fr
                                };
                                let nfr = FrameV {
                                    func: fi as int,
                                    pc: 0,
                                    locals: fr.stack.subrange(base as int, fr.stack.len() as int)
                                        + zero_locals(callee.n_locals),
                                    stack: Seq::<RuntimeValue>::empty(),
                                };
                                (rest.push(fr2).push(nfr), StepOutV::Continue)
                            }
                        }
                    },
                    Instr::CallHost(ii) => {
                        if !(ii < m.imports.len()) {
                            (fs, StepOutV::Trapped)
                        } else {
                            let imp = m.imports[ii as int];
                            if fr.stack.len() < imp.params.len() {
                                (fs, StepOutV::Trapped)
                            } else {
                                let base = fr.stack.len() - imp.params.len();
                                let args = fr.stack.subrange(base as int, fr.stack.len() as int);
                                if !args_match(args, imp.params) {
                                    (fs, StepOutV::Trapped)
                                } else {
                                    let fr2 = FrameV {
                                        pc: fr.pc + 1,
                                        stack: fr.stack.subrange(0, base as int),
                                        ..fr
                                    };
                                    (replace_top(fs, fr2), StepOutV::HostCall(ii as int, args))
                                }
                            }
                        }
                    },
                    Instr::Return => return_step(m, fs),
                }
            }
        }
    }
}

/// Pop one value of the given type, push 1 or 0 for `is negative` (or
/// `is zero`), advance.
pub open spec fn test_step(fs: Seq<FrameV>, ty: ValueType, negative: bool) -> (
    Seq<FrameV>,
    StepOutV,
) {
    let fr = fs.last();
    if fr.stack.len() == 0 || fr.stack.last().value_type() != ty {
        (fs, StepOutV::Trapped)
    } else {
        let hold = match ty {
            ValueType::I32 => if negative {
                fr.stack.last().spec_i32() < 0
            } else {
                fr.stack.last().spec_i32() == 0
            },
            ValueType::I64 => if negative {
                fr.stack.last().spec_i64() < 0
            } else {
                fr.stack.last().spec_i64() == 0
            },
        };
        let v = RuntimeValue::I32(
            if hold {
                1
            } else {
                0
            },
        );
        (
            replace_top(fs, FrameV { pc: fr.pc + 1, stack: fr.stack.drop_last().push(v), ..fr }),
            StepOutV::Continue,
        )
    }
}

proof fn lemma_frames_view_push(s: Seq<FunctionContext>, c: FunctionContext)
    ensures
        frames_view(s.push(c)) == frames_view(s).push(c@),
{
    assert(frames_view(s.push(c)) =~= frames_view(s).push(c@));
}

proof fn lemma_frames_view_drop(s: Seq<FunctionContext>)
    requires
        s.len() > 0,
    ensures
        frames_view(s.drop_last()) == frames_view(s).drop_last(),
{
    assert(frames_view(s.drop_last()) =~= frames_view(s).drop_last());
}

/// Execute the next instruction of the top frame.
pub fn step(module: &Module, stack: &mut Vec<FunctionContext>) -> (out: StepOutcome)
    ensures
        frames_view(final(stack)@) == step_spec(module@, frames_view(old(stack)@)).0,
        step_out_view(out) == step_spec(module@, frames_view(old(stack)@)).1,
{
    let ghost pre = frames_view(old(stack)@);
    let mut ctx = match stack.pop() {
        None => {
            proof {
                assert(frames_view(stack@) =~= pre);
            }
            return StepOutcome::Trapped;
        },
        Some(c) => c,
    };
    proof {
        lemma_frames_view_drop(old(stack)@);
        assert(ctx@ == pre.last());
    }
    let ghost fr = pre.last();
    let ghost rest = pre.drop_last();
    if ctx.func >= module.functions.len() {
        stack.push(ctx);
        proof {
            lemma_frames_view_push(old(stack)@.drop_last(), ctx);
            assert(frames_view(stack@) =~= pre);
        }
        return StepOutcome::Trapped;
    }
    let nbody = module.functions[ctx.func].body.len();
    if ctx.pc >= nbody {
        return do_return(module, stack, ctx, Ghost(pre));
    }
    let instr = module.functions[ctx.func].body[ctx.pc];
    match instr {
        Instr::I32Const(c) => do_push(stack, ctx, RuntimeValue::I32(c), Ghost(pre)),
        Instr::I64Const(c) => do_push(stack, ctx, RuntimeValue::I64(c), Ghost(pre)),
        Instr::Drop => {
            if ctx.stack.len() == 0 {
                stack.push(ctx);
                proof {
                    lemma_frames_view_push(old(stack)@.drop_last(), ctx);
                    assert(frames_view(stack@) =~= pre);
                }
                return StepOutcome::Trapped;
            }
            ctx.stack.pop();
            ctx.pc = ctx.pc + 1;
            stack.push(ctx);
            proof {
                lemma_frames_view_push(old(stack)@.drop_last(), ctx);
                assert(frames_view(stack@) =~= step_spec(module@, pre).0);
            }
            StepOutcome::Continue
        },
        Instr::LocalGet(i) => {
            if i as usize >= ctx.locals.len() {
                stack.push(ctx);
                proof {
                    lemma_frames_view_push(old(stack)@.drop_last(), ctx);
                    assert(frames_view(stack@) =~= pre);
                }
                return StepOutcome::Trapped;
            }
            let v = ctx.locals[i as usize];
            do_push(stack, ctx, v, Ghost(pre))
        },
        Instr::LocalSet(i) => {
            if i as usize >= ctx.locals.len() || ctx.stack.len() == 0 {
                stack.push(ctx);
                proof {
                    lemma_frames_view_push(old(stack)@.drop_last(), ctx);
                    assert(frames_view(stack@) =~= pre);
                }
                return StepOutcome::Trapped;
            }
            let v = ctx.stack[ctx.stack.len() - 1];
            ctx.stack.pop();
            ctx.locals[i as usize] = v;
            ctx.pc = ctx.pc + 1;
            stack.push(ctx);
            proof {
                lemma_frames_view_push(old(stack)@.drop_last(), ctx);
                assert(frames_view(stack@) =~= step_spec(module@, pre).0);
            }
            StepOutcome::Continue
        },
        Instr::I32Ltz => do_test(module, stack, ctx, ValueType::I32, true, Ghost(pre)),
        Instr::I64Ltz => do_test(module, stack, ctx, ValueType::I64, true, Ghost(pre)),
        Instr::I32Eqz => do_test(module, stack, ctx, ValueType::I32, false, Ghost(pre)),
        Instr::I64Eqz => do_test(module, stack, ctx, ValueType::I64, false, Ghost(pre)),
        Instr::Jump(t) => {
            ctx.pc = t as usize;
            stack.push(ctx);
            proof {
                lemma_frames_view_push(old(stack)@.drop_last(), ctx);
                assert(frames_view(stack@) =~= step_spec(module@, pre).0);
            }
            StepOutcome::Continue
        },
        Instr::BrIf(t) => {
            if ctx.stack.len() == 0 {
                stack.push(ctx);
                proof {
                    lemma_frames_view_push(old(stack)@.drop_last(), ctx);
                    assert(frames_view(stack@) =~= pre);
                }
                return StepOutcome::Trapped;
            }
            let v = ctx.stack[ctx.stack.len() - 1];
            match v {
                RuntimeValue::I32(x) => {
                    ctx.stack.pop();
                    ctx.pc = if x != 0 {
                        t as usize
                    } else {
                        ctx.pc + 1
                    };
                    stack.push(ctx);
                    proof {
                        lemma_frames_view_push(old(stack)@.drop_last(), ctx);
                        assert(frames_view(stack@) =~= step_spec(module@, pre).0);
                    }
                    StepOutcome::Continue
                },
                _ => {
                    stack.push(ctx);
                    proof {
                        lemma_frames_view_push(old(stack)@.drop_last(), ctx);
                        assert(frames_view(stack@) =~= pre);
                    }
                    StepOutcome::Trapped
                },
            }
        },
        Instr::Call(fi) => {
            let fi = fi as usize;
            if fi >= module.functions.len() || ctx.stack.len() < module.functions[fi].n_params
                || stack.len() >= DEFAULT_FRAME_STACK_LIMIT - 1 {
                stack.push(ctx);
                proof {
                    lemma_frames_view_push(old(stack)@.drop_last(), ctx);
                    assert(frames_view(stack@) =~= pre);
                }
                return StepOutcome::Trapped;
            }
            let np = module.functions[fi].n_params;
            let nl = module.functions[fi].n_locals;
            let base = ctx.stack.len() - np;
            let mut locals: Vec<RuntimeValue> = Vec::new();
            let mut k: usize = 0;
            while k < np
                invariant
                    k <= np,
                    base + np == ctx.stack@.len(),
                    base + np <= usize::MAX,
                    locals@ == ctx.stack@.subrange(base as int, base + k),
                decreases np - k,
            {
                locals.push(ctx.stack[base + k]);
                assert(locals@ =~= ctx.stack@.subrange(base as int, base + k + 1));
                k = k + 1;
            }
            let mut k: usize = 0;
            while k < nl
                invariant
                    k <= nl,
                    locals@ == ctx.stack@.subrange(base as int, base + np) + zero_locals(k as nat),
                decreases nl - k,
            {
                locals.push(RuntimeValue::I32(0));
                assert(locals@ =~= ctx.stack@.subrange(base as int, base + np) + zero_locals(
                    (k + 1) as nat,
                ));
                k = k + 1;
            }
            ctx.stack.truncate(base);
            ctx.pc = ctx.pc + 1;
            let nctx = FunctionContext { func: fi, pc: 0, locals, stack: Vec::new() };
            stack.push(ctx);
            stack.push(nctx);
            proof {
                lemma_frames_view_push(old(stack)@.drop_last(), ctx);
                lemma_frames_view_push(old(stack)@.drop_last().push(ctx), nctx);
                assert(frames_view(stack@) =~= step_spec(module@, pre).0);
            }
            StepOutcome::Continue
        },
        Instr::CallHost(ii) => {
            let ii = ii as usize;
            if ii >= module.imports.len()
                || ctx.stack.len() < module.imports[ii].params.len() {
                stack.push(ctx);
                proof {
                    lemma_frames_view_push(old(stack)@.drop_last(), ctx);
                    assert(frames_view(stack@) =~= pre);
                }
                return StepOutcome::Trapped;
            }
            let np = module.imports[ii].params.len();
            let base = ctx.stack.len() - np;
            let mut args: Vec<RuntimeValue> = Vec::new();
            let mut k: usize = 0;
            while k < np
                invariant
                    k <= np,
                    base + np == ctx.stack@.len(),
                    base + np <= usize::MAX,
                    args@ == ctx.stack@.subrange(base as int, base + k),
                decreases np - k,
            {
                args.push(ctx.stack[base + k]);
                assert(args@ =~= ctx.stack@.subrange(base as int, base + k + 1));
                k = k + 1;
            }
            proof {
                assert(args@ =~= ctx.stack@.subrange(base as int, ctx.stack@.len() as int));
            }
            if !check_args(&args, &module.imports[ii].params) {
                stack.push(ctx);
                proof {
                    lemma_frames_view_push(old(stack)@.drop_last(), ctx);
                    assert(frames_view(stack@) =~= pre);
                }
                return StepOutcome::Trapped;
            }
            ctx.stack.truncate(base);
            ctx.pc = ctx.pc + 1;
            stack.push(ctx);
            proof {
                lemma_frames_view_push(old(stack)@.drop_last(), ctx);
                assert(frames_view(stack@) =~= step_spec(module@, pre).0);
            }
            StepOutcome::HostCall(ii, args)
        },
        Instr::Return => do_return(module, stack, ctx, Ghost(pre)),
    }
}

/// Push `v` onto the popped top frame `ctx` and put it back.
fn do_push(
    stack: &mut Vec<FunctionContext>,
    ctx: FunctionContext,
    v: RuntimeValue,
    Ghost(pre): Ghost<Seq<FrameV>>,
) -> (out: StepOutcome)
    requires
        pre.len() > 0,
        frames_view(old(stack)@) == pre.drop_last(),
        ctx@ == pre.last(),
        pre.last().pc < usize::MAX,
    ensures
        frames_view(final(stack)@) == push_value_step(pre, v).0,
        step_out_view(out) == push_value_step(pre, v).1,
{
    let mut ctx = ctx;
    if ctx.stack.len() >= DEFAULT_VALUE_STACK_LIMIT {
        stack.push(ctx);
        proof {
            lemma_frames_view_push(old(stack)@, ctx);
            assert(frames_view(stack@) =~= pre);
        }
        return StepOutcome::Trapped;
    }
    ctx.stack.push(v);
    ctx.pc = ctx.pc + 1;
    stack.push(ctx);
    proof {
        lemma_frames_view_push(old(stack)@, ctx);
        assert(frames_view(stack@) =~= push_value_step(pre, v).0);
    }
    StepOutcome::Continue
}

/// Pop, test, push the flag: the shared body of the four test instructions.
fn do_test(
    module: &Module,
    stack: &mut Vec<FunctionContext>,
    ctx: FunctionContext,
    ty: ValueType,
    negative: bool,
    Ghost(pre): Ghost<Seq<FrameV>>,
) -> (out: StepOutcome)
    requires
        pre.len() > 0,
        frames_view(old(stack)@) == pre.drop_last(),
        ctx@ == pre.last(),
        pre.last().pc < usize::MAX,
    ensures
        frames_view(final(stack)@) == test_step(pre, ty, negative).0,
        step_out_view(out) == test_step(pre, ty, negative).1,
{
    let mut ctx = ctx;
    if ctx.stack.len() == 0 {
        stack.push(ctx);
        proof {
            lemma_frames_view_push(old(stack)@, ctx);
            assert(frames_view(stack@) =~= pre);
        }
        return StepOutcome::Trapped;
    }
    let v = ctx.stack[ctx.stack.len() - 1];
    let ok: bool = match (v, ty) {
        (RuntimeValue::I32(_), ValueType::I32) => true,
        (RuntimeValue::I64(_), ValueType::I64) => true,
        _ => false,
    };
    if !ok {
        stack.push(ctx);
        proof {
            lemma_frames_view_push(old(stack)@, ctx);
            assert(frames_view(stack@) =~= pre);
        }
        return StepOutcome::Trapped;
    }
    let hold: bool = match v {
        RuntimeValue::I32(x) => if negative {
            x < 0
        } else {
            x == 0
        },
        RuntimeValue::I64(x) => if negative {
            x < 0
        } else {
            x == 0
        },
    };
    ctx.stack.pop();
    ctx.stack.push(
        RuntimeValue::I32(
            if hold {
                1
            } else {
                0
            },
        ),
    );
    ctx.pc = ctx.pc + 1;
    stack.push(ctx);
    proof {
        lemma_frames_view_push(old(stack)@, ctx);
        assert(frames_view(stack@) =~= test_step(pre, ty, negative).0);
    }
    StepOutcome::Continue
}

/// Return from the popped top frame `ctx`.
fn do_return(
    module: &Module,
    stack: &mut Vec<FunctionContext>,
    ctx: FunctionContext,
    Ghost(pre): Ghost<Seq<FrameV>>,
) -> (out: StepOutcome)
    requires
        pre.len() > 0,
        frames_view(old(stack)@) == pre.drop_last(),
        ctx@ == pre.last(),
        0 <= pre.last().func < module@.functions.len(),
    ensures
        frames_view(final(stack)@) == return_step(module@, pre).0,
        step_out_view(out) == return_step(module@, pre).1,
{
    if module.functions[ctx.func].returns {
        if ctx.stack.len() == 0 {
            stack.push(ctx);
            proof {
                lemma_frames_view_push(old(stack)@, ctx);
                assert(frames_view(stack@) =~= pre);
            }
            return StepOutcome::Trapped;
        }
        let v = ctx.stack[ctx.stack.len() - 1];
        if stack.len() == 0 {
            return StepOutcome::Returned(Some(v));
        }
        let ci = stack.len() - 1;
        if stack[ci].stack.len() >= DEFAULT_VALUE_STACK_LIMIT {
            stack.push(ctx);
            proof {
                lemma_frames_view_push(old(stack)@, ctx);
                assert(frames_view(stack@) =~= pre);
            }
            return StepOutcome::Trapped;
        }
        let caller = &mut stack[ci];
        caller.stack.push(v);
        proof {
            assert(frames_view(stack@) =~= return_step(module@, pre).0);
        }
        StepOutcome::Continue
    } else {
        if stack.len() == 0 {
            return StepOutcome::Returned(None);
        }
        StepOutcome::Continue
    }
}

/// What one whole driver run produced.
pub ghost enum RunResultV {
    /// The handler returned.
    Done(Option<RuntimeValue>),
    /// A host call suspended with this intent.
    Yield(YieldV),
    /// A fatal trap.
    Trapped,
}

/// State of the instance after a driver run.
#[verifier::ext_equal]
pub ghost struct RunV {
    pub stack: Seq<FrameV>,
    pub state: StateV,
    pub fuel: nat,
    pub result: RunResultV,
}

pub open spec fn run_res_view(r: Result<Option<RuntimeValue>, Trap>) -> RunResultV {
    match r {
        Ok(v) => RunResultV::Done(v),
        Err(Trap::Host(y)) => RunResultV::Yield(y@),
        Err(Trap::Fatal) => RunResultV::Trapped,
    }
}

/// Push a host-call result onto the suspended top frame; `None` when there
/// is no frame or no room.
pub open spec fn push_result_spec(fs: Seq<FrameV>, v: RuntimeValue) -> Option<Seq<FrameV>> {
    if fs.len() > 0 && fs.last().stack.len() < DEFAULT_VALUE_STACK_LIMIT {
        Some(replace_top(fs, FrameV { stack: fs.last().stack.push(v), ..fs.last() }))
    } else {
        None
    }
}

/// The whole driver loop: step until the handler returns, a host call
/// suspends, a trap fires, or the instruction budget runs out.  Host calls
/// found by the engine are dispatched against the host state; an inline
/// result is pushed back onto the caller's value stack before stepping on.
pub open spec fn resume_spec(
    m: ModuleV,
    fs: Seq<FrameV>,
    s: StateV,
    resolved: Seq<usize>,
    fuel: nat,
) -> RunV
    decreases fuel,
{
    if fuel == 0 {
        RunV { stack: fs, state: s, fuel: 0, result: RunResultV::Trapped }
    } else {
        let stepped = step_spec(m, fs);
        let fs1 = stepped.0;
        let left = (fuel - 1) as nat;
        match stepped.1 {
            StepOutV::Trapped => RunV { stack: fs1, state: s, fuel: left, result: RunResultV::Trapped },
            StepOutV::Returned(v) => RunV { stack: fs1, state: s, fuel: left, result: RunResultV::Done(v) },
            StepOutV::Continue => resume_spec(m, fs1, s, resolved, left),
            StepOutV::HostCall(ii, args) => {
                if !(0 <= ii < resolved.len()) {
                    RunV { stack: fs1, state: s, fuel: left, result: RunResultV::Trapped }
                } else {
                    let dispatched = invoke_spec(s, resolved[ii] as int, args);
                    let s2 = dispatched.0;
                    match dispatched.1 {
                        InvokeResV::Fatal => RunV {
                            stack: fs1,
                            state: s2,
                            fuel: left,
                            result: RunResultV::Trapped,
                        },
                        InvokeResV::Yield(y) => RunV {
                            stack: fs1,
                            state: s2,
                            fuel: left,
                            result: RunResultV::Yield(y),
                        },
                        InvokeResV::Done(opt) => match opt {
                            None => resume_spec(m, fs1, s2, resolved, left),
                            Some(v) => match push_result_spec(fs1, v) {
                                None => RunV {
                                    stack: fs1,
                                    state: s2,
                                    fuel: left,
                                    result: RunResultV::Trapped,
                                },
                                Some(fs2) => resume_spec(m, fs2, s2, resolved, left),
                            },
                        },
                    }
                }
            },
        }
    }
}

/// Run the engine until it returns, suspends, traps, or runs out of budget.
pub fn my_run_interpreter_loop(
    module: &Module,
    stack: &mut Vec<FunctionContext>,
    state: &mut State,
    resolved: &Vec<usize>,
    fuel: &mut usize,
) -> (r: Result<Option<RuntimeValue>, Trap>)
    ensures
        ({
            let rv = resume_spec(
                module@,
                frames_view(old(stack)@),
                old(state)@,
                resolved@,
                *old(fuel) as nat,
            );
            &&& frames_view(final(stack)@) == rv.stack
            &&& final(state)@ == rv.state
            &&& *final(fuel) as nat == rv.fuel
            &&& run_res_view(r) == rv.result
        }),
{
    let ghost m = module@;
    let ghost goal = resume_spec(
        m,
        frames_view(old(stack)@),
        old(state)@,
        resolved@,
        *old(fuel) as nat,
    );
    loop
        invariant
            m == module@,
            goal == resume_spec(
                m,
                frames_view(old(stack)@),
                old(state)@,
                resolved@,
                *old(fuel) as nat,
            ),
            goal == resume_spec(m, frames_view(stack@), state@, resolved@, *fuel as nat),
        decreases *fuel,
    {
        let ghost pre_fs = frames_view(stack@);
        let ghost pre_s = state@;
        let ghost pre_fuel = *fuel as nat;
        if *fuel == 0 {
            proof {
                assert(goal == RunV {
                    stack: frames_view(stack@),
                    state: state@,
                    fuel: 0,
                    result: RunResultV::Trapped,
                });
            }
            return Err(Trap::Fatal);
        }
        *fuel = *fuel - 1;
        let out = step(module, stack);
        match out {
            StepOutcome::Trapped => {
                proof {
                    assert(goal == RunV {
                        stack: frames_view(stack@),
                        state: state@,
                        fuel: *fuel as nat,
                        result: RunResultV::Trapped,
                    });
                }
                return Err(Trap::Fatal);
            },
            StepOutcome::Returned(v) => {
                proof {
                    assert(goal == RunV {
                        stack: frames_view(stack@),
                        state: state@,
                        fuel: *fuel as nat,
                        result: RunResultV::Done(v),
                    });
                }
                return Ok(v);
            },
            StepOutcome::Continue => {
                proof {
                    assert(goal == resume_spec(
                        m,
                        frames_view(stack@),
                        state@,
                        resolved@,
                        *fuel as nat,
                    ));
                }
            },
            StepOutcome::HostCall(ii, args) => {
                if ii >= resolved.len() {
                    return Err(Trap::Fatal);
                }
                let abi = resolved[ii];
                match invoke_index(state, abi, &args) {
                    Err(t) => {
                        return Err(t);
                    },
                    Ok(None) => {
                        proof {
                            assert(goal == resume_spec(
                                m,
                                frames_view(stack@),
                                state@,
                                resolved@,
                                *fuel as nat,
                            ));
                        }
                    },
                    Ok(Some(v)) => {
                        let n = stack.len();
                        if n == 0 {
                            return Err(Trap::Fatal);
                        }
                        if stack[n - 1].stack.len() >= DEFAULT_VALUE_STACK_LIMIT {
                            return Err(Trap::Fatal);
                        }
                        let top = &mut stack[n - 1];
                        top.stack.push(v);
                        proof {
                            let fs1 = step_spec(m, pre_fs).0;
                            assert(frames_view(stack@) =~= push_result_spec(fs1, v)->0);
                            assert(goal == resume_spec(
                                m,
                                frames_view(stack@),
                                state@,
                                resolved@,
                                *fuel as nat,
                            ));
                        }
                    },
                }
            },
        }
    }
}

/// The driver around one suspended module instance: the host state, the
/// function-context stack, the resolved import table and the remaining
/// instruction budget.
pub struct WasmInstance {
    pub state: State,
    pub stack: Vec<FunctionContext>,
    pub resolved: Vec<usize>,
    pub fuel: usize,
}

#[verifier::ext_equal]
pub ghost struct InstV {
    pub state: StateV,
    pub stack: Seq<FrameV>,
    pub resolved: Seq<usize>,
    pub fuel: nat,
}

impl View for WasmInstance {
    type V = InstV;

    open spec fn view(&self) -> InstV {
        InstV {
            state: self.state@,
            stack: frames_view(self.stack@),
            resolved: self.resolved@,
            fuel: self.fuel as nat,
        }
    }
}

impl WasmInstance {
    /// Wrap a fresh call stack with a full instruction budget.
    pub fn new(state: State, resolved: Vec<usize>, stack: Vec<FunctionContext>) -> (w:
        WasmInstance)
        ensures
            w.state == state,
            w.resolved == resolved,
            w.stack == stack,
            w.fuel == DEFAULT_STEP_LIMIT,
    {
        WasmInstance { state, stack, resolved, fuel: DEFAULT_STEP_LIMIT }
    }

    /// Run until the handler returns, a host call suspends, or a fatal trap
    /// fires.  On a suspension the stack is left exactly as the suspended
    /// call site needs it: arguments consumed, no result pushed.
    pub fn resume(&mut self, module: &Module) -> (r: Result<Option<RuntimeValue>, Trap>)
        ensures
            ({
                let rv = resume_spec(
                    module@,
                    frames_view(old(self).stack@),
                    old(self).state@,
                    old(self).resolved@,
                    old(self).fuel as nat,
                );
                &&& frames_view(final(self).stack@) == rv.stack
                &&& final(self).state@ == rv.state
                &&& final(self).fuel as nat == rv.fuel
                &&& run_res_view(r) == rv.result
                &&& final(self).resolved == old(self).resolved
            }),
    {
        my_run_interpreter_loop(
            module,
            &mut self.stack,
            &mut self.state,
            &self.resolved,
            &mut self.fuel,
        )
    }

    /// Push the result of a completed I/O intent onto the suspended frame's
    /// value stack; the next resumption behaves as if the suspended host
    /// call had returned this value.  Fails only without a frame to receive
    /// it or with a full value stack, which is fatal for the session.
    pub fn add_function_result(&mut self, return_value: RuntimeValue) -> (r: Result<(), Trap>)
        ensures
            ({
                match push_result_spec(frames_view(old(self).stack@), return_value) {
                    Some(fs2) => r is Ok && frames_view(final(self).stack@) == fs2,
                    None => r is Err && final(self).stack == old(self).stack,
                }
            }),
            final(self).state == old(self).state,
            final(self).resolved == old(self).resolved,
            final(self).fuel == old(self).fuel,
    {
        let n = self.stack.len();
        if n == 0 {
            return Err(Trap::Fatal);
        }
        if self.stack[n - 1].stack.len() >= DEFAULT_VALUE_STACK_LIMIT {
            return Err(Trap::Fatal);
        }
        let top = &mut self.stack[n - 1];
        top.stack.push(return_value);
        proof {
            assert(frames_view(self.stack@) =~= push_result_spec(
                frames_view(old(self).stack@),
                return_value,
            )->0);
        }
        Ok(())
    }
}

/// The initial function-context stack: one frame for the handler, its
/// arguments as the first locals, an empty value stack.
pub fn create_stack(module: &Module, func: usize, args: &Vec<RuntimeValue>) -> (r: Option<
    Vec<FunctionContext>,
>)
    ensures
        r is Some <==> func < module@.functions.len() && args@.len() == module@.functions[
            func as int
        ].n_params,
        r matches Some(st) ==> frames_view(st@) == seq![
            FrameV {
                func: func as int,
                pc: 0,
                locals: args@ + zero_locals(module@.functions[func as int].n_locals),
                stack: Seq::<RuntimeValue>::empty(),
            },
        ],
{
    if func >= module.functions.len() || args.len() != module.functions[func].n_params {
        return None;
    }
    let nl = module.functions[func].n_locals;
    let mut locals: Vec<RuntimeValue> = Vec::new();
    let np = args.len();
    let mut k: usize = 0;
    while k < np
        invariant
            k <= np,
            np == args@.len(),
            locals@ == args@.subrange(0, k as int),
        decreases np - k,
    {
        locals.push(args[k]);
        assert(locals@ =~= args@.subrange(0, k + 1));
        k = k + 1;
    }
    proof {
        assert(locals@ =~= args@ + zero_locals(0));
    }
    let mut k: usize = 0;
    while k < nl
        invariant
            k <= nl,
            locals@ == args@ + zero_locals(k as nat),
        decreases nl - k,
    {
        locals.push(RuntimeValue::I32(0));
        assert(locals@ =~= args@ + zero_locals((k + 1) as nat));
        k = k + 1;
    }
    let ctx = FunctionContext { func, pc: 0, locals, stack: Vec::new() };
    let mut st: Vec<FunctionContext> = Vec::new();
    st.push(ctx);
    proof {
        assert(frames_view(st@) =~= seq![
            FrameV {
                func: func as int,
                pc: 0,
                locals: args@ + zero_locals(module@.functions[func as int].n_locals),
                stack: Seq::<RuntimeValue>::empty(),
            },
        ]);
    }
    Some(st)
}

/// Whether one declared import resolves to a host function with exactly the
/// declared signature.
pub open spec fn import_ok(imp: ImportV) -> bool {
    match crate::host::resolve_spec(imp.name) {
        Some(idx) => imp.params == crate::host::host_params(idx as int) && imp.ret
            == crate::host::host_ret(idx as int),
        None => false,
    }
}

/// Resolve every import of the module against the host table, strictly
/// checking signatures; `None` is a fatal instantiation error.
pub fn resolve_imports(module: &Module) -> (r: Option<Vec<usize>>)
    ensures
        r is Some <==> forall|i: int|
            0 <= i < module@.imports.len() ==> import_ok(#[trigger] module@.imports[i]),
        r matches Some(v) ==> v@.len() == module@.imports.len() && forall|i: int|
            0 <= i < v@.len() ==> Some(#[trigger] v@[i]) == crate::host::resolve_spec(
                module@.imports[i].name,
            ),
{
    let n = module.imports.len();
    let mut out: Vec<usize> = Vec::new();
    let mut i: usize = 0;
    while i < n
        invariant
            i <= n,
            n == module@.imports.len(),
            out@.len() == i,
            forall|j: int| 0 <= j < i ==> import_ok(#[trigger] module@.imports[j]),
            forall|j: int|
                0 <= j < i ==> Some(#[trigger] out@[j]) == crate::host::resolve_spec(
                    module@.imports[j].name,
                ),
        decreases n - i,
    {
        let imp = &module.imports[i];
        match crate::host::resolve_func(imp.name.as_slice()) {
            None => {
                assert(!import_ok(module@.imports[i as int]));
                return None;
            },
            Some(idx) => {
                if !crate::host::check_signature(idx, &imp.params, &imp.ret) {
                    assert(!import_ok(module@.imports[i as int]));
                    return None;
                }
                out.push(idx);
            },
        }
        i = i + 1;
    }
    Some(out)
}

/// A zero-filled memory image.
pub open spec fn zero_mem(n: nat) -> Seq<u8> {
    Seq::new(n, |i: int| 0u8)
}

/// Linear memory after copying the data segments in order; `None` when one
/// falls outside the memory.
pub open spec fn apply_data(mem: Seq<u8>, data: Seq<(u32, Seq<u8>)>) -> Option<Seq<u8>>
    decreases data.len(),
{
    if data.len() == 0 {
        Some(mem)
    } else {
        let seg = data[0];
        if crate::memory::range_ok(seg.0, seg.1.len() as u64, mem.len()) {
            apply_data(crate::host::mem_write_spec(mem, seg.0, seg.1), data.drop_first())
        } else {
            None
        }
    }
}

/// Allocate the instance's linear memory and copy the module's data
/// segments into it; `None` is a fatal instantiation error.
pub fn init_memory(module: &Module) -> (r: Option<crate::memory::LinearMemory>)
    ensures
        match r {
            Some(mem) => apply_data(zero_mem(module@.mem_size), module@.data) == Some(mem@),
            None => apply_data(zero_mem(module@.mem_size), module@.data) is None,
        },
{
    let mut mem = crate::memory::LinearMemory::new(module.mem_size);
    let ghost zeroed = zero_mem(module@.mem_size);
    proof {
        assert(mem@ =~= zeroed);
    }
    let n = module.data.len();
    let mut i: usize = 0;
    proof {
        assert(module@.data.skip(0) =~= module@.data);
    }
    while i < n
        invariant
            i <= n,
            n == module@.data.len(),
            zeroed == zero_mem(module@.mem_size),
            apply_data(zeroed, module@.data) == apply_data(mem@, module@.data.skip(i as int)),
        decreases n - i,
    {
        let seg = &module.data[i];
        let ghost pre = mem@;
        match mem.write(seg.offset, seg.bytes.as_slice()) {
            Err(_) => {
                proof {
                    assert(module@.data.skip(i as int)[0] == module@.data[i as int]);
                    assert(apply_data(pre, module@.data.skip(i as int)) is None);
                }
                return None;
            },
            Ok(_) => {
                proof {
                    assert(module@.data.skip(i as int)[0] == module@.data[i as int]);
                    assert(mem@ == crate::host::mem_write_spec(
                        pre,
                        module@.data[i as int].0,
                        module@.data[i as int].1,
                    ));
                    assert(module@.data.skip(i as int).drop_first() =~= module@.data.skip(i + 1));
                }
            },
        }
        i = i + 1;
    }
    proof {
        assert(module@.data.skip(n as int) =~= Seq::<(u32, Seq<u8>)>::empty());
    }
    Some(mem)
}

/// The first export with this name, if any.
pub open spec fn export_lookup(exports: Seq<(Seq<u8>, int)>, name: Seq<u8>) -> Option<int>
    decreases exports.len(),
{
    if exports.len() == 0 {
        None
    } else if exports[0].0 == name {
        Some(exports[0].1)
    } else {
        export_lookup(exports.drop_first(), name)
    }
}

/// Find a handler export by name.
pub fn export_by_name(module: &Module, name: &[u8]) -> (r: Option<usize>)
    ensures
        match r {
            Some(f) => export_lookup(module@.exports, name@) == Some(f as int),
            None => export_lookup(module@.exports, name@) is None,
        },
{
    let ghost exps = module@.exports;
    let n = module.exports.len();
    proof {
        assert(exps.skip(0) =~= exps);
    }
    let mut i: usize = 0;
    while i < n
        invariant
            i <= n,
            n == module@.exports.len(),
            exps == module@.exports,
            export_lookup(exps, name@) == export_lookup(exps.skip(i as int), name@),
        decreases n - i,
    {
        proof {
            assert(exps.skip(i as int)[0] == exps[i as int]);
        }
        if crate::bytes::bytes_eq(module.exports[i].name.as_slice(), name) {
            return Some(module.exports[i].func);
        }
        proof {
            assert(exps.skip(i as int).drop_first() =~= exps.skip(i + 1));
        }
        i = i + 1;
    }
    proof {
        assert(exps.skip(n as int) =~= Seq::<(Seq<u8>, int)>::empty());
    }
    None
}

/// After a suspension, the injected result is exactly what the next opcode
/// observes: it sits on top of the suspended frame's value stack, and
/// nothing else about the stack changed.
pub proof fn lemma_injected_result_observed(fs: Seq<FrameV>, v: RuntimeValue)
    requires
        fs.len() > 0,
        fs.last().stack.len() < DEFAULT_VALUE_STACK_LIMIT,
    ensures
        ({
            let fs2 = push_result_spec(fs, v)->0;
            &&& push_result_spec(fs, v) is Some
            &&& fs2.len() == fs.len()
            &&& fs2.last().stack.last() == v
            &&& fs2.last().stack.drop_last() == fs.last().stack
            &&& fs2.last().pc == fs.last().pc
            &&& fs2.last().locals == fs.last().locals
            &&& fs2.last().func == fs.last().func
            &&& fs2.drop_last() == fs.drop_last()
        }),
{
    let fs2 = push_result_spec(fs, v)->0;
    assert(fs2.last().stack.drop_last() =~= fs.last().stack);
    assert(fs2.drop_last() =~= fs.drop_last());
}

/// Resuming after injecting a value behaves exactly as if the suspended
/// host call had returned that value inline: the driver's own dispatch of
/// an inline result continues from the same stack that a suspension plus
/// injection produces.
pub proof fn lemma_resume_after_injection(
    m: ModuleV,
    fs: Seq<FrameV>,
    s: StateV,
    s2: StateV,
    resolved: Seq<usize>,
    fuel: nat,
    v: RuntimeValue,
)
    requires
        fuel > 0,
        step_spec(m, fs).1 matches StepOutV::HostCall(ii, args) && 0 <= ii < resolved.len()
            && invoke_spec(s, resolved[ii] as int, args) == (
            s2,
            InvokeResV::Done(Some(v)),
        ),
        push_result_spec(step_spec(m, fs).0, v) is Some,
    ensures
        resume_spec(m, fs, s, resolved, fuel) == resume_spec(
            m,
            push_result_spec(step_spec(m, fs).0, v)->0,
            s2,
            resolved,
            (fuel - 1) as nat,
        ),
{
}

/// Whether each argument value matches the declared parameter type.
pub fn check_args(args: &Vec<RuntimeValue>, params: &Vec<ValueType>) -> (r: bool)
    ensures
        r == args_match(args@, params@),
{
    if args.len() != params.len() {
        return false;
    }
    let n = args.len();
    let mut i: usize = 0;
    while i < n
        invariant
            i <= n,
            n == args@.len() == params@.len(),
            forall|j: int| 0 <= j < i ==> (#[trigger] args@[j]).value_type() == params@[j],
        decreases n - i,
    {
        let ok = match (args[i], params[i]) {
            (RuntimeValue::I32(_), ValueType::I32) => true,
            (RuntimeValue::I64(_), ValueType::I64) => true,
            _ => false,
        };
        if !ok {
            return false;
        }
        i = i + 1;
    }
    true
}

} // verus!
