use vstd::prelude::*;

use crate::instr::{arg_pushes, epilogue, load_steps, prologue, trampoline_body, Instr};
use crate::layout::{aligned_offset, layout_offsets, layout_size, lemma_aligned_offset_props,
    lemma_layout_size_mono, lemma_layout_size_nonneg, lemma_layout_take_succ, round_up};
use crate::types::ValueType;

verus! {

/// A runtime value of the abstract machine. Floats and vectors are carried
/// as their bit patterns: the trampoline only moves them, never computes
/// with them.
pub enum MVal {
    I32(u32),
    I64(u64),
    F32(u32),
    F64(u64),
    V128(u128),
}

/// The state a trampoline body runs in: the value stack, the stack-pointer
/// global, the scratch-pointer local, the trampoline's parameter locals,
/// and linear memory as a byte map.
pub struct MachineState {
    pub stack: Seq<MVal>,
    pub sp: u32,
    pub scratch: u32,
    pub params: Seq<MVal>,
    pub mem: Map<int, u8>,
}

/// The wrapped call, abstractly: from its argument values and the memory
/// before the call to the memory after it. The machine's call step applies
/// such a function and otherwise leaves the stack pointer and the popped-to
/// depth unchanged: the wrapped call is assumed stack-balanced and without
/// native results, which is exactly what validation established of it.
pub type Callee = spec_fn(Seq<MVal>, Map<int, u8>) -> Map<int, u8>;

/// A 32-bit wrapping result.
pub open spec fn wrap32(x: int) -> u32 {
    (x % 0x1_0000_0000) as u32
}

/// The little-endian unsigned value of `width` bytes of memory at `addr`;
/// unwritten bytes read as zero.
pub open spec fn read_le(mem: Map<int, u8>, addr: int, width: int) -> int
    decreases width,
{
    if width <= 0 {
        0
    } else {
        (if mem.dom().contains(addr) {
            mem[addr] as int
        } else {
            0
        }) + 256 * read_le(mem, addr + 1, width - 1)
    }
}

/// The machine value a typed load of `t` at `addr` produces.
pub open spec fn loaded_value(t: ValueType, mem: Map<int, u8>, addr: int) -> MVal {
    match t {
        ValueType::I32 => MVal::I32(read_le(mem, addr, 4) as u32),
        ValueType::F32 => MVal::F32(read_le(mem, addr, 4) as u32),
        ValueType::I64 => MVal::I64(read_le(mem, addr, 8) as u64),
        ValueType::F64 => MVal::F64(read_le(mem, addr, 8) as u64),
        ValueType::V128 => MVal::V128(read_le(mem, addr, 16) as u128),
        ValueType::Ref => MVal::I32(0),
    }
}

/// One machine step; `None` is a trap. `n_args` is the wrapped function's
/// parameter count.
pub open spec fn step(n_args: int, cb: Callee, s: MachineState, i: Instr) -> Option<MachineState> {
    match i {
        Instr::GlobalGetSp => Some(
            MachineState { stack: s.stack.push(MVal::I32(s.sp)), ..s },
        ),
        Instr::GlobalSetSp => if s.stack.len() >= 1 {
            match s.stack.last() {
                MVal::I32(v) => Some(MachineState { stack: s.stack.drop_last(), sp: v, ..s }),
                _ => None,
            }
        } else {
            None
        },
        Instr::I32Const(c) => Some(MachineState { stack: s.stack.push(MVal::I32(c)), ..s }),
        Instr::I32Sub => if s.stack.len() >= 2 {
            match (s.stack[s.stack.len() - 2], s.stack.last()) {
                (MVal::I32(a), MVal::I32(b)) => Some(
                    MachineState {
                        stack: s.stack.drop_last().drop_last().push(MVal::I32(wrap32(a - b))),
                        ..s
                    },
                ),
                _ => None,
            }
        } else {
            None
        },
        Instr::I32Add => if s.stack.len() >= 2 {
            match (s.stack[s.stack.len() - 2], s.stack.last()) {
                (MVal::I32(a), MVal::I32(b)) => Some(
                    MachineState {
                        stack: s.stack.drop_last().drop_last().push(MVal::I32(wrap32(a + b))),
                        ..s
                    },
                ),
                _ => None,
            }
        } else {
            None
        },
        Instr::LocalTeeScratch => if s.stack.len() >= 1 {
            match s.stack.last() {
                MVal::I32(v) => Some(MachineState { scratch: v, ..s }),
                _ => None,
            }
        } else {
            None
        },
        Instr::LocalGetScratch => Some(
            MachineState { stack: s.stack.push(MVal::I32(s.scratch)), ..s },
        ),
        Instr::LocalGetParam(j) => if (j as int) < s.params.len() {
            Some(MachineState { stack: s.stack.push(s.params[j as int]), ..s })
        } else {
            None
        },
        Instr::CallTarget => if 0 <= n_args <= s.stack.len() {
            Some(
                MachineState {
                    stack: s.stack.take(s.stack.len() - n_args),
                    mem: cb(s.stack.skip(s.stack.len() - n_args), s.mem),
                    ..s
                },
            )
        } else {
            None
        },
        Instr::Load(t, off) => if t != ValueType::Ref && s.stack.len() >= 1 {
            match s.stack.last() {
                MVal::I32(a) => Some(
                    MachineState {
                        stack: s.stack.drop_last().push(
                            loaded_value(t, s.mem, a as int + off as int),
                        ),
                        ..s
                    },
                ),
                _ => None,
            }
        } else {
            None
        },
    }
}

/// Run a straight-line instruction sequence to completion; `None` if any
/// step traps.
pub open spec fn run(n_args: int, cb: Callee, s: MachineState, instrs: Seq<Instr>) -> Option<
    MachineState,
>
    decreases instrs.len(),
{
    if instrs.len() == 0 {
        Some(s)
    } else {
        match step(n_args, cb, s, instrs[0]) {
            Some(s2) => run(n_args, cb, s2, instrs.skip(1)),
            None => None,
        }
    }
}

pub proof fn lemma_run_concat(n_args: int, cb: Callee, s: MachineState, a: Seq<Instr>, b: Seq<
    Instr,
>)
    ensures
        run(n_args, cb, s, a + b) == (match run(n_args, cb, s, a) {
            Some(m) => run(n_args, cb, m, b),
            None => None,
        }),
    decreases a.len(),
{
    if a.len() == 0 {
        assert(a + b =~= b);
    } else {
        assert((a + b)[0] == a[0]);
        assert((a + b).skip(1) =~= a.skip(1) + b);
        match step(n_args, cb, s, a[0]) {
            Some(s2) => {
                lemma_run_concat(n_args, cb, s2, a.skip(1), b);
            },
            None => {},
        }
    }
}

/// Effect of the prologue: the stack pointer drops by `size` (wrapping) and
/// the scratch pointer holds the same new value; the stack is untouched.
pub proof fn lemma_run_prologue(n_args: int, cb: Callee, s: MachineState, size: u32)
    ensures
        run(n_args, cb, s, prologue(size)) == Some(
            MachineState {
                stack: s.stack,
                sp: wrap32(s.sp - size),
                scratch: wrap32(s.sp - size),
                params: s.params,
                mem: s.mem,
            },
        ),
{
    let w = wrap32(s.sp - size);
    let p = prologue(size);
    let s1 = MachineState { stack: s.stack.push(MVal::I32(s.sp)), ..s };
    let s2 = MachineState { stack: s1.stack.push(MVal::I32(size)), ..s };
    let s3 = MachineState { stack: s.stack.push(MVal::I32(w)), ..s };
    let s4 = MachineState { stack: s.stack.push(MVal::I32(w)), scratch: w, ..s };
    let s5 = MachineState { stack: s.stack, sp: w, scratch: w, params: s.params, mem: s.mem };
    assert(step(n_args, cb, s, p[0]) == Some(s1));
    let q1 = p.skip(1);
    assert(q1 =~= seq![
        Instr::I32Const(size),
        Instr::I32Sub,
        Instr::LocalTeeScratch,
        Instr::GlobalSetSp,
    ]);
    assert(run(n_args, cb, s, p) == run(n_args, cb, s1, q1));
    assert(step(n_args, cb, s1, q1[0]) == Some(s2));
    let q2 = q1.skip(1);
    assert(q2 =~= seq![Instr::I32Sub, Instr::LocalTeeScratch, Instr::GlobalSetSp]);
    assert(run(n_args, cb, s1, q1) == run(n_args, cb, s2, q2));
    assert(s2.stack.len() == s.stack.len() + 2);
    assert(s2.stack[s2.stack.len() - 2] == MVal::I32(s.sp));
    assert(s2.stack.last() == MVal::I32(size));
    assert(s2.stack.drop_last().drop_last() =~= s.stack);
    assert(step(n_args, cb, s2, q2[0]) == Some(s3));
    let q3 = q2.skip(1);
    assert(q3 =~= seq![Instr::LocalTeeScratch, Instr::GlobalSetSp]);
    assert(run(n_args, cb, s2, q2) == run(n_args, cb, s3, q3));
    assert(step(n_args, cb, s3, q3[0]) == Some(s4));
    let q4 = q3.skip(1);
    assert(q4 =~= seq![Instr::GlobalSetSp]);
    assert(run(n_args, cb, s3, q3) == run(n_args, cb, s4, q4));
    assert(s4.stack.last() == MVal::I32(w));
    assert(s4.stack.drop_last() =~= s.stack);
    assert(step(n_args, cb, s4, q4[0]) == Some(s5));
    let q5 = q4.skip(1);
    assert(q5.len() == 0);
    assert(run(n_args, cb, s4, q4) == run(n_args, cb, s5, q5));
    assert(run(n_args, cb, s5, q5) == Some(s5));
}

/// Is `i` one of the two pure push instructions the argument segment uses?
pub open spec fn is_push(i: Instr, n_params: int) -> bool {
    match i {
        Instr::LocalGetScratch => true,
        Instr::LocalGetParam(j) => (j as int) < n_params,
        _ => false,
    }
}

/// The value a push instruction pushes in state `s`.
pub open spec fn push_val(s: MachineState, i: Instr) -> MVal {
    match i {
        Instr::LocalGetParam(j) => s.params[j as int],
        _ => MVal::I32(s.scratch),
    }
}

pub open spec fn push_vals(s: MachineState, instrs: Seq<Instr>) -> Seq<MVal> {
    instrs.map_values(|i: Instr| push_val(s, i))
}

/// Effect of a sequence of pure pushes: their values are appended to the
/// stack and nothing else changes.
pub proof fn lemma_run_pushes(n_args: int, cb: Callee, s: MachineState, instrs: Seq<Instr>)
    requires
        forall|i: int| 0 <= i < instrs.len() ==> is_push(#[trigger] instrs[i], s.params.len() as int),
    ensures
        run(n_args, cb, s, instrs) == Some(
            MachineState { stack: s.stack + push_vals(s, instrs), ..s },
        ),
    decreases instrs.len(),
{
    if instrs.len() == 0 {
        assert(s.stack + push_vals(s, instrs) =~= s.stack);
        assert(MachineState { stack: s.stack + push_vals(s, instrs), ..s } == s);
    } else {
        let v = push_val(s, instrs[0]);
        let s2 = MachineState { stack: s.stack.push(v), ..s };
        assert(step(n_args, cb, s, instrs[0]) == Some(s2));
        assert(forall|i: int|
            0 <= i < instrs.skip(1).len() ==> is_push(
                #[trigger] instrs.skip(1)[i],
                s2.params.len() as int,
            ));
        lemma_run_pushes(n_args, cb, s2, instrs.skip(1));
        assert(push_vals(s2, instrs.skip(1)) =~= push_vals(s, instrs.skip(1)));
        assert(s2.stack + push_vals(s2, instrs.skip(1)) =~= s.stack + push_vals(s, instrs));
    }
}

/// The argument values the wrapped call receives: the trampoline's
/// parameters in original order with the scratch pointer `w` at position
/// `rp`.
pub open spec fn call_args(params: Seq<MVal>, w: u32, n_params: int, rp: int) -> Seq<MVal> {
    Seq::new(
        (n_params + 1) as nat,
        |i: int|
            if i == rp {
                MVal::I32(w)
            } else if i < rp {
                params[i]
            } else {
                params[i - 1]
            },
    )
}

/// Effect of the argument segment: exactly the call arguments are pushed.
pub proof fn lemma_run_args(n_args: int, cb: Callee, s: MachineState, n_params: int, rp: int)
    requires
        0 <= rp <= n_params,
        n_params < usize::MAX,
        s.params.len() == n_params,
    ensures
        run(n_args, cb, s, arg_pushes(n_params, rp)) == Some(
            MachineState {
                stack: s.stack + call_args(s.params, s.scratch, n_params, rp),
                ..s
            },
        ),
{
    let instrs = arg_pushes(n_params, rp);
    assert(forall|i: int| 0 <= i < instrs.len() ==> is_push(#[trigger] instrs[i], n_params));
    lemma_run_pushes(n_args, cb, s, instrs);
    assert forall|i: int| 0 <= i < instrs.len() implies #[trigger] push_vals(s, instrs)[i]
        == call_args(s.params, s.scratch, n_params, rp)[i] by {
        assert(push_vals(s, instrs)[i] == push_val(s, instrs[i]));
        if i == rp {
            assert(instrs[i] == Instr::LocalGetScratch);
        } else if i < rp {
            assert(instrs[i] == Instr::LocalGetParam(i as usize));
            assert((i as usize) as int == i);
        } else {
            assert(instrs[i] == Instr::LocalGetParam((i - 1) as usize));
            assert(((i - 1) as usize) as int == i - 1);
        }
    }
    assert(push_vals(s, instrs) =~= call_args(s.params, s.scratch, n_params, rp));
}

/// The values the load segment leaves on the stack: each requested value
/// read back from the scratch region at its layout offset.
pub open spec fn loaded_vals(scratch: u32, mem: Map<int, u8>, tys: Seq<ValueType>) -> Seq<MVal> {
    Seq::new(tys.len(), |i: int| loaded_value(tys[i], mem, scratch + layout_offsets(tys)[i]))
}

/// Effect of the load segment: the requested values are appended to the
/// stack in request order and nothing else changes.
pub proof fn lemma_run_loads(n_args: int, cb: Callee, s: MachineState, tys: Seq<ValueType>)
    requires
        forall|i: int| 0 <= i < tys.len() ==> tys[i] != ValueType::Ref,
        layout_size(tys) <= u32::MAX,
    ensures
        run(n_args, cb, s, load_steps(tys)) == Some(
            MachineState { stack: s.stack + loaded_vals(s.scratch, s.mem, tys), ..s },
        ),
    decreases tys.len(),
{
    if tys.len() == 0 {
        assert(s.stack + loaded_vals(s.scratch, s.mem, tys) =~= s.stack);
        assert(MachineState { stack: s.stack + loaded_vals(s.scratch, s.mem, tys), ..s } == s);
    } else {
        let pre = tys.drop_last();
        let t = tys.last();
        let n = tys.len() - 1;
        lemma_layout_size_nonneg(pre);
        assert(tys.take(n) =~= pre);
        lemma_layout_size_mono(tys, n);
        lemma_layout_take_succ(tys, n);
        lemma_aligned_offset_props(t, layout_size(pre));
        let off = aligned_offset(t, layout_size(pre));
        assert(0 <= off <= u32::MAX);
        lemma_run_loads(n_args, cb, s, pre);
        let m1 = MachineState { stack: s.stack + loaded_vals(s.scratch, s.mem, pre), ..s };
        let tail = seq![Instr::LocalGetScratch, Instr::Load(t, off as u32)];
        assert(load_steps(tys) == load_steps(pre) + tail);
        lemma_run_concat(n_args, cb, s, load_steps(pre), tail);
        let m2 = MachineState { stack: m1.stack.push(MVal::I32(m1.scratch)), ..m1 };
        assert(step(n_args, cb, m1, tail[0]) == Some(m2));
        let r1 = tail.skip(1);
        assert(r1 =~= seq![Instr::Load(t, off as u32)]);
        assert(run(n_args, cb, m1, tail) == run(n_args, cb, m2, r1));
        assert(m2.stack.last() == MVal::I32(s.scratch));
        assert(m2.stack.drop_last() =~= m1.stack);
        let lv = loaded_value(t, s.mem, s.scratch as int + off);
        let m3 = MachineState { stack: m1.stack.push(lv), ..m1 };
        assert(step(n_args, cb, m2, r1[0]) == Some(m3));
        let r2 = r1.skip(1);
        assert(r2.len() == 0);
        assert(run(n_args, cb, m2, r1) == run(n_args, cb, m3, r2));
        assert(run(n_args, cb, m3, r2) == Some(m3));
        assert(run(n_args, cb, m1, tail) == Some(m3));
        // The appended value is element n of loaded_vals over the whole list.
        assert(layout_offsets(tys)[n] == off);
        assert forall|i: int| 0 <= i < n implies #[trigger] layout_offsets(tys)[i]
            == layout_offsets(pre)[i] by {
            assert(tys.take(i) =~= pre.take(i));
        }
        assert(m1.stack.push(lv) =~= s.stack + loaded_vals(s.scratch, s.mem, tys));
    }
}

/// Effect of the epilogue: the scratch pointer plus `size` (wrapping) is
/// written back to the stack-pointer global; the stack is untouched.
pub proof fn lemma_run_epilogue(n_args: int, cb: Callee, s: MachineState, size: u32)
    ensures
        run(n_args, cb, s, epilogue(size)) == Some(
            MachineState { sp: wrap32(s.scratch + size), ..s },
        ),
{
    let w2 = wrap32(s.scratch + size);
    let e = epilogue(size);
    let s1 = MachineState { stack: s.stack.push(MVal::I32(s.scratch)), ..s };
    let s2 = MachineState { stack: s1.stack.push(MVal::I32(size)), ..s };
    let s3 = MachineState { stack: s.stack.push(MVal::I32(w2)), ..s };
    let s4 = MachineState { sp: w2, ..s };
    assert(step(n_args, cb, s, e[0]) == Some(s1));
    let q1 = e.skip(1);
    assert(q1 =~= seq![Instr::I32Const(size), Instr::I32Add, Instr::GlobalSetSp]);
    assert(run(n_args, cb, s, e) == run(n_args, cb, s1, q1));
    assert(step(n_args, cb, s1, q1[0]) == Some(s2));
    let q2 = q1.skip(1);
    assert(q2 =~= seq![Instr::I32Add, Instr::GlobalSetSp]);
    assert(run(n_args, cb, s1, q1) == run(n_args, cb, s2, q2));
    assert(s2.stack.len() == s.stack.len() + 2);
    assert(s2.stack[s2.stack.len() - 2] == MVal::I32(s.scratch));
    assert(s2.stack.last() == MVal::I32(size));
    assert(s2.stack.drop_last().drop_last() =~= s.stack);
    assert(step(n_args, cb, s2, q2[0]) == Some(s3));
    let q3 = q2.skip(1);
    assert(q3 =~= seq![Instr::GlobalSetSp]);
    assert(run(n_args, cb, s2, q2) == run(n_args, cb, s3, q3));
    assert(s3.stack.last() == MVal::I32(w2));
    assert(s3.stack.drop_last() =~= s.stack);
    assert(step(n_args, cb, s3, q3[0]) == Some(s4));
    let q4 = q3.skip(1);
    assert(q4.len() == 0);
    assert(run(n_args, cb, s3, q3) == run(n_args, cb, s4, q4));
    assert(run(n_args, cb, s4, q4) == Some(s4));
}

/// Subtracting and re-adding the same 32-bit amount, each with wrapping,
/// returns to the start value.
pub proof fn lemma_wrap_balance(a: u32, b: u32)
    ensures
        wrap32(wrap32(a - b) + b) == a,
{
    let m = 0x1_0000_0000;
    assert(((a - b) % m + b) % m == a) by (nonlinear_arith)
        requires
            0 <= a < m,
            0 <= b < m,
            m == 0x1_0000_0000,
    ;
}

/// One complete trampoline invocation, from an empty stack: the run never
/// traps; the stack-pointer global ends exactly where it began; the scratch
/// pointer is the stack pointer lowered by the aggregate size; memory is
/// whatever the wrapped call - handed the re-ordered arguments - left; and
/// the produced results are the requested values read back from the scratch
/// region in request order.
pub proof fn lemma_trampoline_run(
    n_params: int,
    rp: int,
    tys: Seq<ValueType>,
    cb: Callee,
    s: MachineState,
)
    requires
        0 <= rp <= n_params,
        n_params < usize::MAX,
        s.stack.len() == 0,
        s.params.len() == n_params,
        forall|i: int| 0 <= i < tys.len() ==> tys[i] != ValueType::Ref,
        layout_size(tys) <= u32::MAX,
    ensures
        ({
            let size = layout_size(tys) as u32;
            let w = wrap32(s.sp - size);
            let mem2 = cb(call_args(s.params, w, n_params, rp), s.mem);
            run(n_params + 1, cb, s, trampoline_body(n_params, rp, tys, size)) == Some(
                MachineState {
                    stack: loaded_vals(w, mem2, tys),
                    sp: s.sp,
                    scratch: w,
                    params: s.params,
                    mem: mem2,
                },
            )
        }),
{
    lemma_layout_size_nonneg(tys);
    let size = layout_size(tys) as u32;
    let w = wrap32(s.sp - size);
    let n_args = n_params + 1;
    let pro = prologue(size);
    let args = arg_pushes(n_params, rp);
    let callseq = seq![Instr::CallTarget];
    let loads = load_steps(tys);
    let epi = epilogue(size);
    let cargs = call_args(s.params, w, n_params, rp);
    let mem2 = cb(cargs, s.mem);

    let s1 = MachineState { stack: s.stack, sp: w, scratch: w, params: s.params, mem: s.mem };
    lemma_run_prologue(n_args, cb, s, size);
    assert(run(n_args, cb, s, pro) == Some(s1));

    lemma_run_args(n_args, cb, s1, n_params, rp);
    let s2 = MachineState { stack: s1.stack + cargs, ..s1 };
    assert(run(n_args, cb, s1, args) == Some(s2));

    assert(s2.stack =~= cargs);
    assert(s2.stack.len() == n_args);
    assert(s2.stack.skip(s2.stack.len() - n_args) =~= cargs);
    let s3 = MachineState {
        stack: s2.stack.take(s2.stack.len() - n_args),
        mem: mem2,
        ..s2
    };
    assert(step(n_args, cb, s2, Instr::CallTarget) == Some(s3));
    assert(callseq.skip(1).len() == 0);
    assert(run(n_args, cb, s2, callseq) == run(n_args, cb, s3, callseq.skip(1)));
    assert(run(n_args, cb, s2, callseq) == Some(s3));
    assert(s3.stack.len() == 0);

    lemma_run_loads(n_args, cb, s3, tys);
    let s4 = MachineState { stack: s3.stack + loaded_vals(w, mem2, tys), ..s3 };
    assert(run(n_args, cb, s3, loads) == Some(s4));
    assert(s4.stack =~= loaded_vals(w, mem2, tys));

    lemma_run_epilogue(n_args, cb, s4, size);
    let s5 = MachineState { sp: wrap32(w + size), ..s4 };
    assert(run(n_args, cb, s4, epi) == Some(s5));
    lemma_wrap_balance(s.sp, size);
    assert(s5.sp == s.sp);

    let ab = pro + args;
    lemma_run_concat(n_args, cb, s, pro, args);
    assert(run(n_args, cb, s, ab) == Some(s2));
    let abc = ab + callseq;
    lemma_run_concat(n_args, cb, s, ab, callseq);
    assert(run(n_args, cb, s, abc) == Some(s3));
    let abcd = abc + loads;
    lemma_run_concat(n_args, cb, s, abc, loads);
    assert(run(n_args, cb, s, abcd) == Some(s4));
    lemma_run_concat(n_args, cb, s, abcd, epi);
    assert(run(n_args, cb, s, abcd + epi) == Some(s5));
    assert(trampoline_body(n_params, rp, tys, size) == abcd + epi);
    assert(s5 == MachineState {
        stack: loaded_vals(w, mem2, tys),
        sp: s.sp,
        scratch: w,
        params: s.params,
        mem: mem2,
    });
}

/// Law: across one full trampoline invocation the net change to the
/// stack-pointer global is zero, for every initial stack-pointer value,
/// memory state and parameter assignment - given that the wrapped call
/// itself leaves the stack balanced, which is how the machine's call step
/// models the validated, no-result callee.
pub proof fn lemma_stack_pointer_balanced(
    n_params: int,
    rp: int,
    tys: Seq<ValueType>,
    cb: Callee,
    s: MachineState,
)
    requires
        0 <= rp <= n_params,
        n_params < usize::MAX,
        s.stack.len() == 0,
        s.params.len() == n_params,
        forall|i: int| 0 <= i < tys.len() ==> tys[i] != ValueType::Ref,
        layout_size(tys) <= u32::MAX,
    ensures
        run(
            n_params + 1,
            cb,
            s,
            trampoline_body(n_params, rp, tys, layout_size(tys) as u32),
        ) matches Some(e) && e.sp == s.sp,
{
    lemma_trampoline_run(n_params, rp, tys, cb, s);
}

/// Do the integer bits `v` fit a value of type `t`?
pub open spec fn fits_width(t: ValueType, v: int) -> bool {
    match t {
        ValueType::I32 | ValueType::F32 => 0 <= v < 0x1_0000_0000,
        ValueType::I64 | ValueType::F64 => 0 <= v < 0x1_0000_0000_0000_0000,
        ValueType::V128 => 0 <= v < 0x1_0000_0000_0000_0000_0000_0000_0000_0000,
        ValueType::Ref => false,
    }
}

/// The machine value that carries result bits `v` of type `t`.
pub open spec fn result_value(t: ValueType, v: int) -> MVal {
    match t {
        ValueType::I32 => MVal::I32(v as u32),
        ValueType::F32 => MVal::F32(v as u32),
        ValueType::I64 => MVal::I64(v as u64),
        ValueType::F64 => MVal::F64(v as u64),
        ValueType::V128 => MVal::V128(v as u128),
        ValueType::Ref => MVal::I32(0),
    }
}

/// Law: round trip. Converting a function whose out-parameter convention
/// writes result bits `v` for result type `t` at offset 0 yields a
/// trampoline whose single produced result is exactly `v`, for every valid
/// initial memory state and stack-pointer value. The hypothesis says only
/// that the wrapped call leaves `v` at the return pointer it was handed.
pub proof fn lemma_round_trip(
    t: ValueType,
    n_params: int,
    rp: int,
    cb: Callee,
    s: MachineState,
    v: int,
)
    requires
        t != ValueType::Ref,
        fits_width(t, v),
        0 <= rp <= n_params,
        n_params < usize::MAX,
        s.stack.len() == 0,
        s.params.len() == n_params,
        ({
            let size = layout_size(seq![t]) as u32;
            let w = wrap32(s.sp - size);
            read_le(
                cb(call_args(s.params, w, n_params, rp), s.mem),
                w as int,
                t.natural_size(),
            ) == v
        }),
    ensures
        ({
            let size = layout_size(seq![t]) as u32;
            let w = wrap32(s.sp - size);
            let mem2 = cb(call_args(s.params, w, n_params, rp), s.mem);
            run(n_params + 1, cb, s, trampoline_body(n_params, rp, seq![t], size)) == Some(
                MachineState {
                    stack: seq![result_value(t, v)],
                    sp: s.sp,
                    scratch: w,
                    params: s.params,
                    mem: mem2,
                },
            )
        }),
{
    let tys = seq![t];
    assert(tys.drop_last() =~= Seq::<ValueType>::empty());
    assert(round_up(0, 8) == 0);
    assert(round_up(0, 16) == 0);
    assert(aligned_offset(t, 0) == 0);
    assert(layout_size(tys) == t.natural_size());
    lemma_trampoline_run(n_params, rp, tys, cb, s);
    let size = layout_size(tys) as u32;
    let w = wrap32(s.sp - size);
    let mem2 = cb(call_args(s.params, w, n_params, rp), s.mem);
    assert(tys.take(0) =~= Seq::<ValueType>::empty());
    assert(layout_offsets(tys)[0] == 0);
    assert(loaded_vals(w, mem2, tys)[0] == loaded_value(t, mem2, w as int));
    assert(loaded_value(t, mem2, w as int) == result_value(t, v));
    assert(loaded_vals(w, mem2, tys) =~= seq![result_value(t, v)]);
}

} // verus!
