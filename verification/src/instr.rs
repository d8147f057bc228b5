use vstd::prelude::*;

use crate::layout::{
    aligned_cursor, aligned_offset, calculate_size, layout_size, lemma_aligned_offset_props,
    lemma_layout_size_mono, lemma_layout_size_nonneg, lemma_layout_take_succ, natural_size_bytes,
};
use crate::types::ValueType;

verus! {

/// One instruction of a synthesized trampoline body.
///
/// The trampoline only ever touches one global (the stack pointer), one
/// scratch local (the re-created return pointer), its own parameter locals,
/// one callee and one memory, so instructions name those roles rather than
/// module handles; the emitter binds each role to its real handle.
#[derive(Clone, Copy, PartialEq, Eq, Structural, Debug)]
pub enum Instr {
    /// Push the value of the stack-pointer global.
    GlobalGetSp,
    /// Pop a value into the stack-pointer global.
    GlobalSetSp,
    /// Push a 32-bit constant, given as its unsigned bits.
    I32Const(u32),
    /// Pop two 32-bit values, push their wrapping difference.
    I32Sub,
    /// Pop two 32-bit values, push their wrapping sum.
    I32Add,
    /// Copy the top of the stack into the scratch-pointer local, keeping it.
    LocalTeeScratch,
    /// Push the value of the scratch-pointer local.
    LocalGetScratch,
    /// Push the value of the trampoline's parameter local at this index.
    LocalGetParam(usize),
    /// Call the wrapped function by its internal identity.
    CallTarget,
    /// Pop an address, push the value of type `.0` read at address plus
    /// static offset `.1`.
    Load(ValueType, u32),
}

/// Reserve `size` bytes of scratch space under the shrinking-stack
/// convention: stack pointer minus `size` becomes both the new stack
/// pointer and the scratch pointer.
pub open spec fn prologue(size: u32) -> Seq<Instr> {
    seq![
        Instr::GlobalGetSp,
        Instr::I32Const(size),
        Instr::I32Sub,
        Instr::LocalTeeScratch,
        Instr::GlobalSetSp,
    ]
}

/// The call-argument pushes: the trampoline's `n_params` parameters in their
/// original relative order, with the scratch pointer re-inserted at exactly
/// the position `rp` the return-pointer parameter originally held.
pub open spec fn arg_pushes(n_params: int, rp: int) -> Seq<Instr> {
    Seq::new(
        (n_params + 1) as nat,
        |i: int|
            if i == rp {
                Instr::LocalGetScratch
            } else if i < rp {
                Instr::LocalGetParam(i as usize)
            } else {
                Instr::LocalGetParam((i - 1) as usize)
            },
    )
}

/// One typed memory load per requested value, in request order, each from
/// the scratch pointer plus that value's layout offset.
pub open spec fn load_steps(tys: Seq<ValueType>) -> Seq<Instr>
    decreases tys.len(),
{
    if tys.len() == 0 {
        Seq::empty()
    } else {
        load_steps(tys.drop_last()) + seq![
            Instr::LocalGetScratch,
            Instr::Load(
                tys.last(),
                aligned_offset(tys.last(), layout_size(tys.drop_last())) as u32,
            ),
        ]
    }
}

/// Release the scratch space: scratch pointer plus `size` back into the
/// stack-pointer global, only after every load is done.
pub open spec fn epilogue(size: u32) -> Seq<Instr> {
    seq![Instr::LocalGetScratch, Instr::I32Const(size), Instr::I32Add, Instr::GlobalSetSp]
}

/// The whole trampoline body, in its fixed order with no branching.
pub open spec fn trampoline_body(n_params: int, rp: int, tys: Seq<ValueType>, size: u32) -> Seq<
    Instr,
> {
    prologue(size) + arg_pushes(n_params, rp) + seq![Instr::CallTarget] + load_steps(tys)
        + epilogue(size)
}

/// Append the two instructions that fetch one value of type `ty` from the
/// scratch region, and advance the layout cursor `offset` past it.
pub fn load_value(body: &mut Vec<Instr>, ty: ValueType, offset: &mut u32)
    requires
        ty != ValueType::Ref,
        aligned_offset(ty, *old(offset) as int) + ty.natural_size() <= u32::MAX,
    ensures
        *final(offset) == aligned_offset(ty, *old(offset) as int) + ty.natural_size(),
        final(body)@ == old(body)@ + seq![
            Instr::LocalGetScratch,
            Instr::Load(ty, aligned_offset(ty, *old(offset) as int) as u32),
        ],
{
    proof {
        lemma_aligned_offset_props(ty, *offset as int);
    }
    let off64: u64 = aligned_cursor(ty, *offset);
    let off: u32 = off64 as u32;
    body.push(Instr::LocalGetScratch);
    body.push(Instr::Load(ty, off));
    *offset = off + natural_size_bytes(ty);
    assert(body@ =~= old(body)@ + seq![
        Instr::LocalGetScratch,
        Instr::Load(ty, aligned_offset(ty, *old(offset) as int) as u32),
    ]);
}

/// Synthesize the whole trampoline body for a wrapped function that had
/// `n_params + 1` parameters, its return pointer at position `rp`, and the
/// requested result types `results`.
pub fn build_trampoline_body(n_params: usize, rp: usize, results: &[ValueType]) -> (r: Vec<Instr>)
    requires
        rp <= n_params,
        n_params < usize::MAX,
        forall|i: int| 0 <= i < results@.len() ==> results@[i] != ValueType::Ref,
        layout_size(results@) <= u32::MAX,
    ensures
        r@ == trampoline_body(
            n_params as int,
            rp as int,
            results@,
            layout_size(results@) as u32,
        ),
{
    proof {
        lemma_layout_size_nonneg(results@);
    }
    let size: u32 = calculate_size(results);
    let mut body: Vec<Instr> = Vec::new();
    body.push(Instr::GlobalGetSp);
    body.push(Instr::I32Const(size));
    body.push(Instr::I32Sub);
    body.push(Instr::LocalTeeScratch);
    body.push(Instr::GlobalSetSp);
    assert(body@ =~= prologue(size));

    let ghost args = arg_pushes(n_params as int, rp as int);
    let mut i: usize = 0;
    while i < n_params
        invariant
            0 <= i <= n_params,
            rp <= n_params,
            n_params < usize::MAX,
            args == arg_pushes(n_params as int, rp as int),
            body@ == prologue(size) + args.take(if i <= rp { i as int } else { i as int + 1 }),
        decreases n_params - i,
    {
        if i == rp {
            body.push(Instr::LocalGetScratch);
        }
        body.push(Instr::LocalGetParam(i));
        proof {
            let j = if i + 1 <= rp { i as int + 1 } else { i as int + 2 };
            assert(body@ =~= prologue(size) + args.take(j));
        }
        i = i + 1;
    }
    if rp == n_params {
        body.push(Instr::LocalGetScratch);
    }
    assert(body@ =~= prologue(size) + args);

    body.push(Instr::CallTarget);
    let ghost mid = prologue(size) + args + seq![Instr::CallTarget];
    assert(body@ =~= mid);

    let mut offset: u32 = 0;
    let mut k: usize = 0;
    while k < results.len()
        invariant
            0 <= k <= results@.len(),
            forall|i: int| 0 <= i < results@.len() ==> results@[i] != ValueType::Ref,
            layout_size(results@) <= u32::MAX,
            offset == layout_size(results@.take(k as int)),
            body@ == mid + load_steps(results@.take(k as int)),
            mid == prologue(size) + arg_pushes(n_params as int, rp as int) + seq![
                Instr::CallTarget,
            ],
        decreases results@.len() - k,
    {
        let t = results[k];
        proof {
            lemma_layout_size_nonneg(results@.take(k as int));
            lemma_layout_take_succ(results@, k as int);
            lemma_layout_size_mono(results@, k as int + 1);
            assert(results@.take(k as int + 1).drop_last() =~= results@.take(k as int));
            assert(results@.take(k as int + 1).last() == t);
        }
        load_value(&mut body, t, &mut offset);
        proof {
            assert(body@ =~= mid + load_steps(results@.take(k as int + 1)));
        }
        k = k + 1;
    }
    proof {
        assert(results@.take(k as int) =~= results@);
    }

    body.push(Instr::LocalGetScratch);
    body.push(Instr::I32Const(size));
    body.push(Instr::I32Add);
    body.push(Instr::GlobalSetSp);
    assert(body@ =~= trampoline_body(
        n_params as int,
        rp as int,
        results@,
        layout_size(results@) as u32,
    ));
    body
}

/// Does the instruction refer only to parameter locals the trampoline has,
/// and load only loadable types?
pub open spec fn instr_ok(i: Instr, n_params: int) -> bool {
    match i {
        Instr::LocalGetParam(j) => (j as int) < n_params,
        Instr::Load(t, _) => t != ValueType::Ref,
        _ => true,
    }
}

pub open spec fn instrs_ok(instrs: Seq<Instr>, n_params: int) -> bool {
    forall|k: int| 0 <= k < instrs.len() ==> instr_ok(#[trigger] instrs[k], n_params)
}

pub proof fn lemma_instrs_ok_concat(a: Seq<Instr>, b: Seq<Instr>, n: int)
    requires
        instrs_ok(a, n),
        instrs_ok(b, n),
    ensures
        instrs_ok(a + b, n),
{
    assert forall|k: int| 0 <= k < (a + b).len() implies instr_ok(#[trigger] (a + b)[k], n) by {
        if k < a.len() {
            assert((a + b)[k] == a[k]);
        } else {
            assert((a + b)[k] == b[k - a.len()]);
        }
    }
}

pub proof fn lemma_load_steps_ok(tys: Seq<ValueType>, n: int)
    requires
        forall|i: int| 0 <= i < tys.len() ==> tys[i] != ValueType::Ref,
    ensures
        instrs_ok(load_steps(tys), n),
    decreases tys.len(),
{
    if tys.len() > 0 {
        lemma_load_steps_ok(tys.drop_last(), n);
        let tail = seq![
            Instr::LocalGetScratch,
            Instr::Load(
                tys.last(),
                aligned_offset(tys.last(), layout_size(tys.drop_last())) as u32,
            ),
        ];
        assert(instrs_ok(tail, n));
        lemma_instrs_ok_concat(load_steps(tys.drop_last()), tail, n);
    }
}

/// Every instruction of a whole trampoline plan is well formed for a
/// trampoline with `n_params` parameter locals.
pub proof fn lemma_trampoline_body_ok(n_params: int, rp: int, tys: Seq<ValueType>, size: u32)
    requires
        0 <= rp <= n_params,
        n_params < usize::MAX,
        forall|i: int| 0 <= i < tys.len() ==> tys[i] != ValueType::Ref,
    ensures
        instrs_ok(trampoline_body(n_params, rp, tys, size), n_params),
{
    assert(instrs_ok(prologue(size), n_params));
    let args = arg_pushes(n_params, rp);
    assert forall|k: int| 0 <= k < args.len() implies instr_ok(#[trigger] args[k], n_params) by {
        if k != rp {
            if k < rp {
                assert(args[k] == Instr::LocalGetParam(k as usize));
                assert((k as usize) as int == k);
            } else {
                assert(args[k] == Instr::LocalGetParam((k - 1) as usize));
                assert(((k - 1) as usize) as int == k - 1);
            }
        }
    }
    assert(instrs_ok(seq![Instr::CallTarget], n_params));
    lemma_load_steps_ok(tys, n_params);
    assert(instrs_ok(epilogue(size), n_params));
    lemma_instrs_ok_concat(prologue(size), args, n_params);
    lemma_instrs_ok_concat(prologue(size) + args, seq![Instr::CallTarget], n_params);
    lemma_instrs_ok_concat(prologue(size) + args + seq![Instr::CallTarget], load_steps(tys), n_params);
    lemma_instrs_ok_concat(
        prologue(size) + args + seq![Instr::CallTarget] + load_steps(tys),
        epilogue(size),
        n_params,
    );
}

/// Law: when the trampoline reconstructs the call, the scratch pointer is
/// re-inserted at exactly the position the return-pointer parameter
/// originally held — also when that position is the trailing one — and
/// every other argument keeps its original relative order around it.
pub proof fn lemma_return_pointer_position(n_params: int, rp: int, tys: Seq<ValueType>, size: u32)
    requires
        0 <= rp <= n_params,
    ensures
        trampoline_body(n_params, rp, tys, size).subrange(5, 5 + n_params + 1) == arg_pushes(
            n_params,
            rp,
        ),
        arg_pushes(n_params, rp)[rp] == Instr::LocalGetScratch,
        forall|i: int|
            0 <= i < rp ==> #[trigger] arg_pushes(n_params, rp)[i] == Instr::LocalGetParam(
                i as usize,
            ),
        forall|i: int|
            rp < i <= n_params ==> #[trigger] arg_pushes(n_params, rp)[i] == Instr::LocalGetParam(
                (i - 1) as usize,
            ),
{
    assert(trampoline_body(n_params, rp, tys, size).subrange(5, 5 + n_params + 1) =~= arg_pushes(
        n_params,
        rp,
    ));
}

} // verus!
