use vstd::prelude::*;

use crate::graph::{
    add_local, add_local_i32, builder_name, builder_param_tags, builder_result_tags, decode_module,
    decoded,
    decodes, emit_call, emit_global_get, emit_global_set, emit_i32_add, emit_i32_const,
    emit_i32_sub, emit_load_f32, emit_load_f64, emit_load_i32, emit_load_i64, emit_load_v128,
    emit_local_get, emit_local_tee, emit_module, export_at, export_count, finish_function,
    func_id_index, func_index, func_params, graph_preserved, module_exports, module_func_name,
    module_func_params, module_func_results, module_globals, module_has_func, module_has_memory,
    new_function_builder, set_export_function, set_wrapper_name, to_val_type, val_type_tag,
    wrapper_suffix,
};
use crate::instr::{build_trampoline_body, instr_ok, instrs_ok, lemma_trampoline_body_ok, Instr};
use crate::layout::{layout_size, lemma_layout_size_nonneg, lemma_layout_size_upper};
use crate::types::{Error, ValueType};
use crate::validate::{
    build_context, first_sp_candidate, req_views, requests_error, resolved_target, structural_ok,
    TargetFunction, TransformContext,
};

verus! {

pub proof fn lemma_graph_preserved_trans(a: walrus::Module, b: walrus::Module, c: walrus::Module)
    requires
        graph_preserved(a, b),
        graph_preserved(b, c),
    ensures
        graph_preserved(a, c),
{
    assert forall|fi: int| #[trigger] module_has_func(a, fi) implies module_has_func(c, fi)
        && module_func_params(c, fi) == module_func_params(a, fi) && module_func_results(c, fi)
        == module_func_results(a, fi) && module_func_name(c, fi) == module_func_name(a, fi) by {
        assert(module_has_func(b, fi));
    }
    assert forall|fi: int| #[trigger] module_has_func(c, fi) implies module_has_func(a, fi) by {
        assert(module_has_func(b, fi));
    }
}

/// Synthesize the trampoline for one validated target and add it to the
/// module: reserve scratch space, re-order the call, load each requested
/// value back, release the scratch space. The new function's parameters
/// are the wrapped function's minus its return pointer, its results the
/// requested types; it is the one and only function added, and everything
/// already in the module is left as it was. Validated input has no failure
/// path left here.
pub fn new_wrapper_func(
    m: &mut walrus::Module,
    memory: walrus::MemoryId,
    stack_pointer: walrus::GlobalId,
    target: &TargetFunction,
) -> (r: walrus::FunctionId)
    requires
        module_has_func(*old(m), func_index(target.func)),
        module_func_results(*old(m), func_index(target.func)).len() == 0,
        (target.rp_index as int) < module_func_params(*old(m), func_index(target.func)).len(),
        forall|i: int| 0 <= i < target.results@.len() ==> target.results@[i] != ValueType::Ref,
        target.results@.len() <= 0x0400_0000,
    ensures
        module_exports(*final(m)) == module_exports(*old(m)),
        module_globals(*final(m)) == module_globals(*old(m)),
        module_has_memory(*final(m)) == module_has_memory(*old(m)),
        forall|fi: int|
            #[trigger] module_has_func(*old(m), fi) ==> module_has_func(*final(m), fi)
                && module_func_params(*final(m), fi) == module_func_params(*old(m), fi)
                && module_func_results(*final(m), fi) == module_func_results(*old(m), fi)
                && module_func_name(*final(m), fi) == module_func_name(*old(m), fi),
        forall|fi: int|
            #[trigger] module_has_func(*final(m), fi) ==> module_has_func(*old(m), fi) || fi
                == func_index(r),
        module_has_func(*final(m), func_index(r)),
        !module_has_func(*old(m), func_index(r)),
        module_func_params(*final(m), func_index(r)) == module_func_params(
            *old(m),
            func_index(target.func),
        ).remove(target.rp_index as int),
        module_func_results(*final(m), func_index(r)) == target.results@,
        module_func_name(*final(m), func_index(r)) == (match module_func_name(
            *old(m),
            func_index(target.func),
        ) {
            Some(n) => Some(n + wrapper_suffix()),
            None => None,
        }),
{
    let ghost m0 = *m;
    let ghost pmodel = module_func_params(m0, func_index(target.func));
    proof {
        lemma_layout_size_upper(target.results@);
        lemma_layout_size_nonneg(target.results@);
    }
    let (raw_params, _tags) = func_params(m, target.func);
    let n_orig = raw_params.len();
    // The trampoline's parameters: the original list minus the return
    // pointer, in original relative order.
    let mut new_raw: Vec<walrus::ValType> = Vec::new();
    let mut i: usize = 0;
    while i < n_orig
        invariant
            n_orig == raw_params@.len(),
            n_orig == pmodel.len(),
            forall|x: int|
                0 <= x < n_orig ==> val_type_tag(#[trigger] raw_params@[x]) == pmodel[x],
            (target.rp_index as int) < n_orig,
            0 <= i <= n_orig,
            new_raw@.len() == if i <= target.rp_index {
                i as int
            } else {
                i as int - 1
            },
            forall|x: int|
                0 <= x < new_raw@.len() ==> val_type_tag(#[trigger] new_raw@[x]) == (
                if x < target.rp_index {
                    pmodel[x]
                } else {
                    pmodel[x + 1]
                }),
        decreases n_orig - i,
    {
        if i != target.rp_index {
            new_raw.push(raw_params[i]);
        }
        i = i + 1;
    }
    let n_params = new_raw.len();
    proof {
        assert forall|x: int|
            0 <= x < new_raw@.len() implies val_type_tag(#[trigger] new_raw@[x]) == pmodel.remove(
            target.rp_index as int,
        )[x] by {
            assert(pmodel.remove(target.rp_index as int)[x] == if x < target.rp_index {
                pmodel[x]
            } else {
                pmodel[x + 1]
            });
        }
        assert(new_raw@.map_values(|t: walrus::ValType| val_type_tag(t)) =~= pmodel.remove(
            target.rp_index as int,
        ));
    }
    let mut res_raw: Vec<walrus::ValType> = Vec::new();
    let mut j: usize = 0;
    while j < target.results.len()
        invariant
            forall|x: int| 0 <= x < target.results@.len() ==> target.results@[x] != ValueType::Ref,
            0 <= j <= target.results@.len(),
            res_raw@.len() == j,
            forall|x: int|
                0 <= x < j ==> val_type_tag(#[trigger] res_raw@[x]) == target.results@[x],
        decreases target.results@.len() - j,
    {
        res_raw.push(to_val_type(target.results[j]));
        j = j + 1;
    }
    proof {
        assert(res_raw@.map_values(|t: walrus::ValType| val_type_tag(t)) =~= target.results@);
    }
    let mut locals: Vec<walrus::LocalId> = Vec::new();
    let mut x: usize = 0;
    while x < new_raw.len()
        invariant
            0 <= x <= new_raw@.len(),
            locals@.len() == x,
            graph_preserved(m0, *m),
        decreases new_raw@.len() - x,
    {
        let ghost mprev = *m;
        let l = add_local(m, new_raw[x]);
        locals.push(l);
        proof {
            lemma_graph_preserved_trans(m0, mprev, *m);
        }
        x = x + 1;
    }
    let ghost mprev1 = *m;
    let scratch = add_local_i32(m);
    proof {
        lemma_graph_preserved_trans(m0, mprev1, *m);
    }
    let ghost mprev2 = *m;
    let mut builder = new_function_builder(m, &new_raw, &res_raw);
    let ghost gbp = pmodel.remove(target.rp_index as int);
    let ghost gbr = target.results@;
    proof {
        lemma_graph_preserved_trans(m0, mprev2, *m);
        assert(builder_param_tags(builder) == gbp);
        assert(builder_result_tags(builder) == gbr);
        assert(builder_name(builder) is None);
    }
    let plan = build_trampoline_body(n_params, target.rp_index, target.results.as_slice());
    proof {
        lemma_trampoline_body_ok(
            n_params as int,
            target.rp_index as int,
            target.results@,
            layout_size(target.results@) as u32,
        );
    }
    let mut k: usize = 0;
    while k < plan.len()
        invariant
            instrs_ok(plan@, n_params as int),
            locals@.len() == n_params,
            graph_preserved(m0, *m),
            builder_param_tags(builder) == gbp,
            builder_result_tags(builder) == gbr,
            builder_name(builder) is None,
            0 <= k <= plan@.len(),
        decreases plan@.len() - k,
    {
        let ins = plan[k];
        match ins {
            Instr::GlobalGetSp => emit_global_get(&mut builder, stack_pointer),
            Instr::GlobalSetSp => emit_global_set(&mut builder, stack_pointer),
            Instr::I32Const(c) => emit_i32_const(&mut builder, c),
            Instr::I32Sub => emit_i32_sub(&mut builder),
            Instr::I32Add => emit_i32_add(&mut builder),
            Instr::LocalTeeScratch => emit_local_tee(&mut builder, scratch),
            Instr::LocalGetScratch => emit_local_get(&mut builder, scratch),
            Instr::LocalGetParam(p) => {
                proof {
                    assert(instr_ok(plan@[k as int], n_params as int));
                }
                emit_local_get(&mut builder, locals[p]);
            },
            Instr::CallTarget => emit_call(&mut builder, target.func),
            Instr::Load(t, off) => {
                proof {
                    assert(instr_ok(plan@[k as int], n_params as int));
                }
                match t {
                    ValueType::I32 => emit_load_i32(&mut builder, memory, off),
                    ValueType::I64 => emit_load_i64(&mut builder, memory, off),
                    ValueType::F32 => emit_load_f32(&mut builder, memory, off),
                    ValueType::F64 => emit_load_f64(&mut builder, memory, off),
                    ValueType::V128 => emit_load_v128(&mut builder, memory, off),
                    ValueType::Ref => {
                        proof {
                            assert(false);
                        }
                    },
                }
            },
        }
        k = k + 1;
    }
    let ghost mprev3 = *m;
    let wrapper = finish_function(m, builder, locals);
    let ghost mprev4 = *m;
    proof {
        assert(module_func_params(mprev4, func_index(wrapper)) == gbp);
        assert(module_func_results(mprev4, func_index(wrapper)) == gbr);
        assert(module_func_name(mprev4, func_index(wrapper)) is None);
        assert(!module_has_func(m0, func_index(wrapper)));
        assert(module_has_func(mprev3, func_index(target.func)));
        assert(func_index(target.func) != func_index(wrapper));
        assert(module_func_name(mprev4, func_index(target.func)) == module_func_name(
            m0,
            func_index(target.func),
        ));
    }
    set_wrapper_name(m, target.func, wrapper);
    proof {
        assert forall|fi: int| #[trigger] module_has_func(*m, fi) implies module_has_func(m0, fi)
            || fi == func_index(wrapper) by {
            assert(module_has_func(mprev4, fi));
            if module_has_func(mprev3, fi) {
                assert(module_has_func(m0, fi));
            }
        }
        assert forall|fi: int| #[trigger] module_has_func(m0, fi) implies module_has_func(*m, fi)
            && module_func_params(*m, fi) == module_func_params(m0, fi) && module_func_results(
            *m,
            fi,
        ) == module_func_results(m0, fi) && module_func_name(*m, fi) == module_func_name(
            m0,
            fi,
        ) by {
            assert(module_has_func(mprev3, fi));
            assert(module_has_func(mprev4, fi));
            assert(fi != func_index(wrapper));
        }
        assert(module_has_func(mprev4, func_index(wrapper)));
    }
    wrapper
}

/// The first request position whose original's arena index the export
/// item `it` references, at or after `k`.
pub open spec fn first_request_of(origs: Seq<int>, it: Option<int>, k: int) -> Option<int>
    decreases origs.len() - k,
    when 0 <= k <= origs.len()
{
    if k >= origs.len() {
        None
    } else if it == Some(origs[k]) {
        Some(k)
    } else {
        first_request_of(origs, it, k + 1)
    }
}

/// The export table after rebinding: every entry that referenced a
/// requested original function is re-aimed at the trampoline of the first
/// request naming that function, keeping its name; every other entry is
/// exactly as it was.
pub open spec fn rebound_exports(
    exs: Seq<(Seq<u8>, Option<int>)>,
    origs: Seq<int>,
    wraps: Seq<int>,
) -> Seq<(Seq<u8>, Option<int>)> {
    Seq::new(
        exs.len(),
        |j: int|
            match first_request_of(origs, exs[j].1, 0) {
                None => exs[j],
                Some(k) => (exs[j].0, Some(wraps[k])),
            },
    )
}

/// The arena indices behind a list of function handles.
pub open spec fn indices_of(fs: Seq<walrus::FunctionId>) -> Seq<int> {
    fs.map_values(|f: walrus::FunctionId| func_index(f))
}

pub proof fn lemma_first_request_some(origs: Seq<int>, it: Option<int>, i: int)
    requires
        0 <= i <= origs.len(),
    ensures
        first_request_of(origs, it, i) matches Some(k) ==> i <= k < origs.len() && it == Some(
            origs[k],
        ),
    decreases origs.len() - i,
{
    if i < origs.len() && it != Some(origs[i]) {
        lemma_first_request_some(origs, it, i + 1);
    }
}

/// Extending the request prefix by one: the first match is the old one, or
/// the new position where the new original is the first to match.
pub proof fn lemma_first_request_take(origs: Seq<int>, it: Option<int>, k: int, i: int)
    requires
        0 <= i <= k < origs.len(),
    ensures
        first_request_of(origs.take(k + 1), it, i) == (match first_request_of(
            origs.take(k),
            it,
            i,
        ) {
            Some(x) => Some(x),
            None => if it == Some(origs[k]) {
                Some(k)
            } else {
                None
            },
        }),
    decreases k - i,
{
    assert(origs.take(k + 1)[i] == origs[i]);
    if i < k {
        assert(origs.take(k)[i] == origs[i]);
        if it != Some(origs[i]) {
            lemma_first_request_take(origs, it, k, i + 1);
        }
    } else {
        assert(first_request_of(origs.take(k), it, i) is None);
    }
}

/// What rebinding never touches: the table's length and every entry's
/// name; an entry changes only if it referenced a requested original.
pub proof fn lemma_rebound_exports_frame(
    exs: Seq<(Seq<u8>, Option<int>)>,
    origs: Seq<int>,
    wraps: Seq<int>,
)
    ensures
        rebound_exports(exs, origs, wraps).len() == exs.len(),
        forall|j: int|
            0 <= j < exs.len() ==> (#[trigger] rebound_exports(exs, origs, wraps)[j]).0
                == exs[j].0,
        forall|j: int|
            0 <= j < exs.len() && #[trigger] rebound_exports(exs, origs, wraps)[j] != exs[j]
                ==> exists|k: int| 0 <= k < origs.len() && exs[j].1 == Some(#[trigger] origs[k]),
{
    assert forall|j: int|
        0 <= j < exs.len() && #[trigger] rebound_exports(exs, origs, wraps)[j] != exs[j]
        implies exists|k: int| 0 <= k < origs.len() && exs[j].1 == Some(#[trigger] origs[k]) by {
        lemma_first_request_some(origs, exs[j].1, 0);
        match first_request_of(origs, exs[j].1, 0) {
            Some(k) => {
                assert(0 <= k < origs.len() && exs[j].1 == Some(origs[k]));
            },
            None => {},
        }
    }
}

/// Repoint each matching export-table entry: for every requested
/// (original, trampoline) pair, every export entry whose item is the
/// original is re-aimed at the trampoline, keeping its name. All requested
/// rebindings are applied in this one call; entries that export nothing
/// requested, the globals, the memories and every function are untouched.
pub fn replace_export(
    m: &mut walrus::Module,
    originals: &Vec<walrus::FunctionId>,
    wrappers: &Vec<walrus::FunctionId>,
)
    requires
        originals@.len() == wrappers@.len(),
        forall|k: int|
            0 <= k < wrappers@.len() ==> module_has_func(
                *old(m),
                func_index(#[trigger] wrappers@[k]),
            ),
        forall|k1: int, k2: int|
            0 <= k1 < wrappers@.len() && 0 <= k2 < originals@.len() ==> func_index(
                #[trigger] wrappers@[k1],
            ) != func_index(#[trigger] originals@[k2]),
    ensures
        module_globals(*final(m)) == module_globals(*old(m)),
        module_has_memory(*final(m)) == module_has_memory(*old(m)),
        forall|fi: int|
            #[trigger] module_has_func(*old(m), fi) ==> module_has_func(*final(m), fi)
                && module_func_params(*final(m), fi) == module_func_params(*old(m), fi)
                && module_func_results(*final(m), fi) == module_func_results(*old(m), fi)
                && module_func_name(*final(m), fi) == module_func_name(*old(m), fi),
        forall|fi: int|
            #[trigger] module_has_func(*final(m), fi) ==> module_has_func(*old(m), fi),
        module_exports(*final(m)) == rebound_exports(
            module_exports(*old(m)),
            indices_of(originals@),
            indices_of(wrappers@),
        ),
{
    let ghost m0 = *m;
    let ghost exs0 = module_exports(m0);
    let ghost iorigs = indices_of(originals@);
    let ghost iwraps = indices_of(wrappers@);
    let n_targets = originals.len();
    proof {
        assert(rebound_exports(exs0, iorigs.take(0), iwraps.take(0)) =~= exs0);
    }
    let mut k: usize = 0;
    while k < n_targets
        invariant
            originals@.len() == n_targets,
            wrappers@.len() == n_targets,
            iorigs == indices_of(originals@),
            iwraps == indices_of(wrappers@),
            exs0 == module_exports(m0),
            forall|k1: int, k2: int|
                0 <= k1 < n_targets && 0 <= k2 < n_targets ==> func_index(
                    #[trigger] wrappers@[k1],
                ) != func_index(#[trigger] originals@[k2]),
            forall|x: int|
                0 <= x < n_targets ==> module_has_func(m0, func_index(#[trigger] wrappers@[x])),
            0 <= k <= n_targets,
            module_globals(*m) == module_globals(m0),
            module_has_memory(*m) == module_has_memory(m0),
            forall|fi: int|
                #[trigger] module_has_func(m0, fi) ==> module_has_func(*m, fi)
                    && module_func_params(*m, fi) == module_func_params(m0, fi)
                    && module_func_results(*m, fi) == module_func_results(m0, fi)
                    && module_func_name(*m, fi) == module_func_name(m0, fi),
            forall|fi: int| #[trigger] module_has_func(*m, fi) ==> module_has_func(m0, fi),
            module_exports(*m) == rebound_exports(exs0, iorigs.take(k as int), iwraps.take(
                k as int,
            )),
        decreases n_targets - k,
    {
        let orig_idx = func_id_index(originals[k]);
        let wrap = wrappers[k];
        let n_exports = export_count(m);
        let ghost reb_k = rebound_exports(exs0, iorigs.take(k as int), iwraps.take(k as int));
        let ghost reb_k1 = rebound_exports(
            exs0,
            iorigs.take(k as int + 1),
            iwraps.take(k as int + 1),
        );
        proof {
            assert(reb_k.len() == exs0.len());
            assert(reb_k1.len() == exs0.len());
            assert(iorigs[k as int] == orig_idx as int);
        }
        let mut j: usize = 0;
        while j < n_exports
            invariant
                originals@.len() == n_targets,
                wrappers@.len() == n_targets,
                iorigs == indices_of(originals@),
                iwraps == indices_of(wrappers@),
                exs0 == module_exports(m0),
                forall|k1: int, k2: int|
                    0 <= k1 < n_targets && 0 <= k2 < n_targets ==> func_index(
                        #[trigger] wrappers@[k1],
                    ) != func_index(#[trigger] originals@[k2]),
                forall|x: int|
                    0 <= x < n_targets ==> module_has_func(
                        m0,
                        func_index(#[trigger] wrappers@[x]),
                    ),
                0 <= k < n_targets,
                orig_idx as int == iorigs[k as int],
                wrap == wrappers@[k as int],
                reb_k == rebound_exports(exs0, iorigs.take(k as int), iwraps.take(k as int)),
                reb_k1 == rebound_exports(exs0, iorigs.take(k as int + 1), iwraps.take(
                    k as int + 1,
                )),
                n_exports == exs0.len(),
                module_exports(*m).len() == exs0.len(),
                0 <= j <= n_exports,
                module_globals(*m) == module_globals(m0),
                module_has_memory(*m) == module_has_memory(m0),
                forall|fi: int|
                    #[trigger] module_has_func(m0, fi) ==> module_has_func(*m, fi)
                        && module_func_params(*m, fi) == module_func_params(m0, fi)
                        && module_func_results(*m, fi) == module_func_results(m0, fi)
                        && module_func_name(*m, fi) == module_func_name(m0, fi),
                forall|fi: int| #[trigger] module_has_func(*m, fi) ==> module_has_func(m0, fi),
                forall|jj: int| 0 <= jj < j ==> #[trigger] module_exports(*m)[jj] == reb_k1[jj],
                forall|jj: int|
                    j <= jj < exs0.len() ==> #[trigger] module_exports(*m)[jj] == reb_k[jj],
            decreases n_exports - j,
        {
            let (_name, item) = export_at(m, j);
            let matched = match item {
                Some(f) => func_id_index(f) == orig_idx,
                None => false,
            };
            proof {
                let it = exs0[j as int].1;
                lemma_first_request_take(iorigs, it, k as int, 0);
                lemma_first_request_some(iorigs.take(k as int), it, 0);
                assert(module_exports(*m)[j as int] == reb_k[j as int]);
            }
            if matched {
                let ghost mprev = *m;
                set_export_function(m, j, wrap);
                proof {
                    let it = exs0[j as int].1;
                    // a previously rebound entry cannot match: trampoline
                    // indices are disjoint from the originals'
                    match first_request_of(iorigs.take(k as int), it, 0) {
                        Some(x) => {
                            assert(module_exports(mprev)[j as int].1 == Some(
                                iwraps.take(k as int)[x],
                            ));
                            assert(iwraps[x] == func_index(wrappers@[x]));
                            assert(iorigs[k as int] == func_index(originals@[k as int]));
                            assert(false);
                        },
                        None => {
                            assert(module_exports(mprev)[j as int] == exs0[j as int]);
                            assert(it == Some(orig_idx as int));
                            assert(first_request_of(iorigs.take(k as int + 1), it, 0) == Some(
                                k as int,
                            ));
                            assert(reb_k1[j as int] == (exs0[j as int].0, Some(
                                iwraps.take(k as int + 1)[k as int],
                            )));
                            assert(iwraps[k as int] == func_index(wrappers@[k as int]));
                        },
                    }
                    assert(module_exports(*m)[j as int] == reb_k1[j as int]);
                    assert forall|jj: int| 0 <= jj < j + 1 implies #[trigger] module_exports(
                        *m,
                    )[jj] == reb_k1[jj] by {
                        if jj < j {
                            assert(module_exports(*m)[jj] == module_exports(mprev)[jj]);
                        }
                    }
                    assert forall|jj: int| j + 1 <= jj < exs0.len() implies #[trigger]
                        module_exports(*m)[jj] == reb_k[jj] by {
                        assert(module_exports(*m)[jj] == module_exports(mprev)[jj]);
                    }
                }
            } else {
                proof {
                    let it = exs0[j as int].1;
                    match first_request_of(iorigs.take(k as int), it, 0) {
                        Some(x) => {
                            assert(reb_k1[j as int] == reb_k[j as int]);
                        },
                        None => {
                            // unmatched and not previously rebound: the
                            // entry does not reference this original
                            assert(module_exports(*m)[j as int] == exs0[j as int]);
                            assert(it != Some(orig_idx as int));
                            assert(reb_k1[j as int] == exs0[j as int]);
                        },
                    }
                    assert(module_exports(*m)[j as int] == reb_k1[j as int]);
                }
            }
            j = j + 1;
        }
        proof {
            assert(module_exports(*m) =~= reb_k1);
        }
        k = k + 1;
    }
    proof {
        assert(iorigs.take(n_targets as int) =~= iorigs);
        assert(iwraps.take(n_targets as int) =~= iwraps);
    }
}

/// The arena index a request name resolves to on the module; meaningful
/// only where `resolved_target` is `Some`.
pub open spec fn target_index(m: walrus::Module, name: Seq<u8>) -> int {
    match resolved_target(m, name) {
        Some(fi) => fi,
        None => -1,
    }
}

/// The arena indices every request of `reqs` resolves to.
pub open spec fn resolved_indices(m: walrus::Module, reqs: Seq<(Seq<u8>, Seq<ValueType>)>) -> Seq<
    int,
> {
    Seq::new(reqs.len(), |k: int| target_index(m, reqs[k].0))
}

/// The whole success story of one conversion call, with `ws` the arena
/// indices of the synthesized trampolines: each request gained a fresh
/// function whose parameters are its original's minus the leading return
/// pointer and whose results are exactly the requested types in request
/// order; every export entry that referenced a requested original now
/// references the matching trampoline; and no function other than the
/// trampolines was added.
pub open spec fn rebinding_outcome(
    a: walrus::Module,
    b: walrus::Module,
    reqs: Seq<(Seq<u8>, Seq<ValueType>)>,
    ws: Seq<int>,
) -> bool {
    &&& ws.len() == reqs.len()
    &&& forall|k: int|
        0 <= k < reqs.len() ==> !module_has_func(a, #[trigger] ws[k]) && module_has_func(b, ws[k])
            && module_func_results(b, ws[k]) == reqs[k].1 && module_func_params(b, ws[k])
            == module_func_params(a, target_index(a, reqs[k].0)).remove(0) && module_func_name(
            b,
            ws[k],
        ) == (match module_func_name(a, target_index(a, reqs[k].0)) {
            Some(n) => Some(n + wrapper_suffix()),
            None => None,
        })
    &&& module_exports(b) == rebound_exports(module_exports(a), resolved_indices(a, reqs), ws)
    &&& forall|fi: int|
        #[trigger] module_has_func(b, fi) ==> module_has_func(a, fi) || ws.contains(fi)
}

/// Apply the whole conversion to a decoded module: validate once, then for
/// each requested function compute the layout and synthesize its
/// trampoline, then rebind every matching export - all of it or none of
/// it. On any error the module graph is left untouched.
pub fn transform_module(m: &mut walrus::Module, funcs: &Vec<(Vec<u8>, Vec<ValueType>)>) -> (r:
    Result<(), Error>)
    requires
        forall|k: int| 0 <= k < funcs@.len() ==> (#[trigger] funcs@[k]).1@.len() <= 0x0400_0000,
    ensures
        ({
            let reqs = req_views(funcs@);
            let gs = module_globals(*old(m));
            &&& (r is Err ==> module_exports(*final(m)) == module_exports(*old(m))
                && module_globals(*final(m)) == module_globals(*old(m)) && module_has_memory(
                *final(m),
            ) == module_has_memory(*old(m)))
            &&& (!module_has_memory(*old(m)) ==> (r matches Err(e) && e == Error::NoMemory))
            &&& (module_has_memory(*old(m)) && first_sp_candidate(gs, 0) is None ==> (
            r matches Err(e) && e == Error::NoStackPointer))
            &&& (module_has_memory(*old(m)) ==> (first_sp_candidate(gs, 0) matches Some(i)
                && gs[i].0 != ValueType::I32 ==> (r matches Err(e) && e
                == Error::InvalidStackPointerType)))
            &&& (structural_ok(*old(m)) ==> (requests_error(*old(m), reqs, 0) matches Some(e)
                ==> (r matches Err(e2) && e2 == e)))
            &&& (structural_ok(*old(m)) && requests_error(*old(m), reqs, 0) is None
                && reqs.len() == 0 ==> (r matches Err(e) && e == Error::NoFunctionsRequested))
            &&& (r is Ok <==> structural_ok(*old(m)) && requests_error(*old(m), reqs, 0) is None
                && reqs.len() > 0)
            &&& (r matches Err(e) ==> e != Error::Codec)
            &&& (r is Ok ==> (forall|fi: int|
                #[trigger] module_has_func(*old(m), fi) ==> module_has_func(*final(m), fi)
                    && module_func_params(*final(m), fi) == module_func_params(*old(m), fi)
                    && module_func_results(*final(m), fi) == module_func_results(*old(m), fi)
                    && module_func_name(*final(m), fi) == module_func_name(*old(m), fi)))
            &&& (r is Ok ==> module_globals(*final(m)) == module_globals(*old(m))
                && module_has_memory(*final(m)) == module_has_memory(*old(m)))
            &&& (r is Ok ==> (exists|ws: Seq<int>|
                rebinding_outcome(*old(m), *final(m), reqs, ws)))
            &&& (r is Ok ==> module_exports(*final(m)).len() == module_exports(*old(m)).len()
                && (forall|j: int|
                0 <= j < module_exports(*old(m)).len() ==> (#[trigger] module_exports(
                    *final(m),
                )[j]).0 == module_exports(*old(m))[j].0) && (forall|j: int|
                0 <= j < module_exports(*old(m)).len() && #[trigger] module_exports(
                    *final(m),
                )[j] != module_exports(*old(m))[j] ==> exists|k: int|
                    0 <= k < reqs.len() && module_exports(*old(m))[j].1 == resolved_target(
                        *old(m),
                        #[trigger] reqs[k].0,
                    )))
        }),
{
    let ghost m0 = *m;
    let ghost reqs = req_views(funcs@);
    let ctx = match build_context(m, funcs) {
        Ok(c) => c,
        Err(e) => {
            return Err(e);
        },
    };
    let mut originals: Vec<walrus::FunctionId> = Vec::new();
    let mut wrappers: Vec<walrus::FunctionId> = Vec::new();
    let n_targets = ctx.targets.len();
    let mut k: usize = 0;
    while k < n_targets
        invariant
            reqs == req_views(funcs@),
            forall|x: int| 0 <= x < funcs@.len() ==> (#[trigger] funcs@[x]).1@.len()
                <= 0x0400_0000,
            n_targets == ctx.targets@.len(),
            n_targets == reqs.len(),
            forall|x: int|
                0 <= x < n_targets ==> crate::validate::target_valid(
                    m0,
                    #[trigger] ctx.targets@[x],
                    reqs[x].0,
                    reqs[x].1,
                ) && Some(func_index(ctx.targets@[x].func)) == resolved_target(m0, reqs[x].0),
            0 <= k <= n_targets,
            module_exports(*m) == module_exports(m0),
            module_globals(*m) == module_globals(m0),
            module_has_memory(*m) == module_has_memory(m0),
            forall|fi: int|
                #[trigger] module_has_func(m0, fi) ==> module_has_func(*m, fi)
                    && module_func_params(*m, fi) == module_func_params(m0, fi)
                    && module_func_results(*m, fi) == module_func_results(m0, fi)
                    && module_func_name(*m, fi) == module_func_name(m0, fi),
            originals@.len() == k,
            wrappers@.len() == k,
            forall|x: int| 0 <= x < k ==> #[trigger] originals@[x] == ctx.targets@[x].func,
            forall|x: int|
                0 <= x < k ==> !module_has_func(m0, func_index(#[trigger] wrappers@[x]))
                    && module_has_func(*m, func_index(wrappers@[x])) && module_func_results(
                    *m,
                    func_index(wrappers@[x]),
                ) == reqs[x].1 && module_func_params(*m, func_index(wrappers@[x]))
                    == module_func_params(m0, target_index(m0, reqs[x].0)).remove(0)
                    && module_func_name(*m, func_index(wrappers@[x])) == (
                match module_func_name(m0, target_index(m0, reqs[x].0)) {
                    Some(n) => Some(n + wrapper_suffix()),
                    None => None,
                }),
            forall|fi: int|
                #[trigger] module_has_func(*m, fi) ==> module_has_func(m0, fi) || indices_of(
                    wrappers@,
                ).contains(fi),
        decreases n_targets - k,
    {
        let ghost mprev = *m;
        let target = &ctx.targets[k];
        proof {
            assert(crate::validate::target_valid(m0, ctx.targets@[k as int], reqs[k as int].0,
                reqs[k as int].1));
            assert(reqs[k as int] == (funcs@[k as int].0@, funcs@[k as int].1@));
            assert forall|i: int| 0 <= i < target.results@.len() implies target.results@[i]
                != ValueType::Ref by {
                assert(reqs[k as int].1[i].is_requestable());
            }
            assert(target.results@.len() <= 0x0400_0000);
            assert(module_has_func(mprev, func_index(target.func)));
        }
        let w = new_wrapper_func(m, ctx.memory, ctx.stack_pointer, target);
        let ghost oprev = originals@;
        let ghost wprev = wrappers@;
        originals.push(target.func);
        wrappers.push(w);
        proof {
            assert forall|fi: int| #[trigger] module_has_func(m0, fi) implies module_has_func(
                *m,
                fi,
            ) && module_func_params(*m, fi) == module_func_params(m0, fi)
                && module_func_results(*m, fi) == module_func_results(m0, fi)
                && module_func_name(*m, fi) == module_func_name(m0, fi) by {
                assert(module_has_func(mprev, fi));
            }
            assert(!module_has_func(m0, func_index(w)));
            assert(Some(func_index(target.func)) == resolved_target(m0, reqs[k as int].0));
            assert(func_index(target.func) == target_index(m0, reqs[k as int].0));
            assert(module_func_params(mprev, func_index(target.func)) == module_func_params(
                m0,
                func_index(target.func),
            ));
            assert(module_func_results(*m, func_index(w)) == reqs[k as int].1);
            assert(module_func_params(*m, func_index(w)) == module_func_params(
                m0,
                target_index(m0, reqs[k as int].0),
            ).remove(0));
            assert forall|x: int| 0 <= x < k + 1 implies #[trigger] originals@[x]
                == ctx.targets@[x].func by {
                if x < k {
                    assert(originals@[x] == originals@.drop_last()[x]);
                }
            }
            assert(module_func_name(mprev, func_index(target.func)) == module_func_name(
                m0,
                func_index(target.func),
            ));
            assert forall|x: int|
                0 <= x < k + 1 implies !module_has_func(
                m0,
                func_index(#[trigger] wrappers@[x]),
            ) && module_has_func(*m, func_index(wrappers@[x])) && module_func_results(
                *m,
                func_index(wrappers@[x]),
            ) == reqs[x].1 && module_func_params(*m, func_index(wrappers@[x]))
                == module_func_params(m0, target_index(m0, reqs[x].0)).remove(0)
                && module_func_name(*m, func_index(wrappers@[x])) == (match module_func_name(
                m0,
                target_index(m0, reqs[x].0),
            ) {
                Some(n) => Some(n + wrapper_suffix()),
                None => None,
            }) by {
                if x < k {
                    assert(wrappers@[x] == wrappers@.drop_last()[x]);
                    assert(module_has_func(mprev, func_index(wrappers@[x])));
                }
            }
            assert forall|fi: int| #[trigger] module_has_func(*m, fi) implies module_has_func(
                m0,
                fi,
            ) || indices_of(wrappers@).contains(fi) by {
                if fi == func_index(w) {
                    assert(wrappers@[k as int] == w);
                    assert(indices_of(wrappers@)[k as int] == func_index(wrappers@[k as int]));
                    assert(indices_of(wrappers@).contains(fi));
                } else {
                    assert(module_has_func(mprev, fi));
                    if !module_has_func(m0, fi) {
                        assert(indices_of(wprev).contains(fi));
                        let x = choose|x: int|
                            0 <= x < indices_of(wprev).len() && indices_of(wprev)[x] == fi;
                        assert(indices_of(wprev)[x] == func_index(wprev[x]));
                        assert(wrappers@[x] == wprev[x]);
                        assert(indices_of(wrappers@)[x] == func_index(wrappers@[x]));
                        assert(indices_of(wrappers@).contains(fi));
                    }
                }
            }
        }
        k = k + 1;
    }
    let ghost mgen = *m;
    proof {
        assert forall|k1: int, k2: int|
            0 <= k1 < wrappers@.len() && 0 <= k2 < originals@.len() implies func_index(
            #[trigger] wrappers@[k1],
        ) != func_index(#[trigger] originals@[k2]) by {
            assert(module_has_func(m0, func_index(ctx.targets@[k2].func)));
            assert(originals@[k2] == ctx.targets@[k2].func);
            assert(!module_has_func(m0, func_index(wrappers@[k1])));
        }
    }
    replace_export(m, &originals, &wrappers);
    proof {
        let exs0 = module_exports(m0);
        assert(module_exports(mgen) == exs0);
        let iorigs = indices_of(originals@);
        let iwraps = indices_of(wrappers@);
        assert(iorigs =~= resolved_indices(m0, reqs)) by {
            assert forall|x: int| 0 <= x < n_targets implies iorigs[x] == resolved_indices(
                m0,
                reqs,
            )[x] by {
                assert(iorigs[x] == func_index(originals@[x]));
                assert(Some(func_index(ctx.targets@[x].func)) == resolved_target(m0, reqs[x].0));
            }
        }
        // the success story, witnessed by the trampolines' indices
        assert(rebinding_outcome(m0, *m, reqs, iwraps)) by {
            assert forall|x: int|
                0 <= x < reqs.len() implies !module_has_func(m0, #[trigger] iwraps[x])
                && module_has_func(*m, iwraps[x]) && module_func_results(*m, iwraps[x])
                == reqs[x].1 && module_func_params(*m, iwraps[x]) == module_func_params(
                m0,
                target_index(m0, reqs[x].0),
            ).remove(0) && module_func_name(*m, iwraps[x]) == (match module_func_name(
                m0,
                target_index(m0, reqs[x].0),
            ) {
                Some(n) => Some(n + wrapper_suffix()),
                None => None,
            }) by {
                assert(iwraps[x] == func_index(wrappers@[x]));
                assert(module_has_func(mgen, func_index(wrappers@[x])));
            }
            assert forall|fi: int| #[trigger] module_has_func(*m, fi) implies module_has_func(
                m0,
                fi,
            ) || iwraps.contains(fi) by {
                assert(module_has_func(mgen, fi));
            }
        }
        assert(exists|ws: Seq<int>| rebinding_outcome(m0, *m, reqs, ws)) by {
            assert(rebinding_outcome(m0, *m, reqs, iwraps));
        }
        // names and non-requested entries
        lemma_rebound_exports_frame(exs0, iorigs, iwraps);
        assert forall|j: int|
            0 <= j < exs0.len() && #[trigger] module_exports(*m)[j] != exs0[j] implies exists|
            x: int,
        |
            0 <= x < reqs.len() && exs0[j].1 == resolved_target(m0, #[trigger] reqs[x].0) by {
            assert(module_exports(*m)[j] == rebound_exports(exs0, iorigs, iwraps)[j]);
            let x = choose|x: int| 0 <= x < iorigs.len() && exs0[j].1 == Some(#[trigger] iorigs[x]);
            assert(Some(iorigs[x]) == resolved_target(m0, reqs[x].0));
        }
    }
    Ok(())
}

/// Convert a binary module: decode it, rewrite every requested exported
/// function from the out-parameter convention to native multi-value
/// results, and re-encode. All-or-nothing: the call succeeds exactly when
/// the bytes decode, the module passes structural validation and every
/// request is valid and nonempty; any failure aborts before the encoder
/// runs and yields only the error.
pub fn parse(wasm: Vec<u8>, funcs: Vec<(Vec<u8>, Vec<ValueType>)>) -> (r: Result<Vec<u8>, Error>)
    requires
        forall|k: int| 0 <= k < funcs@.len() ==> (#[trigger] funcs@[k]).1@.len() <= 0x0400_0000,
    ensures
        ((r matches Err(e) && e == Error::Codec) <==> !decodes(wasm@)),
        ({
            let reqs = req_views(funcs@);
            let dm = decoded(wasm@);
            let gs = module_globals(dm);
            &&& (r is Ok <==> decodes(wasm@) && structural_ok(dm) && requests_error(dm, reqs, 0)
                is None && reqs.len() > 0)
            &&& (decodes(wasm@) && !module_has_memory(dm) ==> (r matches Err(e) && e
                == Error::NoMemory))
            &&& (decodes(wasm@) && module_has_memory(dm) && first_sp_candidate(gs, 0) is None
                ==> (r matches Err(e) && e == Error::NoStackPointer))
            &&& (decodes(wasm@) && module_has_memory(dm) ==> (first_sp_candidate(gs, 0)
                matches Some(i) && gs[i].0 != ValueType::I32 ==> (r matches Err(e) && e
                == Error::InvalidStackPointerType)))
            &&& (decodes(wasm@) && structural_ok(dm) ==> (requests_error(dm, reqs, 0)
                matches Some(e) ==> (r matches Err(e2) && e2 == e)))
            &&& (decodes(wasm@) && structural_ok(dm) && requests_error(dm, reqs, 0) is None
                && reqs.len() == 0 ==> (r matches Err(e) && e == Error::NoFunctionsRequested))
        }),
{
    let module_opt = decode_module(&wasm);
    let mut module = match module_opt {
        Some(mm) => mm,
        None => {
            return Err(Error::Codec);
        },
    };
    match transform_module(&mut module, &funcs) {
        Ok(()) => Ok(emit_module(&mut module)),
        Err(e) => Err(e),
    }
}

} // verus!
