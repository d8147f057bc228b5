use vstd::prelude::*;

use crate::graph::{
    export_at, export_count, first_memory, func_index, func_params, func_results, func_id_index,
    global_at, global_count, module_exports, module_func_params, module_func_results,
    module_globals, module_has_func, module_has_memory,
};
use crate::types::{Error, ValueType};

verus! {

/// One requested function, resolved and validated: its identity in the
/// module graph, the position of its return-pointer parameter, and the
/// ordered result types requested for it.
pub struct TargetFunction {
    pub func: walrus::FunctionId,
    pub rp_index: usize,
    pub results: Vec<ValueType>,
}

/// Everything one transformation call needs, built once by validation and
/// discarded with the call: the module's primary memory, its stack-pointer
/// global, and the validated targets.
pub struct TransformContext {
    pub memory: walrus::MemoryId,
    pub stack_pointer: walrus::GlobalId,
    pub targets: Vec<TargetFunction>,
}

/// Byte-for-byte equality of two slices.
pub fn bytes_eq(a: &[u8], b: &[u8]) -> (r: bool)
    ensures
        r == (a@ == b@),
{
    if a.len() != b.len() {
        return false;
    }
    let mut i: usize = 0;
    while i < a.len()
        invariant
            a@.len() == b@.len(),
            0 <= i <= a@.len(),
            forall|j: int| 0 <= j < i ==> a@[j] == b@[j],
        decreases a@.len() - i,
    {
        if a[i] != b[i] {
            return false;
        }
        i = i + 1;
    }
    proof {
        assert(a@ =~= b@);
    }
    true
}

/// The diagnostic name that explicitly tags a module's stack-pointer
/// global.
pub open spec fn sp_tag() -> Seq<u8> {
    seq![
        95u8, 95u8, 115u8, 116u8, 97u8, 99u8, 107u8, 95u8, 112u8, 111u8, 105u8, 110u8, 116u8,
        101u8, 114u8,
    ]
}

fn sp_tag_bytes() -> (r: Vec<u8>)
    ensures
        r@ == sp_tag(),
{
    let mut v: Vec<u8> = Vec::new();
    v.push(95u8);
    v.push(95u8);
    v.push(115u8);
    v.push(116u8);
    v.push(97u8);
    v.push(99u8);
    v.push(107u8);
    v.push(95u8);
    v.push(112u8);
    v.push(111u8);
    v.push(105u8);
    v.push(110u8);
    v.push(116u8);
    v.push(101u8);
    v.push(114u8);
    proof {
        assert(v@ =~= sp_tag());
    }
    v
}

/// Is the global at position `i` a stack-pointer candidate: the index-zero
/// mutable 32-bit-integer global, or any global explicitly tagged as the
/// stack pointer? (This heuristic is a known ambiguity of the behaviour it
/// describes: in a module without the explicit tag it can pick an
/// unrelated index-zero mutable integer global.)
pub open spec fn is_sp_candidate(g: (ValueType, bool, Seq<u8>), i: int) -> bool {
    (i == 0 && g.1 && g.0 == ValueType::I32) || g.2 == sp_tag()
}

/// The position of the first stack-pointer candidate at or after `i`.
pub open spec fn first_sp_candidate(gs: Seq<(ValueType, bool, Seq<u8>)>, i: int) -> Option<int>
    decreases gs.len() - i,
    when 0 <= i <= gs.len()
{
    if i >= gs.len() {
        None
    } else if is_sp_candidate(gs[i], i) {
        Some(i)
    } else {
        first_sp_candidate(gs, i + 1)
    }
}

/// Resolve the module's stack-pointer global: the first candidate wins,
/// and must be a 32-bit integer.
pub fn find_stack_pointer(m: &walrus::Module) -> (r: Result<walrus::GlobalId, Error>)
    ensures
        ({
            let gs = module_globals(*m);
            match first_sp_candidate(gs, 0) {
                None => r matches Err(e) && e == Error::NoStackPointer,
                Some(i) => if gs[i].0 == ValueType::I32 {
                    r is Ok
                } else {
                    r matches Err(e) && e == Error::InvalidStackPointerType
                },
            }
        }),
{
    let ghost gs = module_globals(*m);
    let tag = sp_tag_bytes();
    let n = global_count(m);
    let mut i: usize = 0;
    while i < n
        invariant
            n == gs.len(),
            gs == module_globals(*m),
            tag@ == sp_tag(),
            0 <= i <= n,
            first_sp_candidate(gs, 0) == first_sp_candidate(gs, i as int),
        decreases n - i,
    {
        let (gid, ty, is_mut, name) = global_at(m, i);
        let tagged = bytes_eq(name.as_slice(), tag.as_slice());
        let candidate = (i == 0 && is_mut && ty == ValueType::I32) || tagged;
        proof {
            assert(gs[i as int] == (ty, is_mut, name@));
        }
        if candidate {
            proof {
                assert(is_sp_candidate(gs[i as int], i as int));
                assert(first_sp_candidate(gs, i as int) == Some(i as int));
            }
            if ty == ValueType::I32 {
                return Ok(gid);
            } else {
                return Err(Error::InvalidStackPointerType);
            }
        }
        proof {
            assert(!is_sp_candidate(gs[i as int], i as int));
            assert(first_sp_candidate(gs, i as int) == first_sp_candidate(gs, i as int + 1));
        }
        i = i + 1;
    }
    Err(Error::NoStackPointer)
}

/// The position of the first export named `name` at or after `i`.
pub open spec fn first_export_named(exs: Seq<(Seq<u8>, Option<int>)>, name: Seq<u8>, i: int) -> Option<
    int,
>
    decreases exs.len() - i,
    when 0 <= i <= exs.len()
{
    if i >= exs.len() {
        None
    } else if exs[i].0 == name {
        Some(i)
    } else {
        first_export_named(exs, name, i + 1)
    }
}

/// What validating one requested function yields; `None` means the request
/// is valid. The first export carrying the name decides: it must be a
/// function, with no declared results, whose parameter at the designated
/// return-pointer position exists and is a 32-bit integer.
pub open spec fn request_error(m: walrus::Module, name: Seq<u8>, rp: int) -> Option<Error> {
    let exs = module_exports(m);
    match first_export_named(exs, name, 0) {
        None => Some(Error::ExportNotFound),
        Some(j) => match exs[j].1 {
            None => Some(Error::ExportNotFound),
            Some(fi) => if module_func_results(m, fi).len() != 0 {
                Some(Error::AlreadyHasResults)
            } else if rp >= module_func_params(m, fi).len() {
                Some(Error::MissingReturnPointer)
            } else if module_func_params(m, fi)[rp] != ValueType::I32 {
                Some(Error::WrongReturnPointerType)
            } else {
                None
            },
        },
    }
}

/// Resolve one requested function by its exported name and validate its
/// signature for conversion.
pub fn find_func(m: &walrus::Module, name: &[u8], rp_index: usize) -> (r: Result<
    walrus::FunctionId,
    Error,
>)
    ensures
        ({
            let exs = module_exports(*m);
            match request_error(*m, name@, rp_index as int) {
                Some(e) => r matches Err(e2) && e2 == e,
                None => r matches Ok(f) && module_has_func(*m, func_index(f)) && Some(
                    func_index(f),
                ) == exs[first_export_named(exs, name@, 0).unwrap()].1,
            }
        }),
{
    let ghost exs = module_exports(*m);
    let n = export_count(m);
    let mut j: usize = 0;
    while j < n
        invariant
            n == exs.len(),
            exs == module_exports(*m),
            0 <= j <= n,
            first_export_named(exs, name@, 0) == first_export_named(exs, name@, j as int),
        decreases n - j,
    {
        let (ename, item) = export_at(m, j);
        if bytes_eq(ename.as_slice(), name) {
            proof {
                assert(exs[j as int].0 == name@);
                assert(first_export_named(exs, name@, j as int) == Some(j as int));
            }
            match item {
                None => {
                    return Err(Error::ExportNotFound);
                },
                Some(f) => {
                    let results = func_results(m, f);
                    if results.len() != 0 {
                        return Err(Error::AlreadyHasResults);
                    }
                    let (_, params) = func_params(m, f);
                    if rp_index >= params.len() {
                        return Err(Error::MissingReturnPointer);
                    }
                    let p = params[rp_index];
                    if p != ValueType::I32 {
                        return Err(Error::WrongReturnPointerType);
                    }
                    return Ok(f);
                },
            }
        }
        proof {
            assert(exs[j as int].0 != name@);
            assert(first_export_named(exs, name@, j as int) == first_export_named(
                exs,
                name@,
                j as int + 1,
            ));
        }
        j = j + 1;
    }
    Err(Error::ExportNotFound)
}

/// The function index a request name resolves to: what the first export
/// carrying the name exports, if it is a function.
pub open spec fn resolved_target(m: walrus::Module, name: Seq<u8>) -> Option<int> {
    match first_export_named(module_exports(m), name, 0) {
        None => None,
        Some(j) => module_exports(m)[j].1,
    }
}

/// Is every type in the list one the public request mapping accepts?
pub open spec fn all_requestable(tys: Seq<ValueType>) -> bool {
    forall|i: int| 0 <= i < tys.len() ==> #[trigger] tys[i].is_requestable()
}

/// The view of a request list: each entry's name bytes and result types.
pub open spec fn req_views(funcs: Seq<(Vec<u8>, Vec<ValueType>)>) -> Seq<(Seq<u8>, Seq<ValueType>)> {
    funcs.map_values(|p: (Vec<u8>, Vec<ValueType>)| (p.0@, p.1@))
}

/// The first problem in the request list at or after position `k`, each
/// entry checked for supported result types and then resolved against the
/// module; `None` when every request is valid.
pub open spec fn requests_error(
    m: walrus::Module,
    reqs: Seq<(Seq<u8>, Seq<ValueType>)>,
    k: int,
) -> Option<Error>
    decreases reqs.len() - k,
    when 0 <= k <= reqs.len()
{
    if k >= reqs.len() {
        None
    } else if !all_requestable(reqs[k].1) {
        Some(Error::UnsupportedType)
    } else {
        match request_error(m, reqs[k].0, 0) {
            Some(e) => Some(e),
            None => requests_error(m, reqs, k + 1),
        }
    }
}

/// Did structural validation of the module succeed: a memory exists and a
/// well-typed stack-pointer global was found?
pub open spec fn structural_ok(m: walrus::Module) -> bool {
    &&& module_has_memory(m)
    &&& match first_sp_candidate(module_globals(m), 0) {
        Some(i) => module_globals(m)[i].0 == ValueType::I32,
        None => false,
    }
}

/// Is the resolved target `t` validly derived from the request
/// `(name, tys)` against module `m`?
pub open spec fn target_valid(
    m: walrus::Module,
    t: TargetFunction,
    name: Seq<u8>,
    tys: Seq<ValueType>,
) -> bool {
    &&& t.rp_index == 0
    &&& t.results@ == tys
    &&& all_requestable(tys)
    &&& module_has_func(m, func_index(t.func))
    &&& module_func_results(m, func_index(t.func)).len() == 0
    &&& module_func_params(m, func_index(t.func)).len() > 0
    &&& module_func_params(m, func_index(t.func))[0] == ValueType::I32
}

/// Validate the whole call: locate the primary memory and the
/// stack-pointer global, resolve and check every requested function, and
/// reject an empty request set. Read-only; on any failure the module is
/// untouched and the error says exactly what was wrong first.
pub fn build_context(m: &walrus::Module, funcs: &Vec<(Vec<u8>, Vec<ValueType>)>) -> (r: Result<
    TransformContext,
    Error,
>)
    ensures
        ({
            let reqs = req_views(funcs@);
            let gs = module_globals(*m);
            &&& (!module_has_memory(*m) ==> (r matches Err(e) && e == Error::NoMemory))
            &&& (module_has_memory(*m) && first_sp_candidate(gs, 0) is None ==> (r matches Err(e)
                && e == Error::NoStackPointer))
            &&& (module_has_memory(*m) ==> (first_sp_candidate(gs, 0) matches Some(i) && gs[i].0
                != ValueType::I32 ==> (r matches Err(e) && e == Error::InvalidStackPointerType)))
            &&& (structural_ok(*m) ==> (requests_error(*m, reqs, 0) matches Some(e) ==> (
            r matches Err(e2) && e2 == e)))
            &&& (structural_ok(*m) && requests_error(*m, reqs, 0) is None && reqs.len() == 0
                ==> (r matches Err(e) && e == Error::NoFunctionsRequested))
            &&& (r is Ok <==> structural_ok(*m) && requests_error(*m, reqs, 0) is None
                && reqs.len() > 0)
            &&& (r matches Ok(ctx) ==> ctx.targets@.len() == reqs.len() && forall|k: int|
                0 <= k < reqs.len() ==> target_valid(
                    *m,
                    #[trigger] ctx.targets@[k],
                    reqs[k].0,
                    reqs[k].1,
                ) && Some(func_index(ctx.targets@[k].func)) == resolved_target(*m, reqs[k].0))
            &&& (r matches Err(e) ==> e != Error::Codec)
        }),
{
    let ghost reqs = req_views(funcs@);
    let memory = match first_memory(m) {
        Some(mem) => mem,
        None => {
            return Err(Error::NoMemory);
        },
    };
    let stack_pointer = match find_stack_pointer(m) {
        Ok(g) => g,
        Err(e) => {
            return Err(e);
        },
    };
    let mut targets: Vec<TargetFunction> = Vec::new();
    let mut k: usize = 0;
    while k < funcs.len()
        invariant
            reqs == req_views(funcs@),
            reqs.len() == funcs@.len(),
            structural_ok(*m),
            0 <= k <= funcs@.len(),
            requests_error(*m, reqs, 0) == requests_error(*m, reqs, k as int),
            targets@.len() == k,
            forall|x: int|
                0 <= x < k ==> target_valid(*m, #[trigger] targets@[x], reqs[x].0, reqs[x].1)
                    && Some(func_index(targets@[x].func)) == resolved_target(*m, reqs[x].0),
        decreases funcs@.len() - k,
    {
        proof {
            assert(reqs[k as int] == (funcs@[k as int].0@, funcs@[k as int].1@));
        }
        let name = &funcs[k].0;
        let tys = &funcs[k].1;
        let mut t: usize = 0;
        while t < tys.len()
            invariant
                reqs == req_views(funcs@),
                reqs.len() == funcs@.len(),
                structural_ok(*m),
                0 <= k < funcs@.len(),
                tys@ == funcs@[k as int].1@,
                reqs[k as int].1 == tys@,
                requests_error(*m, reqs, 0) == requests_error(*m, reqs, k as int),
                0 <= t <= tys@.len(),
                forall|x: int| 0 <= x < t ==> #[trigger] tys@[x].is_requestable(),
            decreases tys@.len() - t,
        {
            let good = match tys[t] {
                ValueType::I32 | ValueType::I64 | ValueType::F32 | ValueType::F64 => true,
                ValueType::V128 | ValueType::Ref => false,
            };
            if !good {
                proof {
                    assert(!tys@[t as int].is_requestable());
                    assert(!all_requestable(reqs[k as int].1));
                    assert(requests_error(*m, reqs, k as int) matches Some(e) && e
                        == Error::UnsupportedType);
                }
                return Err(Error::UnsupportedType);
            }
            t = t + 1;
        }
        proof {
            assert(all_requestable(reqs[k as int].1));
        }
        let func = match find_func(m, name.as_slice(), 0) {
            Ok(f) => f,
            Err(e) => {
                proof {
                    assert(request_error(*m, reqs[k as int].0, 0) == Some(e));
                    assert(requests_error(*m, reqs, k as int) == Some(e));
                }
                return Err(e);
            },
        };
        proof {
            assert(request_error(*m, reqs[k as int].0, 0) is None);
            assert(requests_error(*m, reqs, k as int) == requests_error(*m, reqs, k as int + 1));
        }
        let target = TargetFunction { func, rp_index: 0, results: clone_types(tys) };
        proof {
            assert(target_valid(*m, target, reqs[k as int].0, reqs[k as int].1));
        }
        targets.push(target);
        k = k + 1;
    }
    if targets.len() == 0 {
        return Err(Error::NoFunctionsRequested);
    }
    Ok(TransformContext { memory, stack_pointer, targets })
}

/// A copy of a result-type list.
fn clone_types(tys: &Vec<ValueType>) -> (r: Vec<ValueType>)
    ensures
        r@ == tys@,
{
    let mut v: Vec<ValueType> = Vec::new();
    let mut i: usize = 0;
    while i < tys.len()
        invariant
            0 <= i <= tys@.len(),
            v@ == tys@.take(i as int),
        decreases tys@.len() - i,
    {
        v.push(tys[i]);
        proof {
            assert(v@ =~= tys@.take(i as int + 1));
        }
        i = i + 1;
    }
    proof {
        assert(tys@.take(tys@.len() as int) =~= tys@);
    }
    v
}

} // verus!
