use vstd::prelude::*;

use crate::types::ValueType;

verus! {

// ---------------------------------------------------------------------
// Declarations of the module-graph types this library works through.
// ---------------------------------------------------------------------

#[verifier::external_type_specification]
#[verifier::external_body]
pub struct ExModule(walrus::Module);

#[verifier::external_type_specification]
#[verifier::external_body]
pub struct ExValType(walrus::ValType);

#[verifier::external_type_specification]
#[verifier::external_body]
pub struct ExFunctionBuilder(walrus::FunctionBuilder);

#[verifier::external_type_specification]
#[verifier::external_body]
#[verifier::reject_recursive_types(T)]
pub struct ExId<T>(id_arena::Id<T>);

#[verifier::external_type_specification]
#[verifier::external_body]
pub struct ExFunction(walrus::Function);

#[verifier::external_type_specification]
#[verifier::external_body]
pub struct ExGlobal(walrus::Global);

#[verifier::external_type_specification]
#[verifier::external_body]
pub struct ExMemory(walrus::Memory);

#[verifier::external_type_specification]
#[verifier::external_body]
pub struct ExLocal(walrus::Local);

// ---------------------------------------------------------------------
// The model of a module graph: what this library's contracts speak of.
//
// The clauses below read the graph as walrus maintains it: every handle
// stored in the graph (an export's item, a function's type) refers to a
// live entry of its arena. Decoding establishes that discipline and every
// mutation in this file keeps it; no entry is ever deleted here.
// ---------------------------------------------------------------------

/// Do the bytes decode as a module? Decoding is a function of the bytes
/// alone.
pub uninterp spec fn decodes(wasm: Seq<u8>) -> bool;

/// The module the bytes decode to, where they decode at all: decoding is
/// deterministic, so the module graph is a function of the bytes alone.
pub uninterp spec fn decoded(wasm: Seq<u8>) -> walrus::Module;

/// The bytes a module graph encodes to: encoding is deterministic, a
/// function of the graph alone.
pub uninterp spec fn encoded(m: walrus::Module) -> Seq<u8>;

/// The value-type tag of a module value type: which of this library's
/// tags `from_val_type` maps it to.
pub uninterp spec fn val_type_tag(t: walrus::ValType) -> ValueType;

/// The parameter-type tags of the function a builder is constructing.
pub uninterp spec fn builder_param_tags(b: walrus::FunctionBuilder) -> Seq<ValueType>;

/// The result-type tags of the function a builder is constructing.
pub uninterp spec fn builder_result_tags(b: walrus::FunctionBuilder) -> Seq<ValueType>;

/// The diagnostic name set on the function a builder is constructing.
pub uninterp spec fn builder_name(b: walrus::FunctionBuilder) -> Option<Seq<u8>>;

/// Does the module declare at least one memory?
pub uninterp spec fn module_has_memory(m: walrus::Module) -> bool;

/// The module's globals in declaration order: the value type, whether the
/// global is mutable, and its diagnostic name's bytes (empty if unnamed).
pub uninterp spec fn module_globals(m: walrus::Module) -> Seq<(ValueType, bool, Seq<u8>)>;

/// The module's export table in declaration order: each entry's name bytes
/// and, where the export is a function, that function's arena index.
pub uninterp spec fn module_exports(m: walrus::Module) -> Seq<(Seq<u8>, Option<int>)>;

/// Does the module's function arena hold a function at index `fi`?
pub uninterp spec fn module_has_func(m: walrus::Module, fi: int) -> bool;

/// The parameter types of the function at arena index `fi`.
pub uninterp spec fn module_func_params(m: walrus::Module, fi: int) -> Seq<ValueType>;

/// The declared result types of the function at arena index `fi`.
pub uninterp spec fn module_func_results(m: walrus::Module, fi: int) -> Seq<ValueType>;

/// The diagnostic name bytes of the function at arena index `fi`, if it
/// has one.
pub uninterp spec fn module_func_name(m: walrus::Module, fi: int) -> Option<Seq<u8>>;

/// The suffix that marks a trampoline's diagnostic name.
pub open spec fn wrapper_suffix() -> Seq<u8> {
    seq![95u8, 119u8, 114u8, 97u8, 112u8, 112u8, 101u8, 114u8]
}

/// The arena index a function handle stands for.
pub uninterp spec fn func_index(f: walrus::FunctionId) -> int;

/// The parts of the module model that a graph mutation other than export
/// rebinding leaves untouched: adding locals, types or functions never
/// changes the export table, the globals, the memories, or which of the
/// already-present functions exist with which signatures.
pub open spec fn graph_preserved(a: walrus::Module, b: walrus::Module) -> bool {
    &&& module_exports(b) == module_exports(a)
    &&& module_globals(b) == module_globals(a)
    &&& module_has_memory(b) == module_has_memory(a)
    &&& forall|fi: int|
        #[trigger] module_has_func(a, fi) ==> module_has_func(b, fi)
            && module_func_params(b, fi) == module_func_params(a, fi)
            && module_func_results(b, fi) == module_func_results(a, fi)
            && module_func_name(b, fi) == module_func_name(a, fi)
    &&& forall|fi: int| #[trigger] module_has_func(b, fi) ==> module_has_func(a, fi)
}

// ---------------------------------------------------------------------
// Reading the module graph.
// ---------------------------------------------------------------------

/// Relies on walrus::Module::from_buffer: decodes the bytes as a module,
/// or nothing if they are not a valid module.
#[verifier::external_body]
pub(crate) fn decode_module(wasm: &Vec<u8>) -> (r: Option<walrus::Module>)
    ensures
        r is Some <==> decodes(wasm@),
        r matches Some(m) ==> m == decoded(wasm@),
{
    walrus::Module::from_buffer(wasm).ok()
}

/// Relies on walrus::Module::emit_wasm: re-encodes the whole module graph
/// as bytes.
#[verifier::external_body]
pub(crate) fn emit_module(m: &mut walrus::Module) -> (r: Vec<u8>)
    ensures
        r@ == encoded(*old(m)),
{
    m.emit_wasm()
}

/// Relies on walrus::ModuleMemories::iter and walrus::Memory::id: the
/// handle of the module's first declared memory, if it has one.
#[verifier::external_body]
pub(crate) fn first_memory(m: &walrus::Module) -> (r: Option<walrus::MemoryId>)
    ensures
        r is Some <==> module_has_memory(*m),
{
    m.memories.iter().next().map(|mem| mem.id())
}

/// Relies on walrus::ModuleGlobals::iter: how many globals the module
/// declares.
#[verifier::external_body]
pub(crate) fn global_count(m: &walrus::Module) -> (r: usize)
    ensures
        r == module_globals(*m).len(),
{
    m.globals.iter().count()
}

/// Relies on walrus::ModuleGlobals::iter and the public fields of
/// walrus::Global: the handle, value type, mutability and name bytes of
/// the global at position `i` (declaration order).
#[verifier::external_body]
pub(crate) fn global_at(m: &walrus::Module, i: usize) -> (r: (
    walrus::GlobalId,
    ValueType,
    bool,
    Vec<u8>,
))
    requires
        i < module_globals(*m).len(),
    ensures
        module_globals(*m)[i as int] == (r.1, r.2, r.3@),
{
    let g = m.globals.iter().nth(i).unwrap();
    let name = g.name.as_deref().unwrap_or("").as_bytes().to_vec();
    (g.id(), from_val_type(g.ty), g.mutable, name)
}

/// Relies on the variants of walrus::ValType, mapped one to one onto this
/// library's value-type tags.
#[verifier::external_body]
pub(crate) fn from_val_type(t: walrus::ValType) -> (r: ValueType)
    ensures
        r == val_type_tag(t),
{
    match t {
        walrus::ValType::I32 => ValueType::I32,
        walrus::ValType::I64 => ValueType::I64,
        walrus::ValType::F32 => ValueType::F32,
        walrus::ValType::F64 => ValueType::F64,
        walrus::ValType::V128 => ValueType::V128,
        walrus::ValType::Ref(_) => ValueType::Ref,
    }
}

/// Relies on walrus::ModuleExports::iter: how many exports the module has.
#[verifier::external_body]
pub(crate) fn export_count(m: &walrus::Module) -> (r: usize)
    ensures
        r == module_exports(*m).len(),
{
    m.exports.iter().count()
}

/// Relies on walrus::ModuleExports::iter and the fields of walrus::Export:
/// the name bytes of the export at position `i` and, where it exports a
/// function, that function's handle.
#[verifier::external_body]
pub(crate) fn export_at(m: &walrus::Module, i: usize) -> (r: (Vec<u8>, Option<walrus::FunctionId>))
    requires
        i < module_exports(*m).len(),
    ensures
        module_exports(*m)[i as int].0 == r.0@,
        r.1 is Some <==> module_exports(*m)[i as int].1 is Some,
        r.1 matches Some(f) ==> module_exports(*m)[i as int].1 == Some(func_index(f))
            && module_has_func(*m, func_index(f)),
{
    let e = m.exports.iter().nth(i).unwrap();
    let fid = match e.item {
        walrus::ExportItem::Function(f) => Some(f),
        _ => None,
    };
    (e.name.as_bytes().to_vec(), fid)
}

/// Relies on id_arena::Id::index: the stable arena index behind a function
/// handle.
#[verifier::external_body]
pub(crate) fn func_id_index(f: walrus::FunctionId) -> (r: usize)
    ensures
        r == func_index(f),
{
    f.index()
}

/// Relies on walrus::ModuleFunctions::get, walrus::Function::ty and
/// walrus::ModuleTypes::params_results: the function's parameter types,
/// both as opaque handles for re-use and as this library's tags.
#[verifier::external_body]
pub(crate) fn func_params(m: &walrus::Module, f: walrus::FunctionId) -> (r: (
    Vec<walrus::ValType>,
    Vec<ValueType>,
))
    requires
        module_has_func(*m, func_index(f)),
    ensures
        r.1@ == module_func_params(*m, func_index(f)),
        r.0@.len() == r.1@.len(),
        forall|i: int| 0 <= i < r.0@.len() ==> val_type_tag(#[trigger] r.0@[i]) == r.1@[i],
{
    let (params, _) = m.types.params_results(m.funcs.get(f).ty());
    let raw: Vec<walrus::ValType> = params.to_vec();
    let tags: Vec<ValueType> = params.iter().map(|t| from_val_type(*t)).collect();
    (raw, tags)
}

/// Relies on walrus::ModuleFunctions::get, walrus::Function::ty and
/// walrus::ModuleTypes::params_results: the function's declared result
/// types as this library's tags.
#[verifier::external_body]
pub(crate) fn func_results(m: &walrus::Module, f: walrus::FunctionId) -> (r: Vec<ValueType>)
    requires
        module_has_func(*m, func_index(f)),
    ensures
        r@ == module_func_results(*m, func_index(f)),
{
    let (_, results) = m.types.params_results(m.funcs.get(f).ty());
    results.iter().map(|t| from_val_type(*t)).collect()
}

// ---------------------------------------------------------------------
// Mutating the module graph.
// ---------------------------------------------------------------------

/// Relies on walrus::ModuleLocals::add: a fresh local of the given type.
#[verifier::external_body]
pub(crate) fn add_local(m: &mut walrus::Module, t: walrus::ValType) -> (r: walrus::LocalId)
    ensures
        graph_preserved(*old(m), *final(m)),
{
    m.locals.add(t)
}

/// Relies on walrus::ModuleLocals::add: a fresh 32-bit-integer local, the
/// trampoline's scratch pointer.
#[verifier::external_body]
pub(crate) fn add_local_i32(m: &mut walrus::Module) -> (r: walrus::LocalId)
    ensures
        graph_preserved(*old(m), *final(m)),
{
    m.locals.add(walrus::ValType::I32)
}

/// Relies on the variants of walrus::ValType, mapped one to one from this
/// library's tags. The reference arm is unreachable: every caller excludes
/// reference types first.
#[verifier::external_body]
pub(crate) fn to_val_type(t: ValueType) -> (r: walrus::ValType)
    requires
        t != ValueType::Ref,
    ensures
        val_type_tag(r) == t,
{
    match t {
        ValueType::I32 => walrus::ValType::I32,
        ValueType::I64 => walrus::ValType::I64,
        ValueType::F32 => walrus::ValType::F32,
        ValueType::F64 => walrus::ValType::F64,
        ValueType::V128 => walrus::ValType::V128,
        ValueType::Ref => walrus::ValType::I32,
    }
}

/// Relies on walrus::FunctionBuilder::new: a builder for a new function
/// with the given parameter and result types (it also interns the type in
/// the module's type section).
#[verifier::external_body]
pub(crate) fn new_function_builder(
    m: &mut walrus::Module,
    params: &Vec<walrus::ValType>,
    results: &Vec<walrus::ValType>,
) -> (r: walrus::FunctionBuilder)
    ensures
        graph_preserved(*old(m), *final(m)),
        builder_param_tags(r) == params@.map_values(|t: walrus::ValType| val_type_tag(t)),
        builder_result_tags(r) == results@.map_values(|t: walrus::ValType| val_type_tag(t)),
        builder_name(r) is None,
{
    walrus::FunctionBuilder::new(&mut m.types, params, results)
}

/// Relies on walrus::FunctionBuilder::finish: adds the built function -
/// and nothing else - to the module's function arena, with `args` as its
/// parameter locals and the parameter and result types the builder was
/// made with. The arena allocates a fresh slot, so the new handle's index
/// belongs to no function the module had before.
#[verifier::external_body]
pub(crate) fn finish_function(
    m: &mut walrus::Module,
    b: walrus::FunctionBuilder,
    args: Vec<walrus::LocalId>,
) -> (r: walrus::FunctionId)
    ensures
        module_exports(*final(m)) == module_exports(*old(m)),
        module_globals(*final(m)) == module_globals(*old(m)),
        module_has_memory(*final(m)) == module_has_memory(*old(m)),
        forall|fi: int|
            #[trigger] module_has_func(*old(m), fi) ==> module_has_func(*final(m), fi)
                && module_func_params(*final(m), fi) == module_func_params(*old(m), fi)
                && module_func_results(*final(m), fi) == module_func_results(*old(m), fi)
                && module_func_name(*final(m), fi) == module_func_name(*old(m), fi),
        forall|fi: int|
            #[trigger] module_has_func(*final(m), fi) ==> module_has_func(*old(m), fi) || fi
                == func_index(r),
        module_has_func(*final(m), func_index(r)),
        !module_has_func(*old(m), func_index(r)),
        module_func_params(*final(m), func_index(r)) == builder_param_tags(b),
        module_func_results(*final(m), func_index(r)) == builder_result_tags(b),
        module_func_name(*final(m), func_index(r)) == builder_name(b),
{
    b.finish(args, &mut m.funcs)
}

/// Relies on the name field of walrus::Function: a named wrapped function
/// gives its trampoline the same diagnostic name with the wrapper suffix;
/// an unnamed one yields an unnamed trampoline. Nothing else changes.
#[verifier::external_body]
pub(crate) fn set_wrapper_name(
    m: &mut walrus::Module,
    original: walrus::FunctionId,
    wrapper: walrus::FunctionId,
)
    requires
        module_has_func(*old(m), func_index(original)),
        module_has_func(*old(m), func_index(wrapper)),
        func_index(original) != func_index(wrapper),
    ensures
        module_exports(*final(m)) == module_exports(*old(m)),
        module_globals(*final(m)) == module_globals(*old(m)),
        module_has_memory(*final(m)) == module_has_memory(*old(m)),
        forall|fi: int|
            #[trigger] module_has_func(*old(m), fi) ==> module_has_func(*final(m), fi)
                && module_func_params(*final(m), fi) == module_func_params(*old(m), fi)
                && module_func_results(*final(m), fi) == module_func_results(*old(m), fi),
        forall|fi: int|
            #[trigger] module_has_func(*final(m), fi) ==> module_has_func(*old(m), fi),
        forall|fi: int|
            #[trigger] module_has_func(*old(m), fi) && fi != func_index(wrapper)
                ==> module_func_name(*final(m), fi) == module_func_name(*old(m), fi),
        module_func_name(*final(m), func_index(wrapper)) == (match module_func_name(
            *old(m),
            func_index(original),
        ) {
            Some(n) => Some(n + wrapper_suffix()),
            None => module_func_name(*old(m), func_index(wrapper)),
        }),
{
    if let Some(n) = m.funcs.get(original).name.clone() {
        m.funcs.get_mut(wrapper).name = Some(format!("{}_wrapper", n));
    }
}

/// Relies on walrus::ModuleExports::iter, walrus::Export::id and
/// walrus::ModuleExports::get_mut: repoints the export at position `i`
/// (declaration order) at the function `f`, and changes nothing else.
#[verifier::external_body]
pub(crate) fn set_export_function(m: &mut walrus::Module, i: usize, f: walrus::FunctionId)
    requires
        i < module_exports(*old(m)).len(),
        module_has_func(*old(m), func_index(f)),
    ensures
        module_exports(*final(m)) == module_exports(*old(m)).update(
            i as int,
            (module_exports(*old(m))[i as int].0, Some(func_index(f))),
        ),
        module_globals(*final(m)) == module_globals(*old(m)),
        module_has_memory(*final(m)) == module_has_memory(*old(m)),
        forall|fi: int|
            #[trigger] module_has_func(*old(m), fi) ==> module_has_func(*final(m), fi)
                && module_func_params(*final(m), fi) == module_func_params(*old(m), fi)
                && module_func_results(*final(m), fi) == module_func_results(*old(m), fi)
                && module_func_name(*final(m), fi) == module_func_name(*old(m), fi),
        forall|fi: int|
            #[trigger] module_has_func(*final(m), fi) ==> module_has_func(*old(m), fi),
{
    let id = m.exports.iter().nth(i).unwrap().id();
    m.exports.get_mut(id).item = walrus::ExportItem::Function(f);
}

// ---------------------------------------------------------------------
// Emitting trampoline instructions into a function under construction.
// ---------------------------------------------------------------------

/// Relies on walrus::InstrSeqBuilder::global_get, appended at the end of
/// the function body under construction.
#[verifier::external_body]
pub(crate) fn emit_global_get(b: &mut walrus::FunctionBuilder, g: walrus::GlobalId)
    ensures
        builder_param_tags(*final(b)) == builder_param_tags(*old(b)),
        builder_result_tags(*final(b)) == builder_result_tags(*old(b)),
        builder_name(*final(b)) == builder_name(*old(b)),
{
    b.func_body().global_get(g);
}

/// Relies on walrus::InstrSeqBuilder::global_set, appended at the end of
/// the function body under construction.
#[verifier::external_body]
pub(crate) fn emit_global_set(b: &mut walrus::FunctionBuilder, g: walrus::GlobalId)
    ensures
        builder_param_tags(*final(b)) == builder_param_tags(*old(b)),
        builder_result_tags(*final(b)) == builder_result_tags(*old(b)),
        builder_name(*final(b)) == builder_name(*old(b)),
{
    b.func_body().global_set(g);
}

/// Relies on walrus::InstrSeqBuilder::i32_const, appended at the end of
/// the function body under construction; the bits are kept as they are.
#[verifier::external_body]
pub(crate) fn emit_i32_const(b: &mut walrus::FunctionBuilder, c: u32)
    ensures
        builder_param_tags(*final(b)) == builder_param_tags(*old(b)),
        builder_result_tags(*final(b)) == builder_result_tags(*old(b)),
        builder_name(*final(b)) == builder_name(*old(b)),
{
    b.func_body().i32_const(c as i32);
}

/// Relies on walrus::InstrSeqBuilder::binop with BinaryOp::I32Sub,
/// appended at the end of the function body under construction.
#[verifier::external_body]
pub(crate) fn emit_i32_sub(b: &mut walrus::FunctionBuilder)
    ensures
        builder_param_tags(*final(b)) == builder_param_tags(*old(b)),
        builder_result_tags(*final(b)) == builder_result_tags(*old(b)),
        builder_name(*final(b)) == builder_name(*old(b)),
{
    b.func_body().binop(walrus::ir::BinaryOp::I32Sub);
}

/// Relies on walrus::InstrSeqBuilder::binop with BinaryOp::I32Add,
/// appended at the end of the function body under construction.
#[verifier::external_body]
pub(crate) fn emit_i32_add(b: &mut walrus::FunctionBuilder)
    ensures
        builder_param_tags(*final(b)) == builder_param_tags(*old(b)),
        builder_result_tags(*final(b)) == builder_result_tags(*old(b)),
        builder_name(*final(b)) == builder_name(*old(b)),
{
    b.func_body().binop(walrus::ir::BinaryOp::I32Add);
}

/// Relies on walrus::InstrSeqBuilder::local_tee, appended at the end of
/// the function body under construction.
#[verifier::external_body]
pub(crate) fn emit_local_tee(b: &mut walrus::FunctionBuilder, l: walrus::LocalId)
    ensures
        builder_param_tags(*final(b)) == builder_param_tags(*old(b)),
        builder_result_tags(*final(b)) == builder_result_tags(*old(b)),
        builder_name(*final(b)) == builder_name(*old(b)),
{
    b.func_body().local_tee(l);
}

/// Relies on walrus::InstrSeqBuilder::local_get, appended at the end of
/// the function body under construction.
#[verifier::external_body]
pub(crate) fn emit_local_get(b: &mut walrus::FunctionBuilder, l: walrus::LocalId)
    ensures
        builder_param_tags(*final(b)) == builder_param_tags(*old(b)),
        builder_result_tags(*final(b)) == builder_result_tags(*old(b)),
        builder_name(*final(b)) == builder_name(*old(b)),
{
    b.func_body().local_get(l);
}

/// Relies on walrus::InstrSeqBuilder::call, appended at the end of the
/// function body under construction.
#[verifier::external_body]
pub(crate) fn emit_call(b: &mut walrus::FunctionBuilder, f: walrus::FunctionId)
    ensures
        builder_param_tags(*final(b)) == builder_param_tags(*old(b)),
        builder_result_tags(*final(b)) == builder_result_tags(*old(b)),
        builder_name(*final(b)) == builder_name(*old(b)),
{
    b.func_body().call(f);
}

/// Relies on walrus::InstrSeqBuilder::load with LoadKind::I32, alignment
/// 4, at the given static offset.
#[verifier::external_body]
pub(crate) fn emit_load_i32(b: &mut walrus::FunctionBuilder, mem: walrus::MemoryId, off: u32)
    ensures
        builder_param_tags(*final(b)) == builder_param_tags(*old(b)),
        builder_result_tags(*final(b)) == builder_result_tags(*old(b)),
        builder_name(*final(b)) == builder_name(*old(b)),
{
    b.func_body().load(
        mem,
        walrus::ir::LoadKind::I32 { atomic: false },
        walrus::ir::MemArg { align: 4, offset: off as u64 },
    );
}

/// Relies on walrus::InstrSeqBuilder::load with LoadKind::I64, alignment
/// 8, at the given static offset.
#[verifier::external_body]
pub(crate) fn emit_load_i64(b: &mut walrus::FunctionBuilder, mem: walrus::MemoryId, off: u32)
    ensures
        builder_param_tags(*final(b)) == builder_param_tags(*old(b)),
        builder_result_tags(*final(b)) == builder_result_tags(*old(b)),
        builder_name(*final(b)) == builder_name(*old(b)),
{
    b.func_body().load(
        mem,
        walrus::ir::LoadKind::I64 { atomic: false },
        walrus::ir::MemArg { align: 8, offset: off as u64 },
    );
}

/// Relies on walrus::InstrSeqBuilder::load with LoadKind::F32, alignment
/// 4, at the given static offset.
#[verifier::external_body]
pub(crate) fn emit_load_f32(b: &mut walrus::FunctionBuilder, mem: walrus::MemoryId, off: u32)
    ensures
        builder_param_tags(*final(b)) == builder_param_tags(*old(b)),
        builder_result_tags(*final(b)) == builder_result_tags(*old(b)),
        builder_name(*final(b)) == builder_name(*old(b)),
{
    b.func_body().load(
        mem,
        walrus::ir::LoadKind::F32,
        walrus::ir::MemArg { align: 4, offset: off as u64 },
    );
}

/// Relies on walrus::InstrSeqBuilder::load with LoadKind::F64, alignment
/// 8, at the given static offset.
#[verifier::external_body]
pub(crate) fn emit_load_f64(b: &mut walrus::FunctionBuilder, mem: walrus::MemoryId, off: u32)
    ensures
        builder_param_tags(*final(b)) == builder_param_tags(*old(b)),
        builder_result_tags(*final(b)) == builder_result_tags(*old(b)),
        builder_name(*final(b)) == builder_name(*old(b)),
{
    b.func_body().load(
        mem,
        walrus::ir::LoadKind::F64,
        walrus::ir::MemArg { align: 8, offset: off as u64 },
    );
}

/// Relies on walrus::InstrSeqBuilder::load with LoadKind::V128, alignment
/// 16, at the given static offset.
#[verifier::external_body]
pub(crate) fn emit_load_v128(b: &mut walrus::FunctionBuilder, mem: walrus::MemoryId, off: u32)
    ensures
        builder_param_tags(*final(b)) == builder_param_tags(*old(b)),
        builder_result_tags(*final(b)) == builder_result_tags(*old(b)),
        builder_name(*final(b)) == builder_name(*old(b)),
{
    b.func_body().load(
        mem,
        walrus::ir::LoadKind::V128,
        walrus::ir::MemArg { align: 16, offset: off as u64 },
    );
}

} // verus!
