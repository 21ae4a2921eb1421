use vstd::prelude::*;
use crate::model::{
    opt_string_view, ExportEntry, ExportTarget, ExportView, FunctionDescriptor, FunctionView, ModelView, ModuleModel,
    ValueType, MAX_FUNCTIONS,
};
use crate::rewrite::{
    export_is_wrapped, hook_view, instrument_model, is_instrumentation_of, kept_exports, lemma_no_function_exports,
    lemma_only_named_functions_wrapped,
    shim_export, shim_view, target_of, wrapped_exports, wrapped_pred, Instrumented,
};
use crate::runtime::{names_of, FunctionNameIndex};
use crate::shim::{lemma_shim_operands, operands_in_range, shim_template, Instr};

verus! {

#[verifier::external_type_specification]
#[verifier::external_body]
pub struct ExModule(walrus::Module);

#[verifier::external_type_specification]
pub struct ExValType(walrus::ValType);

#[verifier::external_type_specification]
#[verifier::external_body]
pub struct ExExport(walrus::Export);

#[verifier::external_type_specification]
#[verifier::external_body]
pub struct ExFunctionBuilder(walrus::FunctionBuilder);

#[verifier::external_type_specification]
#[verifier::external_body]
pub struct ExFunction(walrus::Function);

#[verifier::external_type_specification]
#[verifier::external_body]
pub struct ExLocal(walrus::Local);

#[verifier::external_type_specification]
#[verifier::external_body]
pub struct ExType(walrus::Type);

#[verifier::external_type_specification]
#[verifier::external_body]
#[verifier::reject_recursive_types(T)]
pub struct ExId<T>(id_arena::Id<T>);

#[verifier::external_type_specification]
#[verifier::external_body]
pub struct ExAnyhowError(anyhow::Error);

/// Does walrus, with its default configuration, accept these bytes as a module?
pub uninterp spec fn walrus_accepts(b: Seq<u8>) -> bool;

/// An export of a module: the arena index of the export, its name, and the
/// arena index of the function it exports, if it exports one.
pub type ExportItemView = (nat, Seq<char>, Option<nat>);

/// The functions of a module, in function-table order; the `id` of each is
/// the arena index of its handle.
pub uninterp spec fn module_functions(m: walrus::Module) -> Seq<FunctionView>;

/// The exports of a module, in export-table order.
pub uninterp spec fn module_exports(m: walrus::Module) -> Seq<ExportItemView>;

/// What walrus parses from these bytes: the functions and the exports.
pub uninterp spec fn parsed_contents(b: Seq<u8>) -> (Seq<FunctionView>, Seq<ExportItemView>, Seq<ImportItemView>);

/// An import of a module: its namespace, its name and, when it imports a
/// function, that function's arena index.
pub type ImportItemView = (Seq<char>, Seq<char>, Option<nat>);

/// The imports of a module, in import-table order.
pub uninterp spec fn module_imports(m: walrus::Module) -> Seq<ImportItemView>;

/// The arena index of a function handle.
pub uninterp spec fn function_index_of(f: walrus::FunctionId) -> nat;

/// The arena index of an export handle.
pub uninterp spec fn export_index_of(e: walrus::ExportId) -> nat;

/// `f` is a handle of `m`'s function arena.
pub uninterp spec fn owns_function(m: walrus::Module, f: walrus::FunctionId) -> bool;

/// `t` is a handle of `m`'s type arena.
pub uninterp spec fn owns_type(m: walrus::Module, t: walrus::TypeId) -> bool;

/// `l` is a handle of `m`'s local arena.
pub uninterp spec fn owns_local(m: walrus::Module, l: walrus::LocalId) -> bool;

/// `e` is a handle of `m`'s export arena.
pub uninterp spec fn owns_export(m: walrus::Module, e: walrus::ExportId) -> bool;

/// Every handle that `m` holds (export targets, function types, operands of
/// function bodies) is a handle of `m`.
pub uninterp spec fn coherent(m: walrus::Module) -> bool;

/// Every handle that `b` holds (its type, the operands of its body) is a
/// handle of `m`.
pub uninterp spec fn builder_in(b: walrus::FunctionBuilder, m: walrus::Module) -> bool;

/// Every handle of `a`, and every builder whose handles are `a`'s, stays so
/// in `b`: arenas only grow.
pub open spec fn grows(a: walrus::Module, b: walrus::Module) -> bool {
    &&& forall|f: walrus::FunctionId| owns_function(a, f) ==> #[trigger] owns_function(b, f)
    &&& forall|t: walrus::TypeId| owns_type(a, t) ==> #[trigger] owns_type(b, t)
    &&& forall|l: walrus::LocalId| owns_local(a, l) ==> #[trigger] owns_local(b, l)
    &&& forall|e: walrus::ExportId| owns_export(a, e) ==> #[trigger] owns_export(b, e)
    &&& forall|x: walrus::FunctionBuilder| builder_in(x, a) ==> #[trigger] builder_in(x, b)
}


/// `l` lists the functions of `m`, in order: handle, name and signature.
pub open spec fn lists_functions(
    m: walrus::Module,
    l: Seq<(walrus::FunctionId, Option<String>, Vec<walrus::ValType>, Vec<walrus::ValType>)>,
) -> bool {
    &&& l.len() == module_functions(m).len()
    &&& forall|i: int|
        0 <= i < l.len() ==> {
            let f = #[trigger] module_functions(m)[i];
            &&& function_index_of(l[i].0) == f.id
            &&& opt_string_view(l[i].1) == f.name
            &&& value_types_of(l[i].2@) == f.params
            &&& value_types_of(l[i].3@) == f.results
        }
}

/// `l` lists the exports of `m`, in order: handle, name and the arena index
/// of the exported function; export handles are distinct.
pub open spec fn lists_exports(m: walrus::Module, l: Seq<(walrus::ExportId, String, Option<usize>)>) -> bool {
    &&& l.len() == module_exports(m).len()
    &&& forall|j: int|
        0 <= j < l.len() ==> {
            let e = #[trigger] module_exports(m)[j];
            &&& export_index_of(l[j].0) == e.0
            &&& l[j].1@ == e.1
            &&& e.2 == match l[j].2 {
                Some(p) => Some(p as nat),
                None => None::<nat>,
            }
        }
    &&& forall|i: int, j: int|
        0 <= i < j < l.len() ==> (#[trigger] module_exports(m)[i]).0 != (#[trigger] module_exports(m)[j]).0
}

/// Relies on `walrus::ModuleConfig::parse` with the default configuration;
/// whether it succeeds, and what it reads, depends on the bytes alone. It
/// validates the module, which refuses two exports of one name.
#[verifier::external_body]
fn parse_module(wasm: &[u8]) -> (r: Result<walrus::Module, anyhow::Error>)
    ensures
        r is Ok <==> walrus_accepts(wasm@),
        r matches Ok(m) ==> (module_functions(m), module_exports(m), module_imports(m)) == parsed_contents(wasm@),
        r matches Ok(m) ==> forall|i: int, j: int|
            0 <= i < j < module_exports(m).len() ==> (#[trigger] module_exports(m)[i]).1 != (#[trigger] module_exports(m)[j]).1,
        r matches Ok(m) ==> coherent(m),
{
    walrus::ModuleConfig::new().parse(wasm)
}

/// Relies on `walrus::ModuleFunctions::iter` and
/// `walrus::ModuleTypes::params_results`: for every function, in
/// function-table order, its handle, its name-section name, and its
/// parameter and result types.
#[verifier::external_body]
fn function_list(m: &walrus::Module) -> (r: Vec<(walrus::FunctionId, Option<String>, Vec<walrus::ValType>, Vec<walrus::ValType>)>)
    requires
        coherent(*m),
    ensures
        lists_functions(*m, r@),
        forall|i: int| 0 <= i < r@.len() ==> owns_function(*m, #[trigger] r@[i].0),
{
    m.funcs.iter().map(|f| {
        let (params, results) = m.types.params_results(f.ty());
        (f.id(), f.name.clone(), params.to_vec(), results.to_vec())
    }).collect()
}

/// Relies on `walrus::ModuleExports::iter`: each export's handle, its name
/// and, when it exports a function, that function's arena index. Export
/// handles of one module are distinct.
#[verifier::external_body]
fn export_list(m: &walrus::Module) -> (r: Vec<(walrus::ExportId, String, Option<usize>)>)
    ensures
        lists_exports(*m, r@),
        forall|j: int| 0 <= j < r@.len() ==> owns_export(*m, #[trigger] r@[j].0),
{
    m.exports.iter().map(|e| (e.id(), e.name.clone(), match e.item {
        walrus::ExportItem::Function(f) => Some(f.index()),
        _ => None,
    })).collect()
}

/// The library's value type for a walrus value type.
pub open spec fn value_type_of(t: walrus::ValType) -> ValueType {
    match t {
        walrus::ValType::I32 => ValueType::I32,
        walrus::ValType::I64 => ValueType::I64,
        walrus::ValType::F32 => ValueType::F32,
        walrus::ValType::F64 => ValueType::F64,
        walrus::ValType::V128 => ValueType::V128,
        walrus::ValType::Externref => ValueType::Externref,
        walrus::ValType::Funcref => ValueType::Funcref,
    }
}

fn value_type(t: walrus::ValType) -> (r: ValueType)
    ensures
        r == value_type_of(t),
{
    match t {
        walrus::ValType::I32 => ValueType::I32,
        walrus::ValType::I64 => ValueType::I64,
        walrus::ValType::F32 => ValueType::F32,
        walrus::ValType::F64 => ValueType::F64,
        walrus::ValType::V128 => ValueType::V128,
        walrus::ValType::Externref => ValueType::Externref,
        walrus::ValType::Funcref => ValueType::Funcref,
    }
}

fn walrus_type(t: ValueType) -> (r: walrus::ValType)
    ensures
        value_type_of(r) == t,
{
    match t {
        ValueType::I32 => walrus::ValType::I32,
        ValueType::I64 => walrus::ValType::I64,
        ValueType::F32 => walrus::ValType::F32,
        ValueType::F64 => walrus::ValType::F64,
        ValueType::V128 => walrus::ValType::V128,
        ValueType::Externref => walrus::ValType::Externref,
        ValueType::Funcref => walrus::ValType::Funcref,
    }
}

/// The parameter and result types of type `t` of module `m`.
pub uninterp spec fn type_signature(m: walrus::Module, t: walrus::TypeId) -> (Seq<ValueType>, Seq<ValueType>);

/// The signature of the function a builder builds.
pub uninterp spec fn builder_signature(b: walrus::FunctionBuilder) -> (Seq<ValueType>, Seq<ValueType>);

/// One instruction of a function body, with function and local operands
/// given by their arena indices; `Other` stands for an instruction of any
/// other kind.
pub enum BodyOp {
    Const(i32),
    Call(nat),
    GetLocal(nat),
    SetLocal(nat),
    Other,
}

/// The arena index of a local handle.
pub uninterp spec fn local_index_of(l: walrus::LocalId) -> nat;

/// The arena indices of a module's locals.
pub uninterp spec fn module_locals(m: walrus::Module) -> Set<nat>;

/// The instructions a builder has received so far.
pub uninterp spec fn builder_body(b: walrus::FunctionBuilder) -> Seq<BodyOp>;

/// The body of the function with arena index `f`.
pub uninterp spec fn function_body_at(m: walrus::Module, f: nat) -> Seq<BodyOp>;

/// The parameter locals of the function with arena index `f`.
pub uninterp spec fn function_args_at(m: walrus::Module, f: nat) -> Seq<nat>;

/// Bodies and parameter locals of functions are the same in both modules.
pub open spec fn same_bodies(a: walrus::Module, b: walrus::Module) -> bool {
    forall|f: nat| #[trigger] function_body_at(a, f) == function_body_at(b, f) && function_args_at(a, f) == function_args_at(b, f)
}

/// Bodies and parameter locals are the same in both modules, but for function `g`.
pub open spec fn same_bodies_but(a: walrus::Module, b: walrus::Module, g: nat) -> bool {
    forall|f: nat| f != g ==> #[trigger] function_body_at(a, f) == function_body_at(b, f) && function_args_at(a, f) == function_args_at(b, f)
}

/// `f` is the arena index of none of the functions of `m`.
pub open spec fn fresh_function(m: walrus::Module, f: nat) -> bool {
    forall|i: int| 0 <= i < module_functions(m).len() ==> (#[trigger] module_functions(m)[i]).id != f
}

/// The binary encoding walrus emits for a module.
pub uninterp spec fn emitted_of(m: walrus::Module) -> Seq<u8>;

/// The exports of a module, as a set.
pub open spec fn export_entries(m: walrus::Module) -> Set<ExportItemView> {
    module_exports(m).to_set()
}

/// Same functions and same exports.
pub open spec fn same_tables(a: walrus::Module, b: walrus::Module) -> bool {
    module_functions(a) == module_functions(b) && module_exports(a) == module_exports(b) && module_imports(a) == module_imports(b)
}

pub open spec fn value_types_of(v: Seq<walrus::ValType>) -> Seq<ValueType> {
    v.map_values(|t: walrus::ValType| value_type_of(t))
}

/// Relies on `walrus::ModuleTypes::add`: the function type with these
/// parameter and result types; functions and exports are untouched.
#[verifier::external_body]
fn add_type(m: &mut walrus::Module, params: &Vec<walrus::ValType>, results: &Vec<walrus::ValType>) -> (r: walrus::TypeId)
    ensures
        type_signature(*final(m), r) == (value_types_of(params@), value_types_of(results@)),
        owns_type(*final(m), r),
        grows(*old(m), *final(m)),
        coherent(*old(m)) ==> coherent(*final(m)),
        same_tables(*final(m), *old(m)),
        same_bodies(*final(m), *old(m)),
{
    m.types.add(params, results)
}

/// Relies on `walrus::Module::add_import_func`: imports `name` from
/// `namespace` as a new function of type `ty`, without a name, under a new
/// handle appended to the function table; types and exports are untouched.
#[verifier::external_body]
fn add_import_func(m: &mut walrus::Module, namespace: &str, name: &str, ty: walrus::TypeId) -> (r: walrus::FunctionId)
    requires
        owns_type(*old(m), ty),
    ensures
        module_imports(*final(m)) == module_imports(*old(m)).push((namespace@, name@, Some(function_index_of(r)))),
        owns_function(*final(m), r),
        grows(*old(m), *final(m)),
        coherent(*old(m)) ==> coherent(*final(m)),
        module_functions(*final(m)) == module_functions(*old(m)).push(
            FunctionView {
                id: function_index_of(r),
                name: None,
                params: type_signature(*old(m), ty).0,
                results: type_signature(*old(m), ty).1,
            },
        ),
        module_exports(*final(m)) == module_exports(*old(m)),
        type_signature(*final(m), ty) == type_signature(*old(m), ty),
        fresh_function(*old(m), function_index_of(r)),
        same_bodies_but(*final(m), *old(m), function_index_of(r)),
{
    m.add_import_func(namespace, name, ty).0
}

/// The arena indices of a module's live exports.
pub open spec fn export_indices(m: walrus::Module) -> Set<nat> {
    module_exports(m).map_values(|e: ExportItemView| e.0).to_set()
}

/// Relies on `walrus::ModuleExports::delete`: removes the export `e`,
/// which must be live (it asserts so), and touches nothing else.
#[verifier::external_body]
fn delete_export(m: &mut walrus::Module, e: walrus::ExportId)
    requires
        owns_export(*old(m), e),
        export_indices(*old(m)).contains(export_index_of(e)),
    ensures
        module_imports(*final(m)) == module_imports(*old(m)),
        grows(*old(m), *final(m)),
        coherent(*old(m)) ==> coherent(*final(m)),
        export_indices(*final(m)) == export_indices(*old(m)).remove(export_index_of(e)),
        export_entries(*final(m)) == export_entries(*old(m)).filter(|x: ExportItemView| x.0 != export_index_of(e)),
        module_functions(*final(m)) == module_functions(*old(m)),
        same_bodies(*final(m), *old(m)),
{
    m.exports.delete(e);
}

/// Relies on `id_arena::Id::index`: the arena index of a function handle.
#[verifier::external_body]
fn function_index(f: walrus::FunctionId) -> (r: usize)
    ensures
        r == function_index_of(f),
{
    f.index()
}

/// Relies on `walrus::ModuleExports::add`: exports function `f` as `name`;
/// functions are untouched.
#[verifier::external_body]
fn add_export(m: &mut walrus::Module, name: &str, f: walrus::FunctionId) -> (r: walrus::ExportId)
    requires
        owns_function(*old(m), f),
    ensures
        module_imports(*final(m)) == module_imports(*old(m)),
        owns_export(*final(m), r),
        grows(*old(m), *final(m)),
        coherent(*old(m)) ==> coherent(*final(m)),
        export_entries(*final(m)) == export_entries(*old(m)).insert(
            (export_index_of(r), name@, Some(function_index_of(f))),
        ),
        module_functions(*final(m)) == module_functions(*old(m)),
        same_bodies(*final(m), *old(m)),
{
    m.exports.add(name, f)
}

/// Relies on `walrus::ModuleLocals::add`: a fresh local of type `t`;
/// functions and exports are untouched.
#[verifier::external_body]
fn add_local(m: &mut walrus::Module, t: walrus::ValType) -> (r: walrus::LocalId)
    ensures
        owns_local(*final(m), r),
        grows(*old(m), *final(m)),
        coherent(*old(m)) ==> coherent(*final(m)),
        same_tables(*final(m), *old(m)),
        same_bodies(*final(m), *old(m)),
        !module_locals(*old(m)).contains(local_index_of(r)),
        module_locals(*final(m)) == module_locals(*old(m)).insert(local_index_of(r)),
{
    m.locals.add(t)
}

/// Relies on `walrus::FunctionBuilder::new`: an empty function of the
/// given signature (it only adds types to the module).
#[verifier::external_body]
fn new_builder(m: &mut walrus::Module, params: &Vec<walrus::ValType>, results: &Vec<walrus::ValType>) -> (r: walrus::FunctionBuilder)
    ensures
        builder_signature(r) == (value_types_of(params@), value_types_of(results@)),
        builder_body(r) == Seq::<BodyOp>::empty(),
        builder_in(r, *final(m)),
        grows(*old(m), *final(m)),
        coherent(*old(m)) ==> coherent(*final(m)),
        same_tables(*final(m), *old(m)),
        same_bodies(*final(m), *old(m)),
        module_locals(*final(m)) == module_locals(*old(m)),
{
    walrus::FunctionBuilder::new(&mut m.types, params, results)
}

/// Relies on `walrus::InstrSeqBuilder::i32_const`, on the function body.
#[verifier::external_body]
fn emit_i32_const(b: &mut walrus::FunctionBuilder, v: i32)
    ensures
        forall|m: walrus::Module| builder_in(*old(b), m) ==> #[trigger] builder_in(*final(b), m),
        builder_signature(*final(b)) == builder_signature(*old(b)),
        builder_body(*final(b)) == builder_body(*old(b)).push(BodyOp::Const(v)),
{
    b.func_body().i32_const(v);
}

/// Relies on `walrus::InstrSeqBuilder::call`, on the function body.
#[verifier::external_body]
fn emit_call(b: &mut walrus::FunctionBuilder, f: walrus::FunctionId)
    ensures
        forall|m: walrus::Module| builder_in(*old(b), m) && owns_function(m, f) ==> #[trigger] builder_in(*final(b), m),
        builder_signature(*final(b)) == builder_signature(*old(b)),
        builder_body(*final(b)) == builder_body(*old(b)).push(BodyOp::Call(function_index_of(f))),
{
    b.func_body().call(f);
}

/// Relies on `walrus::InstrSeqBuilder::local_get`, on the function body.
#[verifier::external_body]
fn emit_local_get(b: &mut walrus::FunctionBuilder, l: walrus::LocalId)
    ensures
        forall|m: walrus::Module| builder_in(*old(b), m) && owns_local(m, l) ==> #[trigger] builder_in(*final(b), m),
        builder_signature(*final(b)) == builder_signature(*old(b)),
        builder_body(*final(b)) == builder_body(*old(b)).push(BodyOp::GetLocal(local_index_of(l))),
{
    b.func_body().local_get(l);
}

/// Relies on `walrus::InstrSeqBuilder::local_set`, on the function body.
#[verifier::external_body]
fn emit_local_set(b: &mut walrus::FunctionBuilder, l: walrus::LocalId)
    ensures
        forall|m: walrus::Module| builder_in(*old(b), m) && owns_local(m, l) ==> #[trigger] builder_in(*final(b), m),
        builder_signature(*final(b)) == builder_signature(*old(b)),
        builder_body(*final(b)) == builder_body(*old(b)).push(BodyOp::SetLocal(local_index_of(l))),
{
    b.func_body().local_set(l);
}

/// Relies on `walrus::FunctionBuilder::finish`: adds the function, with
/// the builder's body, `args` as its parameters and no name, under a new
/// handle, to the end of the function table; exports are untouched.
#[verifier::external_body]
fn finish_function(b: walrus::FunctionBuilder, args: Vec<walrus::LocalId>, m: &mut walrus::Module) -> (r: walrus::FunctionId)
    requires
        builder_in(b, *old(m)),
        forall|i: int| 0 <= i < args@.len() ==> owns_local(*old(m), #[trigger] args@[i]),
    ensures
        module_imports(*final(m)) == module_imports(*old(m)),
        owns_function(*final(m), r),
        grows(*old(m), *final(m)),
        coherent(*old(m)) ==> coherent(*final(m)),
        module_functions(*final(m)) == module_functions(*old(m)).push(
            FunctionView { id: function_index_of(r), name: None, params: builder_signature(b).0, results: builder_signature(b).1 },
        ),
        module_exports(*final(m)) == module_exports(*old(m)),
        fresh_function(*old(m), function_index_of(r)),
        function_body_at(*final(m), function_index_of(r)) == builder_body(b),
        function_args_at(*final(m), function_index_of(r)) == args@.map_values(|l: walrus::LocalId| local_index_of(l)),
        same_bodies_but(*final(m), *old(m), function_index_of(r)),
{
    b.finish(args, &mut m.funcs)
}

/// Relies on `walrus::Module::emit_wasm`: the module as binary.
#[verifier::external_body]
fn emit_module(m: &mut walrus::Module) -> (r: Vec<u8>)
    requires
        coherent(*old(m)),
    ensures
        r@ == emitted_of(*old(m)),
{
    m.emit_wasm()
}

/// Why a module could not be instrumented.
#[derive(Clone, Copy, Debug, PartialEq, Eq, Structural)]
pub enum InstrumentError {
    /// The bytes are not a module walrus can parse, or its structure is out
    /// of the model's bounds.
    Malformed,
}

/// A module after instrumentation: its bytes, the model of the source, and
/// the instrumentation that was applied to it.
pub struct Instrumentation {
    pub wasm: Vec<u8>,
    pub source: ModuleModel,
    pub result: Instrumented,
    /// The walrus module that `wasm` was emitted from.
    pub module: Ghost<walrus::Module>,
    /// The walrus module parsed from the source bytes.
    pub parsed: Ghost<walrus::Module>,
}

pub type FunctionEntry = (walrus::FunctionId, Option<String>, Vec<walrus::ValType>, Vec<walrus::ValType>);

pub type ExportEntryRaw = (walrus::ExportId, String, Option<usize>);

/// The model entry of an export.
pub open spec fn export_view_of(e: ExportItemView) -> ExportView {
    ExportView {
        name: e.1,
        target: match e.2 {
            Some(p) => ExportTarget::Function(p as u32),
            None => ExportTarget::Other,
        },
    }
}

/// The model of a module with these functions and exports.
pub open spec fn contents_model(fns: Seq<FunctionView>, exps: Seq<ExportItemView>) -> ModelView {
    ModelView { functions: fns, exports: exps.map_values(|e: ExportItemView| export_view_of(e)) }
}

/// Do these contents fit the model: ids are positions, every function
/// export names a function, sizes are within bounds?
pub open spec fn contents_fit(fns: Seq<FunctionView>, exps: Seq<ExportItemView>) -> bool {
    &&& contents_model(fns, exps).well_formed()
    &&& forall|j: int| 0 <= j < exps.len() ==> ((#[trigger] exps[j]).2 matches Some(p) ==> p <= u32::MAX)
}

/// The model of the module these bytes hold.
pub open spec fn parsed_model(b: Seq<u8>) -> ModelView {
    contents_model(parsed_contents(b).0, parsed_contents(b).1)
}

/// Do these bytes hold a module that walrus parses and that fits the model?
pub open spec fn readable(b: Seq<u8>) -> bool {
    walrus_accepts(b) && contents_fit(parsed_contents(b).0, parsed_contents(b).1)
}

fn value_types(v: &Vec<walrus::ValType>) -> (r: Vec<ValueType>)
    ensures
        r@ == value_types_of(v@),
{
    let mut r: Vec<ValueType> = Vec::new();
    let mut i: usize = 0;
    while i < v.len()
        invariant
            i <= v.len(),
            r@.len() == i,
            forall|k: int| 0 <= k < i ==> r@[k] == value_type_of(#[trigger] v@[k]),
        decreases v.len() - i,
    {
        r.push(value_type(v[i]));
        i = i + 1;
    }
    assert(r@ =~= value_types_of(v@));
    r
}

fn walrus_types(v: &Vec<ValueType>) -> (r: Vec<walrus::ValType>)
    ensures
        value_types_of(r@) == v@,
{
    let mut r: Vec<walrus::ValType> = Vec::new();
    let mut i: usize = 0;
    while i < v.len()
        invariant
            i <= v.len(),
            r@.len() == i,
            forall|k: int| 0 <= k < i ==> value_type_of(#[trigger] r@[k]) == v@[k],
        decreases v.len() - i,
    {
        r.push(walrus_type(v[i]));
        i = i + 1;
    }
    assert(value_types_of(r@) =~= v@);
    r
}

/// The model of a parsed module, with its function and export lists, or
/// `None` when the module does not fit the model.
fn read_model(m: &walrus::Module) -> (r: (Option<ModuleModel>, Vec<FunctionEntry>, Vec<ExportEntryRaw>))
    requires
        coherent(*m),
    ensures
        forall|i: int| 0 <= i < r.1@.len() ==> owns_function(*m, #[trigger] r.1@[i].0),
        forall|j: int| 0 <= j < r.2@.len() ==> owns_export(*m, #[trigger] r.2@[j].0),
        r.0 is Some <==> contents_fit(module_functions(*m), module_exports(*m)),
        r.0 matches Some(mm) ==> mm@ == contents_model(module_functions(*m), module_exports(*m)),
        lists_functions(*m, r.1@),
        lists_exports(*m, r.2@),
{
    let ghost mf = module_functions(*m);
    let ghost me = module_exports(*m);
    let fns = function_list(m);
    let exps = export_list(m);
    let n = fns.len();
    if n > MAX_FUNCTIONS as usize {
        assert(!contents_model(mf, me).well_formed());
        return (None, fns, exps);
    }
    let mut functions: Vec<FunctionDescriptor> = Vec::new();
    let mut i: usize = 0;
    while i < n
        invariant
            i <= n,
            n == fns@.len(),
            n == mf.len(),
            n <= MAX_FUNCTIONS,
            functions@.len() == i,
            forall|k: int| 0 <= k < i ==> (#[trigger] functions@[k])@ == mf[k],
            forall|k: int| 0 <= k < i ==> mf[k].id == k,
            mf == module_functions(*m),
            me == module_exports(*m),
            lists_functions(*m, fns@),
            lists_exports(*m, exps@),
            forall|x: int| 0 <= x < fns@.len() ==> owns_function(*m, #[trigger] fns@[x].0),
            forall|x: int| 0 <= x < exps@.len() ==> owns_export(*m, #[trigger] exps@[x].0),
        decreases n - i,
    {
        let (handle, name, params, results) = &fns[i];
        if function_index(*handle) != i {
            assert(mf[i as int].id != i);
            assert(!contents_model(mf, me).well_formed());
            return (None, fns, exps);
        }
        let name = match name {
            Some(s) => Some(s.clone()),
            None => None,
        };
        let fd = FunctionDescriptor { id: i as u32, name, params: value_types(params), results: value_types(results) };
        assert(fd@ == mf[i as int]);
        functions.push(fd);
        i = i + 1;
    }
    let mut exports: Vec<ExportEntry> = Vec::new();
    let mut j: usize = 0;
    while j < exps.len()
        invariant
            j <= exps@.len(),
            exps@.len() == me.len(),
            exports@.len() == j,
            forall|k: int| 0 <= k < j ==> (#[trigger] exports@[k])@ == export_view_of(me[k]),
            forall|k: int| 0 <= k < j ==> ((#[trigger] me[k]).2 matches Some(p) ==> p <= u32::MAX),
            mf == module_functions(*m),
            me == module_exports(*m),
            n == mf.len(),
            functions@.len() == n,
            forall|k: int| 0 <= k < n ==> (#[trigger] functions@[k])@ == mf[k],
            lists_functions(*m, fns@),
            lists_exports(*m, exps@),
            forall|x: int| 0 <= x < fns@.len() ==> owns_function(*m, #[trigger] fns@[x].0),
            forall|x: int| 0 <= x < exps@.len() ==> owns_export(*m, #[trigger] exps@[x].0),
        decreases exps@.len() - j,
    {
        let target = match exps[j].2 {
            Some(pos) => {
                if pos > u32::MAX as usize {
                    assert(me[j as int].2 == Some(pos as nat));
                    return (None, fns, exps);
                }
                ExportTarget::Function(pos as u32)
            },
            None => ExportTarget::Other,
        };
        let entry = ExportEntry { name: exps[j].1.clone(), target };
        assert(entry@ == export_view_of(me[j as int]));
        exports.push(entry);
        j = j + 1;
    }
    let model = ModuleModel { functions, exports };
    assert(model@.functions =~= mf);
    assert(model@.exports =~= contents_model(mf, me).exports);
    if model.check_well_formed() {
        (Some(model), fns, exps)
    } else {
        (None, fns, exps)
    }
}

/// Parses a binary module into its model: the model a host builds its
/// function-name index from.
pub fn read_module(wasm: &[u8]) -> (r: Result<ModuleModel, InstrumentError>)
    ensures
        r is Ok <==> readable(wasm@),
        r matches Ok(mm) ==> mm@ == parsed_model(wasm@),
        r matches Err(e) ==> e == InstrumentError::Malformed,
{
    match parse_module(wasm) {
        Err(_) => Err(InstrumentError::Malformed),
        Ok(module) => {
            let (model, _, _) = read_model(&module);
            match model {
                Some(mm) => Ok(mm),
                None => Err(InstrumentError::Malformed),
            }
        },
    }
}

/// The function-name index of a binary module: the name of every function
/// that has one, by id.
pub fn name_index(wasm: &[u8]) -> (r: Result<FunctionNameIndex, InstrumentError>)
    ensures
        r is Ok <==> readable(wasm@),
        r matches Ok(ix) ==> ix@ == names_of(parsed_model(wasm@).functions),
        r matches Err(e) ==> e == InstrumentError::Malformed,
{
    match read_module(wasm) {
        Ok(mm) => Ok(FunctionNameIndex::from_model(&mm)),
        Err(e) => Err(e),
    }
}

/// A template instruction with its function operand mapped through `funcs`
/// and its local operand through `locals`.
pub open spec fn body_op_of(i: Instr, funcs: Seq<nat>, locals: Seq<nat>) -> BodyOp {
    match i {
        Instr::I32Const(c) => BodyOp::Const(c),
        Instr::Call(f) => BodyOp::Call(funcs[f as int]),
        Instr::LocalGet(l) => BodyOp::GetLocal(locals[l as int]),
        Instr::LocalSet(l) => BodyOp::SetLocal(locals[l as int]),
    }
}

/// `ops` is `body` with every operand mapped.
pub open spec fn built_from(ops: Seq<BodyOp>, body: Seq<Instr>, funcs: Seq<nat>, locals: Seq<nat>) -> bool {
    &&& ops.len() == body.len()
    &&& forall|i: int| 0 <= i < body.len() ==> #[trigger] ops[i] == body_op_of(body[i], funcs, locals)
}

/// No index occurs twice in `s`.
pub open spec fn distinct(s: Seq<nat>) -> bool {
    forall|a: int, b: int| 0 <= a < b < s.len() ==> s[a] != s[b]
}

pub open spec fn handle_indices(t: Seq<walrus::FunctionId>) -> Seq<nat> {
    t.map_values(|f: walrus::FunctionId| function_index_of(f))
}

proof fn lemma_fresh_local_keeps_distinct(prev: Seq<walrus::LocalId>, l: walrus::LocalId)
    requires
        distinct(prev.map_values(|x: walrus::LocalId| local_index_of(x))),
        forall|x: int| 0 <= x < prev.len() ==> #[trigger] local_index_of(prev[x]) != local_index_of(l),
    ensures
        distinct(prev.push(l).map_values(|x: walrus::LocalId| local_index_of(x))),
{
    let a = prev.push(l).map_values(|x: walrus::LocalId| local_index_of(x));
    assert forall|i: int, j: int| 0 <= i < j < a.len() implies a[i] != a[j] by {
        if j < prev.len() {
            assert(a[i] == prev.map_values(|x: walrus::LocalId| local_index_of(x))[i]);
            assert(a[j] == prev.map_values(|x: walrus::LocalId| local_index_of(x))[j]);
        } else {
            assert(a[i] == local_index_of(prev[i]));
        }
    }
}

/// Adds the shim of `inst.shims[k]` to the module: a new function whose
/// body is the shim's template with calls going to the functions of
/// `table` and locals to fresh, distinct locals, the first of them its
/// parameters.
fn add_shim(
    m: &mut walrus::Module,
    src: &ModuleModel,
    inst: &Instrumented,
    table: &Vec<walrus::FunctionId>,
    k: usize,
) -> (r: (walrus::FunctionId, Ghost<Seq<nat>>))
    requires
        src@.well_formed(),
        is_instrumentation_of(*inst, *src),
        k < inst.shims@.len(),
        table@.len() == src@.functions.len() + 2,
        coherent(*old(m)),
        forall|i: int| 0 <= i < table@.len() ==> owns_function(*old(m), #[trigger] table@[i]),
    ensures
        coherent(*final(m)),
        grows(*old(m), *final(m)),
        owns_function(*final(m), r.0),
        module_imports(*final(m)) == module_imports(*old(m)),
        module_functions(*final(m)) == module_functions(*old(m)).push(
            FunctionView {
                id: function_index_of(r.0),
                name: None,
                params: src@.functions[inst.shims@[k as int].wrapped as int].params,
                results: src@.functions[inst.shims@[k as int].wrapped as int].results,
            },
        ),
        module_exports(*final(m)) == module_exports(*old(m)),
        fresh_function(*old(m), function_index_of(r.0)),
        same_bodies_but(*final(m), *old(m), function_index_of(r.0)),
        built_from(
            function_body_at(*final(m), function_index_of(r.0)),
            inst.shims@[k as int].body@,
            handle_indices(table@),
            r.1@,
        ),
        distinct(r.1@),
        r.1@.len() == src@.functions[inst.shims@[k as int].wrapped as int].params.len()
            + src@.functions[inst.shims@[k as int].wrapped as int].results.len(),
        function_args_at(*final(m), function_index_of(r.0)) == r.1@.subrange(
            0,
            src@.functions[inst.shims@[k as int].wrapped as int].params.len() as int,
        ),
{
    let ghost n = src@.functions.len();
    let shim = &inst.shims[k];
    let wrapped = shim.wrapped as usize;
    let fd = &src.functions[wrapped];
    assert(fd@ == src@.functions[wrapped as int]);
    let ghost p = fd@.params.len();
    let ghost q = fd@.results.len();
    proof {
        lemma_shim_operands(shim.wrapped, inst.enter, inst.exit, p, q);
    }
    let wp = walrus_types(&fd.params);
    let wr = walrus_types(&fd.results);
    let mut builder = new_builder(m, &wp, &wr);
    let ghost sig = (fd@.params, fd@.results);
    let ghost start = *m;
    let mut locals: Vec<walrus::LocalId> = Vec::new();
    let mut args: Vec<walrus::LocalId> = Vec::new();
    let mut i: usize = 0;
    while i < wp.len()
        invariant
            i <= wp.len(),
            locals@.len() == i,
            args@ == locals@,
            same_tables(*m, *old(m)),
            same_bodies(*m, start),
            builder_body(builder) == Seq::<BodyOp>::empty(),
            builder_signature(builder) == sig,
            coherent(*m),
            grows(*old(m), *m),
            builder_in(builder, *m),
            forall|x: int| 0 <= x < table@.len() ==> owns_function(*m, #[trigger] table@[x]),
            forall|x: int| 0 <= x < locals@.len() ==> owns_local(*m, #[trigger] locals@[x]),
            distinct(locals@.map_values(|l: walrus::LocalId| local_index_of(l))),
            forall|x: int| 0 <= x < locals@.len() ==> module_locals(*m).contains(local_index_of(#[trigger] locals@[x])),
        decreases wp.len() - i,
    {
        let ghost prev = locals@;
        let ghost ml = module_locals(*m);
        let l = add_local(m, wp[i]);
        locals.push(l);
        args.push(l);
        proof {
            assert forall|x: int| 0 <= x < prev.len() implies #[trigger] local_index_of(prev[x]) != local_index_of(l) by {
                assert(ml.contains(local_index_of(prev[x])));
            }
            lemma_fresh_local_keeps_distinct(prev, l);
        }
        i = i + 1;
    }
    let mut i: usize = 0;
    while i < wr.len()
        invariant
            i <= wr.len(),
            locals@.len() == wp.len() + i,
            args@ == locals@.subrange(0, wp@.len() as int),
            same_tables(*m, *old(m)),
            same_bodies(*m, start),
            builder_body(builder) == Seq::<BodyOp>::empty(),
            builder_signature(builder) == sig,
            coherent(*m),
            grows(*old(m), *m),
            builder_in(builder, *m),
            forall|x: int| 0 <= x < table@.len() ==> owns_function(*m, #[trigger] table@[x]),
            forall|x: int| 0 <= x < locals@.len() ==> owns_local(*m, #[trigger] locals@[x]),
            distinct(locals@.map_values(|l: walrus::LocalId| local_index_of(l))),
            forall|x: int| 0 <= x < locals@.len() ==> module_locals(*m).contains(local_index_of(#[trigger] locals@[x])),
        decreases wr.len() - i,
    {
        let ghost prev = locals@;
        let ghost ml = module_locals(*m);
        let l = add_local(m, wr[i]);
        locals.push(l);
        proof {
            assert forall|x: int| 0 <= x < prev.len() implies #[trigger] local_index_of(prev[x]) != local_index_of(l) by {
                assert(ml.contains(local_index_of(prev[x])));
            }
            lemma_fresh_local_keeps_distinct(prev, l);
            assert(locals@.subrange(0, wp@.len() as int) =~= prev.subrange(0, wp@.len() as int));
        }
        i = i + 1;
    }
    let ghost lidx = locals@.map_values(|l: walrus::LocalId| local_index_of(l));
    let ghost funcs = handle_indices(table@);
    let body = &shim.body;
    let mut t: usize = 0;
    while t < body.len()
        invariant
            t <= body.len(),
            body@ == shim_template(shim.wrapped, inst.enter, inst.exit, p, q),
            forall|x: int| 0 <= x < body@.len() ==> operands_in_range(#[trigger] body@[x], shim.wrapped, inst.enter, inst.exit, p + q),
            locals@.len() == p + q,
            shim.wrapped < n,
            inst.enter == n,
            inst.exit == n + 1,
            table@.len() == n + 2,
            same_tables(*m, *old(m)),
            same_bodies(*m, start),
            builder_signature(builder) == sig,
            coherent(*m),
            grows(*old(m), *m),
            builder_in(builder, *m),
            forall|x: int| 0 <= x < table@.len() ==> owns_function(*m, #[trigger] table@[x]),
            forall|x: int| 0 <= x < locals@.len() ==> owns_local(*m, #[trigger] locals@[x]),
            lidx == locals@.map_values(|l: walrus::LocalId| local_index_of(l)),
            funcs == handle_indices(table@),
            builder_body(builder).len() == t,
            forall|x: int| 0 <= x < t ==> #[trigger] builder_body(builder)[x] == body_op_of(body@[x], funcs, lidx),
        decreases body.len() - t,
    {
        assert(operands_in_range(body@[t as int], shim.wrapped, inst.enter, inst.exit, p + q));
        let ghost before = builder_body(builder);
        match body[t] {
            Instr::I32Const(v) => emit_i32_const(&mut builder, v),
            Instr::Call(f) => emit_call(&mut builder, table[f as usize]),
            Instr::LocalGet(l) => emit_local_get(&mut builder, locals[l as usize]),
            Instr::LocalSet(l) => emit_local_set(&mut builder, locals[l as usize]),
        }
        assert(builder_body(builder)[t as int] == body_op_of(body@[t as int], funcs, lidx));
        assert forall|x: int| 0 <= x < t + 1 implies #[trigger] builder_body(builder)[x] == body_op_of(body@[x], funcs, lidx) by {
            if x < t {
                assert(builder_body(builder)[x] == before[x]);
            }
        }
        t = t + 1;
    }
    let ghost final_body = builder_body(builder);
    let f = finish_function(builder, args, m);
    proof {
        assert(args@.map_values(|l: walrus::LocalId| local_index_of(l)) =~= lidx.subrange(0, p as int));
        assert forall|g: nat| g != function_index_of(f) implies #[trigger] function_body_at(*m, g) == function_body_at(*old(m), g)
            && function_args_at(*m, g) == function_args_at(*old(m), g) by {
            assert(function_body_at(start, g) == function_body_at(*old(m), g));
        }
    }
    (f, Ghost(lidx))
}

/// Deletes, from the parsed source module, every export that a shim replaces.
fn delete_wrapped_exports(m: &mut walrus::Module, inst: &Instrumented, exps: &Vec<ExportEntryRaw>, n_exports: usize)
    requires
        exps@.len() == n_exports,
        forall|k: int| 0 <= k < inst.shims@.len() ==> (#[trigger] inst.shims@[k]).export < n_exports,
        forall|a: int, b: int|
            0 <= a < b < inst.shims@.len() ==> (#[trigger] inst.shims@[a]).export < (#[trigger] inst.shims@[b]).export,
        forall|j: int| 0 <= j < exps@.len() ==> export_indices(*old(m)).contains(export_index_of(#[trigger] exps@[j].0)),
        forall|i: int, j: int|
            0 <= i < j < exps@.len() ==> export_index_of(#[trigger] exps@[i].0) != export_index_of(#[trigger] exps@[j].0),
        lists_exports(*old(m), exps@),
        coherent(*old(m)),
        forall|j: int| 0 <= j < exps@.len() ==> owns_export(*old(m), #[trigger] exps@[j].0),
    ensures
        coherent(*final(m)),
        grows(*old(m), *final(m)),
        same_bodies(*final(m), *old(m)),
        module_functions(*final(m)) == module_functions(*old(m)),
        module_imports(*final(m)) == module_imports(*old(m)),
        forall|x: ExportItemView|
            #[trigger] export_entries(*final(m)).contains(x) ==> export_entries(*old(m)).contains(x) && forall|q: int|
                0 <= q < inst.shims@.len() ==> x.0 != module_exports(*old(m))[inst.shims@[q].export as int].0,
        forall|j: int|
            0 <= j < n_exports && !replaced(*inst, j) ==> export_entries(*final(m)).contains(
                #[trigger] module_exports(*old(m))[j],
            ),
        inst.shims@.len() == 0 ==> module_exports(*final(m)) == module_exports(*old(m)),
{
    let ghost me0 = module_exports(*m);
    proof {
        assert forall|j: int| 0 <= j < n_exports implies export_entries(*m).contains(#[trigger] me0[j]) by {
            assert(me0[j] == me0[j]);
        }
    }
    let mut k: usize = 0;
    while k < inst.shims.len()
        invariant
            k <= inst.shims@.len(),
            exps@.len() == n_exports,
            module_functions(*m) == module_functions(*old(m)),
            forall|q: int| 0 <= q < inst.shims@.len() ==> (#[trigger] inst.shims@[q]).export < n_exports,
            forall|a: int, b: int|
                0 <= a < b < inst.shims@.len() ==> (#[trigger] inst.shims@[a]).export < (#[trigger] inst.shims@[b]).export,
            forall|q: int|
                k <= q < inst.shims@.len() ==> export_indices(*m).contains(
                    export_index_of(exps@[(#[trigger] inst.shims@[q]).export as int].0),
                ),
            forall|i: int, j: int|
                0 <= i < j < exps@.len() ==> export_index_of(#[trigger] exps@[i].0) != export_index_of(#[trigger] exps@[j].0),
            me0 == module_exports(*old(m)),
            lists_exports(*old(m), exps@),
            coherent(*m),
            grows(*old(m), *m),
            same_bodies(*m, *old(m)),
            module_imports(*m) == module_imports(*old(m)),
            forall|x: int| 0 <= x < exps@.len() ==> owns_export(*m, #[trigger] exps@[x].0),
            k == 0 ==> module_exports(*m) == module_exports(*old(m)),
            forall|j: int|
                0 <= j < n_exports && (forall|q: int| 0 <= q < k ==> inst.shims@[q].export != j)
                    ==> export_entries(*m).contains(#[trigger] me0[j]),
            forall|x: ExportItemView|
                #[trigger] export_entries(*m).contains(x) ==> export_entries(*old(m)).contains(x) && forall|q: int|
                    0 <= q < k ==> x.0 != me0[inst.shims@[q].export as int].0,
        decreases inst.shims@.len() - k,
    {
        let j = inst.shims[k].export as usize;
        let ghost before_entries = export_entries(*m);
        proof {
            assert forall|q: int| k < q < inst.shims@.len() implies export_index_of(exps@[(#[trigger] inst.shims@[q]).export as int].0)
                != export_index_of(exps@[j as int].0) by {
                assert(inst.shims@[k as int].export < inst.shims@[q].export);
            }
        }
        delete_export(m, exps[j].0);
        proof {
            assert forall|x: int|
                0 <= x < n_exports && (forall|q: int| 0 <= q < k + 1 ==> inst.shims@[q].export != x)
                    implies export_entries(*m).contains(#[trigger] me0[x]) by {
                assert(inst.shims@[k as int].export != x);
                assert(before_entries.contains(me0[x]));
                if x < j {
                    assert(me0[x].0 != me0[j as int].0);
                } else {
                    assert(me0[j as int].0 != me0[x].0);
                }
            }
            assert forall|x: ExportItemView| #[trigger] export_entries(*m).contains(x) implies export_entries(*old(m)).contains(x)
                && forall|q: int| 0 <= q < k + 1 ==> x.0 != me0[inst.shims@[q].export as int].0 by {
                assert(before_entries.contains(x));
                assert(x.0 != export_index_of(exps@[j as int].0));
            }
        }
        k = k + 1;
    }
    proof {
        assert forall|j: int| 0 <= j < n_exports && !replaced(*inst, j) implies export_entries(*m).contains(
            #[trigger] me0[j],
        ) by {
            assert forall|q: int| 0 <= q < inst.shims@.len() implies inst.shims@[q].export != j by {
                if inst.shims@[q].export == j {
                    assert(replaced(*inst, j));
                }
            }
        }
    }
}

/// Does some shim of `inst` replace export `j`?
pub open spec fn replaced(inst: Instrumented, j: int) -> bool {
    exists|q: int| 0 <= q < inst.shims@.len() && (#[trigger] inst.shims@[q]).export == j
}

/// Does `m` export, under `name`, the function at position `t` of its
/// function table?
pub open spec fn exported_as(m: walrus::Module, name: Seq<char>, t: int) -> bool {
    exists|x: ExportItemView| #[trigger] export_entries(m).contains(x) && x.1 == name && x.2 == Some(module_functions(m)[t].id)
}

/// `x` is an export of `m` that matches export `j` of `src`: same name, and
/// it exports function `i` of `m`, whose signature is that of the function
/// export `j` exported.
pub open spec fn export_matches(m: walrus::Module, src: ModelView, j: int, x: ExportItemView, i: int) -> bool {
    &&& export_entries(m).contains(x)
    &&& 0 <= i < module_functions(m).len()
    &&& x.1 == src.exports[j].name
    &&& x.2 == Some(module_functions(m)[i].id)
    &&& module_functions(m)[i].params == src.functions[target_of(src.exports[j]) as int].params
    &&& module_functions(m)[i].results == src.functions[target_of(src.exports[j]) as int].results
}

/// Every function export of `src` has a match in `m`.
pub open spec fn exports_keep_signatures(m: walrus::Module, src: ModelView) -> bool {
    forall|j: int|
        0 <= j < src.exports.len() && (#[trigger] src.exports[j]).target is Function ==> exists|x: ExportItemView, i: int|
            export_matches(m, src, j, x, i)
}

/// The function table `fns` is `before` followed by the hooks and the
/// shims of `inst`, with the names and signatures that the instrumented
/// model gives them.
pub open spec fn functions_instrumented(fns: Seq<FunctionView>, before: Seq<FunctionView>, inst: Instrumented) -> bool {
    let n = before.len();
    let iv = inst.model@.functions;
    &&& fns.len() == n + 2 + inst.shims@.len()
    &&& fns.subrange(0, n as int) == before
    &&& forall|t: int|
        n <= t < fns.len() ==> {
            &&& (#[trigger] fns[t]).name == iv[t].name
            &&& fns[t].params == iv[t].params
            &&& fns[t].results == iv[t].results
        }
}

/// The function of `m` at position `n + 2 + q` is the `q`-th shim of
/// `inst` as built: its body is the shim's template with each function
/// operand mapped to the arena index of the function at that position of
/// `m` and each local operand to one of `locals`, distinct locals whose
/// first ones are the function's parameters.
pub open spec fn shim_emitted(m: walrus::Module, src: ModelView, inst: Instrumented, q: int, locals: Seq<nat>) -> bool {
    let n = src.functions.len();
    let fs = module_functions(m);
    let f = fs[n + 2 + q].id;
    let w = src.functions[inst.shims@[q].wrapped as int];
    &&& built_from(
        function_body_at(m, f),
        inst.shims@[q].body@,
        fs.subrange(0, (n + 2) as int).map_values(|v: FunctionView| v.id),
        locals,
    )
    &&& distinct(locals)
    &&& locals.len() == w.params.len() + w.results.len()
    &&& function_args_at(m, f) == locals.subrange(0, w.params.len() as int)
}

/// `x` is the export of one of the shims of `inst`: under the name of the
/// export that shim replaces, exporting that shim.
pub open spec fn shim_export_entry(m: walrus::Module, src: ModelView, inst: Instrumented, x: ExportItemView) -> bool {
    exists|q: int|
        0 <= q < inst.shims@.len() && x.1 == (#[trigger] wrapped_exports(src)[q]).name && x.2 == Some(
            module_functions(m)[src.functions.len() + 2 + q].id,
        )
}

/// Every export of `m` under the name of a replaced export exports the
/// shim that replaced it.
pub open spec fn exports_lead_to_shims(m: walrus::Module, src: ModelView, inst: Instrumented) -> bool {
    forall|q: int, x: ExportItemView|
        0 <= q < inst.shims@.len() && #[trigger] export_entries(m).contains(x) && x.1 == (#[trigger] wrapped_exports(
            src,
        )[q]).name ==> x.2 == Some(module_functions(m)[src.functions.len() + 2 + q].id)
}

/// The functions `fs` have the same bodies and parameter locals in `a` and `b`.
pub open spec fn bodies_kept(a: walrus::Module, b: walrus::Module, fs: Seq<FunctionView>) -> bool {
    forall|i: int|
        0 <= i < fs.len() ==> #[trigger] function_body_at(b, fs[i].id) == function_body_at(a, fs[i].id) && function_args_at(
            b,
            fs[i].id,
        ) == function_args_at(a, fs[i].id)
}

/// The `q`-th shim of `inst` is built in `m`, over some locals.
pub open spec fn shim_built(m: walrus::Module, src: ModelView, inst: Instrumented, q: int) -> bool {
    exists|l: Seq<nat>| #[trigger] shim_emitted(m, src, inst, q, l)
}

/// Applies `inst` to the parsed source module `m`, whose function handles
/// are listed in `fns`.
fn apply(m: &mut walrus::Module, src: &ModuleModel, inst: &Instrumented, fns: &Vec<FunctionEntry>)
    requires
        src@.well_formed(),
        is_instrumentation_of(*inst, *src),
        fns@.len() == src@.functions.len(),
        module_functions(*old(m)).len() == src@.functions.len(),
        forall|i: int| 0 <= i < fns@.len() ==> function_index_of(fns@[i].0) == (#[trigger] module_functions(*old(m))[i]).id,
        coherent(*old(m)),
        forall|i: int| 0 <= i < fns@.len() ==> owns_function(*old(m), #[trigger] fns@[i].0),
    ensures
        coherent(*final(m)),
        bodies_kept(*old(m), *final(m), module_functions(*old(m))),
        module_imports(*final(m)) == module_imports(*old(m)) + seq![
            (""@, "instrument_enter"@, Some(module_functions(*final(m))[src@.functions.len() as int].id)),
            (""@, "instrument_exit"@, Some(module_functions(*final(m))[src@.functions.len() + 1 as int].id)),
        ],
        functions_instrumented(module_functions(*final(m)), module_functions(*old(m)), *inst),
        forall|q: int| 0 <= q < inst.shims@.len() ==> #[trigger] shim_built(*final(m), src@, *inst, q),
        forall|x: ExportItemView| export_entries(*old(m)).contains(x) ==> export_entries(*final(m)).contains(x),
        forall|x: ExportItemView|
            #[trigger] export_entries(*final(m)).contains(x) ==> export_entries(*old(m)).contains(x) || shim_export_entry(
                *final(m),
                src@,
                *inst,
                x,
            ),
        inst.shims@.len() == 0 ==> module_exports(*final(m)) == module_exports(*old(m)),
        forall|q: int|
            0 <= q < inst.shims@.len() ==> exported_as(
                *final(m),
                wrapped_exports(src@)[q].name,
                src@.functions.len() + 2 + q,
            ),
{
    let ghost before = module_functions(*m);
    let ghost m0 = *m;
    let ghost imports0 = module_imports(*m);
    let ghost entries0 = export_entries(*m);
    let ghost exports0 = module_exports(*m);
    let ghost iv = inst.model@.functions;
    let n = fns.len();
    assert(inst.model.functions@.len() == inst.model@.functions.len());
    let hook = &inst.model.functions[n];
    assert(hook@ == iv[n as int]);
    assert(iv[n as int] == hook_view(n as nat));
    assert(iv[n + 1] == hook_view((n + 1) as nat));
    let params = walrus_types(&hook.params);
    let results = walrus_types(&hook.results);
    let ty = add_type(m, &params, &results);
    let ghost m1 = *m;
    let enter = add_import_func(m, "", "instrument_enter", ty);
    let ghost m2 = *m;
    let exit = add_import_func(m, "", "instrument_exit", ty);
    proof {
        assert forall|i: int| 0 <= i < before.len() implies #[trigger] function_body_at(*m, before[i].id) == function_body_at(
            m0,
            before[i].id,
        ) && function_args_at(*m, before[i].id) == function_args_at(m0, before[i].id) by {
            assert(module_functions(m1)[i] == before[i]);
            assert(module_functions(m2)[i] == before[i]);
            assert(before[i].id != function_index_of(enter));
            assert(before[i].id != function_index_of(exit));
            assert(function_body_at(m1, before[i].id) == function_body_at(m0, before[i].id));
        }
    }
    let mut table: Vec<walrus::FunctionId> = Vec::new();
    let mut i: usize = 0;
    while i < n
        invariant
            i <= n,
            n == fns@.len(),
            table@.len() == i,
            before.len() == n,
            forall|x: int| 0 <= x < fns@.len() ==> function_index_of(fns@[x].0) == (#[trigger] before[x]).id,
            forall|x: int| 0 <= x < i ==> function_index_of(table@[x]) == (#[trigger] before[x]).id,
            forall|x: int| 0 <= x < fns@.len() ==> owns_function(*m, #[trigger] fns@[x].0),
            forall|x: int| 0 <= x < i ==> owns_function(*m, #[trigger] table@[x]),
            owns_function(*m, enter),
            owns_function(*m, exit),
            coherent(*m),
            bodies_kept(m0, *m, before),
        decreases n - i,
    {
        table.push(fns[i].0);
        i = i + 1;
    }
    table.push(enter);
    table.push(exit);
    proof {
        let cur = module_functions(*m);
        assert(cur.len() == n + 2);
        assert(cur[n as int].id == function_index_of(enter));
        assert(cur[n + 1].id == function_index_of(exit));
        assert forall|x: int| 0 <= x < n implies cur[x] == before[x] by {}
    }

    let n_shims = inst.shims.len();
    let exports = &inst.model.exports;
    assert(inst.model@.exports.len() == exports@.len());
    let kept = exports.len() - n_shims;
    proof {
        let cur = module_functions(*m);
        assert(cur.subrange(0, n as int) =~= before);
        assert(handle_indices(table@) =~= cur.subrange(0, n + 2).map_values(|v: FunctionView| v.id));
    }
    let ghost mut built: Seq<Seq<nat>> = Seq::empty();
    proof {
        assert(entries0 == export_entries(*m));
        assert(exports0 == module_exports(*m));
    }
    let ghost mut added: Seq<ExportItemView> = Seq::empty();
    assert(inst.model@.exports.len() == kept_exports(src@).len() + wrapped_exports(src@).len());
    assert(kept == kept_exports(src@).len());
    let mut k: usize = 0;
    while k < n_shims
        invariant
            k <= n_shims,
            kept == kept_exports(src@).len(),
            inst.model@.exports.len() == exports@.len(),
            *exports == inst.model.exports,
            n_shims == inst.shims@.len(),
            kept + n_shims == exports@.len(),
            exports@.len() == exports.len(),
            src@.well_formed(),
            is_instrumentation_of(*inst, *src),
            table@.len() == src@.functions.len() + 2,
            n == src@.functions.len(),
            iv == inst.model@.functions,
            before.len() == n,
            module_functions(*m).len() == n + 2 + k,
            module_functions(*m).subrange(0, n as int) == before,
            forall|t: int|
                n <= t < n + 2 + k ==> {
                    &&& (#[trigger] module_functions(*m)[t]).name == iv[t].name
                    &&& module_functions(*m)[t].params == iv[t].params
                    &&& module_functions(*m)[t].results == iv[t].results
                },
            forall|x: ExportItemView| entries0.contains(x) ==> export_entries(*m).contains(x),
            forall|x: ExportItemView|
                #[trigger] export_entries(*m).contains(x) ==> entries0.contains(x) || (exists|q: int|
                    0 <= q < k && added[q] == x),
            k == 0 ==> module_exports(*m) == exports0,
            handle_indices(table@) == module_functions(*m).subrange(0, n + 2).map_values(|v: FunctionView| v.id),
            bodies_kept(m0, *m, before),
            m0 == *old(m),
            before == module_functions(m0),
            module_imports(*m) == imports0 + seq![
                (""@, "instrument_enter"@, Some(module_functions(*m)[n as int].id)),
                (""@, "instrument_exit"@, Some(module_functions(*m)[n + 1 as int].id)),
            ],
            coherent(*m),
            forall|x: int| 0 <= x < table@.len() ==> owns_function(*m, #[trigger] table@[x]),
            built.len() == k,
            forall|q: int| 0 <= q < k ==> #[trigger] shim_emitted(*m, src@, *inst, q, built[q]),
            added.len() == k,
            forall|q: int|
                0 <= q < k ==> {
                    &&& export_entries(*m).contains(#[trigger] added[q])
                    &&& added[q].1 == wrapped_exports(src@)[q].name
                    &&& added[q].2 == Some(module_functions(*m)[n + 2 + q].id)
                },
        decreases n_shims - k,
    {
        let ghost prev = module_functions(*m);
        let ghost prev_m = *m;
        let (f, shim_locals) = add_shim(m, src, inst, &table, k);
        proof {
            let cur = module_functions(*m);
            assert(cur.subrange(0, n + 2).map_values(|v: FunctionView| v.id) =~= prev.subrange(0, n + 2).map_values(
                |v: FunctionView| v.id,
            ));
            assert(cur[n + 2 + k].id == function_index_of(f));
            assert(shim_emitted(*m, src@, *inst, k as int, shim_locals@));
            assert forall|i: int| 0 <= i < before.len() implies before[i].id != function_index_of(f) by {
                assert(prev[i] == before[i]);
            }
            assert(bodies_kept(m0, *m, before));
            assert forall|q: int| 0 <= q < k implies #[trigger] shim_emitted(*m, src@, *inst, q, built[q]) by {
                assert(shim_emitted(prev_m, src@, *inst, q, built[q]));
                assert(cur[n + 2 + q] == prev[n + 2 + q]);
                assert(prev[n + 2 + q].id != function_index_of(f));
            }
            built = built.push(shim_locals@);
            assert forall|q: int| 0 <= q < k + 1 implies #[trigger] shim_emitted(*m, src@, *inst, q, built[q]) by {
                if q < k {
                    assert(built[q] == built.drop_last()[q]);
                }
            }
        }
        proof {
            let t = n + 2 + k;
            assert(iv[t] == shim_view(src@, k as int));
            assert(module_functions(*m).subrange(0, n as int) =~= prev.subrange(0, n as int));
            assert forall|x: int| n <= x < n + 2 + k + 1 implies {
                &&& (#[trigger] module_functions(*m)[x]).name == iv[x].name
                &&& module_functions(*m)[x].params == iv[x].params
                &&& module_functions(*m)[x].results == iv[x].results
            } by {
                if x < n + 2 + k {
                    assert(module_functions(*m)[x] == prev[x]);
                }
            }
        }
        let j = kept + k;
        let ghost mid_fns = module_functions(*m);
        let ghost mid_entries = export_entries(*m);
        let ghost before_export = *m;
        let e = add_export(m, exports[j].name.as_str(), f);
        proof {
            let x = (export_index_of(e), exports@[j as int].name@, Some(function_index_of(f)));
            assert(exports@[j as int]@ == inst.model@.exports[j as int]);
            assert(inst.model@.exports[j as int] == shim_export(src@, k as int));
            assert(mid_fns[n + 2 + k].id == function_index_of(f));
            assert forall|q: int| 0 <= q < k + 1 implies {
                &&& export_entries(*m).contains(#[trigger] added.push(x)[q])
                &&& added.push(x)[q].1 == wrapped_exports(src@)[q].name
                &&& added.push(x)[q].2 == Some(module_functions(*m)[n + 2 + q].id)
            } by {
                if q < k {
                    assert(added.push(x)[q] == added[q]);
                    assert(mid_entries.contains(added[q]));
                    assert(module_functions(*m)[n + 2 + q] == prev[n + 2 + q]);
                }
            }
            assert forall|y: ExportItemView| #[trigger] export_entries(*m).contains(y) implies entries0.contains(y) || (exists|q: int|
                0 <= q < k + 1 && added.push(x)[q] == y) by {
                if y == x {
                    assert(added.push(x)[k as int] == y);
                } else {
                    assert(mid_entries.contains(y));
                    assert(module_exports(prev_m) == module_exports(before_export));
                    assert(export_entries(prev_m).contains(y));
                    if !entries0.contains(y) {
                        let q = choose|q: int| 0 <= q < k && added[q] == y;
                        assert(added.push(x)[q] == y);
                    }
                }
            }
            added = added.push(x);
            assert forall|q: int| 0 <= q < k + 1 implies #[trigger] shim_emitted(*m, src@, *inst, q, built[q]) by {
                assert(shim_emitted(before_export, src@, *inst, q, built[q]));
            }
            assert(module_functions(*m).subrange(0, n + 2) == module_functions(before_export).subrange(0, n + 2));
            assert(bodies_kept(m0, *m, before));
        }
        k = k + 1;
    }
    proof {
        assert forall|x: ExportItemView| #[trigger] export_entries(*m).contains(x) implies entries0.contains(x)
            || shim_export_entry(*m, src@, *inst, x) by {
            if !entries0.contains(x) {
                let q = choose|q: int| 0 <= q < k && added[q] == x;
                assert(export_entries(*m).contains(added[q]));
            }
        }
        assert forall|q: int| 0 <= q < inst.shims@.len() implies #[trigger] shim_built(*m, src@, *inst, q) by {
            assert(shim_emitted(*m, src@, *inst, q, built[q]));
        }
        assert forall|q: int| 0 <= q < inst.shims@.len() implies exported_as(
            *m,
            wrapped_exports(src@)[q].name,
            src@.functions.len() + 2 + q,
        ) by {
            assert(export_entries(*m).contains(added[q]));
        }
    }
}

proof fn lemma_exports_kept(
    parsed: walrus::Module,
    trimmed: walrus::Module,
    emitted: walrus::Module,
    source: ModuleModel,
    result: Instrumented,
)
    requires
        source@.well_formed(),
        is_instrumentation_of(result, source),
        source@ == contents_model(module_functions(parsed), module_exports(parsed)),
        contents_fit(module_functions(parsed), module_exports(parsed)),
        forall|j: int|
            0 <= j < source@.exports.len() && !replaced(result, j) ==> export_entries(trimmed).contains(
                #[trigger] module_exports(parsed)[j],
            ),
        forall|x: ExportItemView| export_entries(trimmed).contains(x) ==> export_entries(emitted).contains(x),
        module_functions(trimmed) == source@.functions,
        functions_instrumented(module_functions(emitted), module_functions(trimmed), result),
        forall|q: int|
            0 <= q < result.shims@.len() ==> exported_as(
                emitted,
                wrapped_exports(source@)[q].name,
                source@.functions.len() + 2 + q,
            ),
    ensures
        exports_keep_signatures(emitted, source@),
{
    let src = source@;
    let me0 = module_exports(parsed);
    let fin = module_functions(emitted);
    let n = src.functions.len();
    let w = wrapped_exports(src);
    assert(fin.subrange(0, n as int) == src.functions);
    assert forall|j: int| 0 <= j < src.exports.len() && (#[trigger] src.exports[j]).target is Function implies exists|
        x: ExportItemView,
        i: int,
    | export_matches(emitted, src, j, x, i) by {
        let e = src.exports[j];
        let f = target_of(e);
        assert(e == export_view_of(me0[j]));
        if export_is_wrapped(src.functions, e) {
            src.exports.lemma_filter_contains(wrapped_pred(src.functions), j);
            let q = choose|q: int| 0 <= q < w.len() && w[q] == e;
            assert(exported_as(emitted, w[q].name, n + 2 + q));
            let x = choose|x: ExportItemView| #[trigger] export_entries(emitted).contains(x) && x.1 == w[q].name
                && x.2 == Some(fin[n + 2 + q].id);
            assert(result.model@.functions[n + 2 + q] == shim_view(src, q));
            assert(export_matches(emitted, src, j, x, n + 2 + q));
        } else {
            assert(!replaced(result, j)) by {
                if replaced(result, j) {
                    let q = choose|q: int| 0 <= q < result.shims@.len() && (#[trigger] result.shims@[q]).export == j;
                    src.exports.lemma_filter_pred(wrapped_pred(src.functions), q);
                }
            }
            assert(export_entries(trimmed).contains(me0[j]));
            assert(export_entries(emitted).contains(me0[j]));
            assert(fin[f as int] == fin.subrange(0, n as int)[f as int]);
            assert(export_matches(emitted, src, j, me0[j], f as int));
        }
    }
}

proof fn lemma_exports_lead_to_shims(
    parsed: walrus::Module,
    trimmed: walrus::Module,
    emitted: walrus::Module,
    source: ModuleModel,
    result: Instrumented,
)
    requires
        source@.well_formed(),
        is_instrumentation_of(result, source),
        source@ == contents_model(module_functions(parsed), module_exports(parsed)),
        forall|i: int, j: int|
            0 <= i < j < module_exports(parsed).len() ==> (#[trigger] module_exports(parsed)[i]).1
                != (#[trigger] module_exports(parsed)[j]).1,
        forall|x: ExportItemView|
            #[trigger] export_entries(trimmed).contains(x) ==> export_entries(parsed).contains(x) && forall|q: int|
                0 <= q < result.shims@.len() ==> x.0 != module_exports(parsed)[result.shims@[q].export as int].0,
        forall|x: ExportItemView|
            #[trigger] export_entries(emitted).contains(x) ==> export_entries(trimmed).contains(x) || shim_export_entry(
                emitted,
                source@,
                result,
                x,
            ),
    ensures
        exports_lead_to_shims(emitted, source@, result),
{
    let src = source@;
    let me0 = module_exports(parsed);
    let w = wrapped_exports(src);
    assert forall|q: int, x: ExportItemView|
        0 <= q < result.shims@.len() && #[trigger] export_entries(emitted).contains(x) && x.1 == (#[trigger] w[q]).name
            implies x.2 == Some(module_functions(emitted)[src.functions.len() + 2 + q].id) by {
        let eq = result.shims@[q].export as int;
        assert(src.exports[eq] == w[q]);
        assert(src.exports[eq] == export_view_of(me0[eq]));
        if export_entries(trimmed).contains(x) {
            assert(export_entries(parsed).contains(x));
            let j = choose|j: int| 0 <= j < me0.len() && me0[j] == x;
            if j != eq {
                if j < eq {
                    assert(me0[j].1 != me0[eq].1);
                } else {
                    assert(me0[eq].1 != me0[j].1);
                }
            }
            assert(x.0 != me0[eq].0);
        } else {
            assert(shim_export_entry(emitted, src, result, x));
            let r = choose|r: int|
                0 <= r < result.shims@.len() && x.1 == (#[trigger] w[r]).name && x.2 == Some(
                    module_functions(emitted)[src.functions.len() + 2 + r].id,
                );
            let er = result.shims@[r].export as int;
            assert(src.exports[er] == w[r]);
            assert(src.exports[er] == export_view_of(me0[er]));
            if r != q {
                if r < q {
                    assert(result.shims@[r].export < result.shims@[q].export);
                    assert(me0[er].1 != me0[eq].1);
                } else {
                    assert(result.shims@[q].export < result.shims@[r].export);
                    assert(me0[eq].1 != me0[er].1);
                }
            }
        }
    }
}

/// Instruments a binary module: every export of a function that has a name
/// in the module's name section is replaced by an export, under the same
/// name, of a shim that calls `instrument_enter` with the function's id,
/// calls the function, calls `instrument_exit` with the id and returns the
/// function's results. The hooks are imported from the empty namespace.
///
/// It succeeds exactly on the bytes walrus parses into a module that fits
/// the model. Then `source` is that module's model, `result` its
/// instrumentation, and `wasm` the encoding of the walrus module `module`,
/// which differs from the parsed module `parsed` as follows: its function
/// table is the source's followed by the two hooks and the shims; its
/// imports are the source's followed by `("", "instrument_enter")` and
/// `("", "instrument_exit")`, which import the hooks; every source function
/// export keeps its name and signature, and every replaced export's name
/// now exports its shim and nothing else; each shim's body is its template
/// over the module's own function indices; the source functions keep their
/// bodies; and when the source exports no function, its exports are
/// unchanged.
#[verifier::rlimit(60)]
pub fn instrument(wasm: &[u8]) -> (r: Result<Instrumentation, InstrumentError>)
    ensures
        r is Ok <==> readable(wasm@),
        r matches Ok(out) ==> {
            &&& out.source@ == parsed_model(wasm@)
            &&& is_instrumentation_of(out.result, out.source)
            &&& out.wasm@ == emitted_of(out.module@)
            &&& functions_instrumented(module_functions(out.module@), out.source@.functions, out.result)
            &&& exports_keep_signatures(out.module@, out.source@)
            &&& exports_lead_to_shims(out.module@, out.source@, out.result)
            &&& forall|q: int|
                0 <= q < out.result.shims@.len() ==> #[trigger] exported_as(
                    out.module@,
                    wrapped_exports(out.source@)[q].name,
                    out.source@.functions.len() + 2 + q,
                )
            &&& (module_functions(out.parsed@), module_exports(out.parsed@), module_imports(out.parsed@)) == parsed_contents(wasm@)
            &&& bodies_kept(out.parsed@, out.module@, module_functions(out.parsed@))
            &&& module_imports(out.module@) == parsed_contents(wasm@).2 + seq![
                (""@, "instrument_enter"@, Some(module_functions(out.module@)[out.source@.functions.len() as int].id)),
                (""@, "instrument_exit"@, Some(module_functions(out.module@)[out.source@.functions.len() + 1 as int].id)),
            ]
            &&& forall|q: int| 0 <= q < out.result.shims@.len() ==> #[trigger] shim_built(out.module@, out.source@, out.result, q)
            &&& (forall|j: int| 0 <= j < out.source@.exports.len() ==> !(#[trigger] out.source@.exports[j].target is Function))
                ==> module_exports(out.module@) == parsed_contents(wasm@).1
        },
        r matches Err(e) ==> e == InstrumentError::Malformed,
{
    let mut module = match parse_module(wasm) {
        Err(_) => {
            return Err(InstrumentError::Malformed);
        },
        Ok(module) => module,
    };
    let (model, fns, exps) = read_model(&module);
    let source = match model {
        Some(mm) => mm,
        None => {
            return Err(InstrumentError::Malformed);
        },
    };
    let result = instrument_model(&source);
    proof {
        let me = module_exports(module);
        assert forall|j: int| 0 <= j < exps@.len() implies export_indices(module).contains(export_index_of(#[trigger] exps@[j].0)) by {
            assert(me.map_values(|e: ExportItemView| e.0)[j] == me[j].0);
        }
        assert forall|i: int, j: int| 0 <= i < j < exps@.len() implies export_index_of(#[trigger] exps@[i].0) != export_index_of(#[trigger] exps@[j].0) by {
            assert(me[i].0 != me[j].0);
        }
    }
    let ghost parsed = module;
    delete_wrapped_exports(&mut module, &result, &exps, source.exports.len());
    let ghost trimmed = module;
    apply(&mut module, &source, &result, &fns);
    let ghost emitted_from = module;
    proof {
        assert(module_functions(trimmed) == source@.functions);
        lemma_exports_kept(parsed, trimmed, emitted_from, source, result);
        lemma_exports_lead_to_shims(parsed, trimmed, emitted_from, source, result);
        assert(bodies_kept(parsed, trimmed, module_functions(parsed)));
        assert(bodies_kept(parsed, emitted_from, module_functions(parsed)));
        if forall|j: int| 0 <= j < source@.exports.len() ==> !(#[trigger] source@.exports[j].target is Function) {
            lemma_no_function_exports(source@);
            assert(result.model@.functions.len() == source@.functions.len() + 2);
            assert(result.shims@.len() == 0);
        }
    }
    let bytes = emit_module(&mut module);
    Ok(Instrumentation { wasm: bytes, source, result, module: Ghost(emitted_from), parsed: Ghost(parsed) })
}

/// In an instrumented module, the hook calls of a shim carry only the id of
/// the function it wraps, which has a name: every constant in the body of
/// an emitted shim is that id.
pub proof fn lemma_emitted_hook_ids_named(m: walrus::Module, src: ModuleModel, inst: Instrumented, q: int, locals: Seq<nat>)
    requires
        src@.well_formed(),
        is_instrumentation_of(inst, src),
        0 <= q < inst.shims@.len(),
        shim_emitted(m, src@, inst, q, locals),
    ensures
        src@.has_name(inst.shims@[q].wrapped as nat),
        forall|i: int|
            0 <= i < function_body_at(m, module_functions(m)[src@.functions.len() + 2 + q].id).len() ==> (
            #[trigger] function_body_at(m, module_functions(m)[src@.functions.len() + 2 + q].id)[i] matches BodyOp::Const(c)
                ==> c == inst.shims@[q].wrapped as i32),
{
    let s = inst.shims@[q];
    let f = src@.functions[s.wrapped as int];
    lemma_only_named_functions_wrapped(src@, q);
    lemma_shim_operands(s.wrapped, inst.enter, inst.exit, f.params.len(), f.results.len());
    let ops = function_body_at(m, module_functions(m)[src@.functions.len() + 2 + q].id);
    assert forall|i: int| 0 <= i < ops.len() implies (#[trigger] ops[i] matches BodyOp::Const(c) ==> c == s.wrapped as i32) by {
        assert(operands_in_range(s.body@[i], s.wrapped, inst.enter, inst.exit, f.params.len() + f.results.len()));
    }
}

} // verus!
