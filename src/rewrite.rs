use vstd::prelude::*;
use crate::model::{
    ExportEntry, ExportTarget, ExportView, FunctionDescriptor, FunctionView, ModelView, ModuleModel,
    ValueType,
};
use crate::shim::{activation, lemma_shim_run, run, shim_body, shim_template, Callee, HookEvent, Instr};

verus! {

/// A synthesized function that wraps `wrapped`; its function id is given by
/// its position among the shims (see [`Instrumented`]).
pub struct Shim {
    pub wrapped: u32,
    /// Position, in the source export table, of the export it replaces.
    pub export: u32,
    pub body: Vec<Instr>,
}

/// The result of instrumenting a model.
///
/// `model` is the instrumented module: the source functions, then the two
/// hook imports (`enter`, `exit`), then one function per shim, in the
/// order of `shims`. Ids are positions in the module's function arena, in
/// that order; in the emitted binary, which lists imports first, the index
/// of a function may differ; its exports are those left untouched followed by one
/// export per shim, under the name of the export it replaces.
pub struct Instrumented {
    pub model: ModuleModel,
    pub enter: u32,
    pub exit: u32,
    pub shims: Vec<Shim>,
}

/// Does instrumentation replace this export with a shim? Exactly when it
/// exports a function that has a name.
pub open spec fn export_is_wrapped(fns: Seq<FunctionView>, e: ExportView) -> bool {
    match e.target {
        ExportTarget::Function(f) => f < fns.len() && fns[f as int].name is Some,
        ExportTarget::Other => false,
    }
}

pub open spec fn wrapped_pred(fns: Seq<FunctionView>) -> spec_fn(ExportView) -> bool {
    |e: ExportView| export_is_wrapped(fns, e)
}

pub open spec fn kept_pred(fns: Seq<FunctionView>) -> spec_fn(ExportView) -> bool {
    |e: ExportView| !export_is_wrapped(fns, e)
}

/// The exports that receive a shim, in export order.
pub open spec fn wrapped_exports(m: ModelView) -> Seq<ExportView> {
    m.exports.filter(wrapped_pred(m.functions))
}

/// The exports left as they are.
pub open spec fn kept_exports(m: ModelView) -> Seq<ExportView> {
    m.exports.filter(kept_pred(m.functions))
}

pub open spec fn target_of(e: ExportView) -> nat {
    match e.target {
        ExportTarget::Function(f) => f as nat,
        ExportTarget::Other => 0,
    }
}

/// The signature `(i32) -> ()` of the two hook imports.
pub open spec fn hook_view(id: nat) -> FunctionView {
    FunctionView { id, name: None, params: seq![ValueType::I32], results: Seq::empty() }
}

/// The `k`-th shim: a fresh function with the signature of the function it wraps.
pub open spec fn shim_view(m: ModelView, k: int) -> FunctionView {
    let f = target_of(wrapped_exports(m)[k]);
    FunctionView {
        id: (m.functions.len() + 2 + k) as nat,
        name: None,
        params: m.functions[f as int].params,
        results: m.functions[f as int].results,
    }
}

/// The export of the `k`-th shim, under the name of the export it replaces.
pub open spec fn shim_export(m: ModelView, k: int) -> ExportView {
    ExportView {
        name: wrapped_exports(m)[k].name,
        target: ExportTarget::Function((m.functions.len() + 2 + k) as u32),
    }
}

/// The instrumented module, as a model.
pub open spec fn instrumented_view(m: ModelView) -> ModelView {
    let n = m.functions.len();
    let w = wrapped_exports(m);
    ModelView {
        functions: m.functions + seq![hook_view(n), hook_view(n + 1)] + Seq::new(
            w.len(),
            |k: int| shim_view(m, k),
        ),
        exports: kept_exports(m) + Seq::new(w.len(), |k: int| shim_export(m, k)),
    }
}

/// `inst` is the instrumentation of `src`: the instrumented model, the
/// hook ids right after the source functions, and one shim per wrapped
/// export, built from the template around the exported function.
pub open spec fn is_instrumentation_of(inst: Instrumented, src: ModuleModel) -> bool {
    &&& inst.model@ == instrumented_view(src@)
    &&& inst.enter == src@.functions.len()
    &&& inst.exit == src@.functions.len() + 1
    &&& inst.shims@.len() == wrapped_exports(src@).len()
    &&& forall|a: int, b: int|
        0 <= a < b < inst.shims@.len() ==> (#[trigger] inst.shims@[a]).export < (#[trigger] inst.shims@[b]).export
    &&& forall|k: int|
        0 <= k < inst.shims@.len() ==> {
            let f = target_of(wrapped_exports(src@)[k]);
            &&& (#[trigger] inst.shims@[k]).wrapped == f
            &&& inst.shims@[k].wrapped < src@.functions.len()
            &&& inst.shims@[k].export < src@.exports.len()
            &&& src@.exports[inst.shims@[k].export as int] == wrapped_exports(src@)[k]
            &&& inst.shims@[k].body@ == shim_template(
                inst.shims@[k].wrapped,
                inst.enter,
                inst.exit,
                src@.functions[f as int].params.len(),
                src@.functions[f as int].results.len(),
            )
        }
}

fn copy_types(v: &Vec<ValueType>) -> (r: Vec<ValueType>)
    ensures
        r@ == v@,
{
    let mut r: Vec<ValueType> = Vec::new();
    let mut i: usize = 0;
    while i < v.len()
        invariant
            i <= v.len(),
            r@ == v@.subrange(0, i as int),
        decreases v.len() - i,
    {
        r.push(v[i]);
        i = i + 1;
        assert(r@ =~= v@.subrange(0, i as int));
    }
    assert(v@.subrange(0, v.len() as int) =~= v@);
    r
}

impl FunctionDescriptor {
    /// A copy of this descriptor.
    pub fn duplicate(&self) -> (r: FunctionDescriptor)
        ensures
            r@ == self@,
    {
        let name = match &self.name {
            Some(s) => Some(s.clone()),
            None => None,
        };
        FunctionDescriptor { id: self.id, name, params: copy_types(&self.params), results: copy_types(&self.results) }
    }
}

impl ExportEntry {
    /// A copy of this entry.
    pub fn duplicate(&self) -> (r: ExportEntry)
        ensures
            r@ == self@,
    {
        ExportEntry { name: self.name.clone(), target: self.target }
    }
}

fn hook_descriptor(id: u32) -> (r: FunctionDescriptor)
    ensures
        r@ == hook_view(id as nat),
{
    let mut params: Vec<ValueType> = Vec::new();
    params.push(ValueType::I32);
    let r = FunctionDescriptor { id, name: None, params, results: Vec::new() };
    assert(r@.params =~= seq![ValueType::I32]);
    assert(r@.results =~= Seq::<ValueType>::empty());
    r
}

proof fn lemma_filter_step(s: Seq<ExportView>, j: int, p: spec_fn(ExportView) -> bool)
    requires
        0 <= j < s.len(),
    ensures
        s.subrange(0, j + 1).filter(p) == if p(s[j]) {
            s.subrange(0, j).filter(p).push(s[j])
        } else {
            s.subrange(0, j).filter(p)
        },
{
    reveal(Seq::filter);
    assert(s.subrange(0, j + 1).drop_last() =~= s.subrange(0, j));
}

/// Instruments a well-formed model: adds the two hook imports, replaces
/// every export of a named function by an export of a shim around it, and
/// leaves every other export and function as it is.
pub fn instrument_model(m: &ModuleModel) -> (r: Instrumented)
    requires
        m@.well_formed(),
    ensures
        is_instrumentation_of(r, *m),
{
    let ghost mv = m@;
    let ghost fns = mv.functions;
    let n = m.functions.len();
    let enter = n as u32;
    let exit = enter + 1;

    let mut functions: Vec<FunctionDescriptor> = Vec::new();
    let mut i: usize = 0;
    while i < n
        invariant
            n == m.functions.len(),
            mv == m@,
            i <= n,
            functions@.len() == i,
            forall|k: int| 0 <= k < i ==> (#[trigger] functions@[k])@ == mv.functions[k],
        decreases n - i,
    {
        functions.push(m.functions[i].duplicate());
        i = i + 1;
    }
    functions.push(hook_descriptor(enter));
    functions.push(hook_descriptor(exit));

    let mut exports: Vec<ExportEntry> = Vec::new();
    let mut new_exports: Vec<ExportEntry> = Vec::new();
    let mut shims: Vec<Shim> = Vec::new();
    let mut j: usize = 0;
    while j < m.exports.len()
        invariant
            mv == m@,
            fns == mv.functions,
            mv.well_formed(),
            n == fns.len(),
            enter == n,
            exit == n + 1,
            j <= m.exports.len(),
            functions@.len() == n + 2 + shims@.len(),
            forall|k: int| 0 <= k < n ==> (#[trigger] functions@[k])@ == fns[k],
            functions@[n as int]@ == hook_view(n as nat),
            functions@[n + 1]@ == hook_view((n + 1) as nat),
            exports@.map_values(|e: ExportEntry| e@) == mv.exports.subrange(0, j as int).filter(kept_pred(fns)),
            shims@.len() == new_exports@.len(),
            new_exports@.len() == mv.exports.subrange(0, j as int).filter(wrapped_pred(fns)).len(),
            forall|a: int, b: int| 0 <= a < b < shims@.len() ==> (#[trigger] shims@[a]).export < (#[trigger] shims@[b]).export,
            forall|k: int|
                0 <= k < shims@.len() ==> {
                    let e = mv.exports.subrange(0, j as int).filter(wrapped_pred(fns))[k];
                    let f = target_of(e);
                    &&& (#[trigger] shims@[k]).wrapped == f
                    &&& shims@[k].wrapped < n
                    &&& shims@[k].export < j
                    &&& mv.exports[shims@[k].export as int] == e
                    &&& shims@[k].body@ == shim_template(
                        f as u32,
                        enter,
                        exit,
                        fns[f as int].params.len(),
                        fns[f as int].results.len(),
                    )
                    &&& new_exports@[k]@ == ExportView {
                        name: e.name,
                        target: ExportTarget::Function((n + 2 + k) as u32),
                    }
                    &&& functions@[n + 2 + k]@ == FunctionView {
                        id: (n + 2 + k) as nat,
                        name: None,
                        params: fns[f as int].params,
                        results: fns[f as int].results,
                    }
                },
        decreases m.exports.len() - j,
    {
        let ghost before_w = mv.exports.subrange(0, j as int).filter(wrapped_pred(fns));
        proof {
            lemma_filter_step(mv.exports, j as int, wrapped_pred(fns));
            lemma_filter_step(mv.exports, j as int, kept_pred(fns));
            assert(mv.exports.subrange(0, j as int).filter(wrapped_pred(fns)).len() <= j) by {
                mv.exports.subrange(0, j as int).lemma_filter_len(wrapped_pred(fns));
            }
        }
        let e = &m.exports[j];
        assert(e@ == mv.exports[j as int]);
        let mut wrap = false;
        match e.target {
            ExportTarget::Function(f) => {
                let fi = f as usize;
                if fi < n && m.functions[fi].name.is_some() {
                    let fd = &m.functions[fi];
                    assert(fd@ == fns[fi as int]);
                    assert(fns[fi as int].params.len() + fns[fi as int].results.len() <= u32::MAX);
                    let k = shims.len();
                    let sid = (n + 2 + k) as u32;
                    let body = shim_body(f, enter, exit, fd.params.len() as u32, fd.results.len() as u32);
                    shims.push(Shim { wrapped: f, export: j as u32, body });
                    new_exports.push(ExportEntry { name: e.name.clone(), target: ExportTarget::Function(sid) });
                    functions.push(
                        FunctionDescriptor {
                            id: sid,
                            name: None,
                            params: copy_types(&fd.params),
                            results: copy_types(&fd.results),
                        },
                    );
                    wrap = true;
                    proof {
                        let after_w = mv.exports.subrange(0, j + 1).filter(wrapped_pred(fns));
                        assert(after_w == before_w.push(mv.exports[j as int]));
                        assert forall|q: int| 0 <= q < shims@.len() implies after_w[q] == (if q < k {
                            before_w[q]
                        } else {
                            mv.exports[j as int]
                        }) by {}
                    }
                }
            },
            ExportTarget::Other => {},
        }
        if !wrap {
            exports.push(e.duplicate());
            proof {
                assert(exports@.map_values(|e: ExportEntry| e@) =~= mv.exports.subrange(0, j as int).filter(
                    kept_pred(fns),
                ).push(mv.exports[j as int]));
            }
        }
        j = j + 1;
    }
    proof {
        assert(mv.exports.subrange(0, m.exports.len() as int) =~= mv.exports);
    }
    let ghost w = wrapped_exports(mv);
    let ghost iv = instrumented_view(mv);
    let ghost kept_len = exports@.len();
    proof {
        assert(mv.exports.subrange(0, m.exports.len() as int) =~= mv.exports);
        assert(functions@.len() == iv.functions.len());
        assert forall|t: int| 0 <= t < iv.functions.len() implies (#[trigger] functions@[t])@ == iv.functions[t] by {
            if t >= n + 2 {
                let k = t - n - 2;
                assert(shims@[k].wrapped == target_of(w[k]));
                assert(iv.functions[t] == shim_view(mv, k));
            }
        }
        assert forall|k: int| 0 <= k < new_exports@.len() implies (#[trigger] new_exports@[k])@ == shim_export(mv, k) by {
            assert(shims@[k].wrapped == target_of(w[k]));
        }
        assert(exports@.map_values(|e: ExportEntry| e@) =~= kept_exports(mv));
    }
    let mut q: usize = 0;
    while q < new_exports.len()
        invariant
            iv == instrumented_view(mv),
            w == wrapped_exports(mv),
            new_exports@.len() == w.len(),
            forall|k: int| 0 <= k < new_exports@.len() ==> (#[trigger] new_exports@[k])@ == shim_export(mv, k),
            q <= new_exports@.len(),
            exports@.len() == kept_len + q,
            exports@.map_values(|e: ExportEntry| e@).subrange(0, kept_len as int) == kept_exports(mv),
            forall|t: int| 0 <= t < q ==> (#[trigger] exports@[kept_len + t])@ == new_exports@[t]@,
        decreases new_exports@.len() - q,
    {
        let ghost old_ex = exports@;
        exports.push(new_exports[q].duplicate());
        proof {
            assert(exports@.map_values(|e: ExportEntry| e@).subrange(0, kept_len as int) =~= old_ex.map_values(
                |e: ExportEntry| e@,
            ).subrange(0, kept_len as int));
        }
        q = q + 1;
    }
    proof {
        assert forall|t: int| 0 <= t < iv.exports.len() implies (#[trigger] exports@[t])@ == iv.exports[t] by {
            if t < kept_len {
                assert(exports@.map_values(|e: ExportEntry| e@).subrange(0, kept_len as int)[t] == exports@[t]@);
            } else {
                let k = t - kept_len;
                assert(exports@[kept_len + k]@ == new_exports@[k]@);
            }
        }
    }
    let model = ModuleModel { functions, exports };
    proof {
        assert(model@.functions =~= iv.functions);
        assert(model@.exports =~= iv.exports);
    }
    Instrumented { model, enter, exit, shims }
}

proof fn lemma_filter_keeps_all(s: Seq<ExportView>, p: spec_fn(ExportView) -> bool)
    requires
        forall|i: int| 0 <= i < s.len() ==> p(#[trigger] s[i]),
    ensures
        s.filter(p) == s,
    decreases s.len(),
{
    reveal(Seq::filter);
    if s.len() > 0 {
        lemma_filter_keeps_all(s.drop_last(), p);
        assert(s.drop_last().push(s.last()) =~= s);
    }
}

proof fn lemma_filter_drops_all(s: Seq<ExportView>, p: spec_fn(ExportView) -> bool)
    requires
        forall|i: int| 0 <= i < s.len() ==> !p(#[trigger] s[i]),
    ensures
        s.filter(p).len() == 0,
    decreases s.len(),
{
    reveal(Seq::filter);
    if s.len() > 0 {
        lemma_filter_drops_all(s.drop_last(), p);
    }
}

/// Export `t` of `out` has the name of export `j` of `m`, and runs a
/// function with the same parameter and result types.
pub open spec fn same_signature_export(out: ModelView, t: int, m: ModelView, j: int) -> bool {
    let g = target_of(out.exports[t]);
    let f = target_of(m.exports[j]);
    &&& out.exports[t].name == m.exports[j].name
    &&& out.exports[t].target is Function
    &&& g < out.functions.len()
    &&& out.functions[g as int].params == m.functions[f as int].params
    &&& out.functions[g as int].results == m.functions[f as int].results
}

/// The function an instrumented export runs has the signature of the
/// function the source export ran: for every function export of a
/// well-formed source model, the instrumented model exports a function under
/// the same name with the same parameter and result types.
pub proof fn lemma_signatures_preserved(m: ModelView, j: int)
    requires
        m.well_formed(),
        0 <= j < m.exports.len(),
        m.exports[j].target is Function,
    ensures
        exists|t: int|
            0 <= t < instrumented_view(m).exports.len() && #[trigger] same_signature_export(
                instrumented_view(m),
                t,
                m,
                j,
            ),
{
    let out = instrumented_view(m);
    let e = m.exports[j];
    let f = target_of(e);
    let n = m.functions.len();
    let w = wrapped_exports(m);
    let kept = kept_exports(m);
    m.exports.lemma_filter_len(wrapped_pred(m.functions));
    assert(f < n);
    if export_is_wrapped(m.functions, e) {
        m.exports.lemma_filter_contains(wrapped_pred(m.functions), j);
        let k = choose|k: int| 0 <= k < w.len() && w[k] == e;
        let t = kept.len() + k;
        assert(out.exports[t] == shim_export(m, k));
        assert(target_of(out.exports[t]) == n + 2 + k);
        assert(out.functions[n + 2 + k] == shim_view(m, k));
        assert(same_signature_export(out, t, m, j));
    } else {
        m.exports.lemma_filter_contains(kept_pred(m.functions), j);
        let k = choose|k: int| 0 <= k < kept.len() && kept[k] == e;
        assert(out.exports[k] == e);
        assert(out.functions[f as int] == m.functions[f as int]);
        assert(same_signature_export(out, k, m, j));
    }
}

/// A module that exports no function comes out unchanged, but for the two
/// hook imports added after its functions.
pub proof fn lemma_no_function_exports(m: ModelView)
    requires
        m.well_formed(),
        forall|j: int| 0 <= j < m.exports.len() ==> !(#[trigger] m.exports[j].target is Function),
    ensures
        instrumented_view(m).exports == m.exports,
        instrumented_view(m).functions == m.functions + seq![
            hook_view(m.functions.len() as nat),
            hook_view(m.functions.len() + 1),
        ],
{
    let n = m.functions.len();
    assert forall|i: int| 0 <= i < m.exports.len() implies kept_pred(m.functions)(#[trigger] m.exports[i]) by {}
    assert forall|i: int| 0 <= i < m.exports.len() implies !wrapped_pred(m.functions)(#[trigger] m.exports[i]) by {}
    lemma_filter_keeps_all(m.exports, kept_pred(m.functions));
    lemma_filter_drops_all(m.exports, wrapped_pred(m.functions));
    assert(instrumented_view(m).exports =~= m.exports);
    assert(instrumented_view(m).functions =~= m.functions + seq![hook_view(n), hook_view(n + 1)]);
}

/// Only functions that have a name are wrapped: the function behind every
/// shim has a name, so the id of an unnamed function is never carried by a
/// hook call.
pub proof fn lemma_only_named_functions_wrapped(m: ModelView, k: int)
    requires
        m.well_formed(),
        0 <= k < wrapped_exports(m).len(),
    ensures
        m.has_name(target_of(wrapped_exports(m)[k])),
{
    m.exports.lemma_filter_pred(wrapped_pred(m.functions), k);
}

/// Every shim that instrumentation adds is transparent and reports its
/// call: run on arguments for the wrapped function, with `callee` standing
/// for that function, it leaves exactly the function's results on the
/// stack, and its hook calls are the entry of the wrapped function's id,
/// whatever the function itself reported, and the exit of that id.
pub proof fn lemma_shims_forward_calls(inst: Instrumented, src: ModuleModel, k: int, args: Seq<int>, callee: Callee)
    requires
        src@.well_formed(),
        is_instrumentation_of(inst, src),
        0 <= k < inst.shims@.len(),
        args.len() == src@.functions[inst.shims@[k].wrapped as int].params.len(),
        callee(args).0.len() == src@.functions[inst.shims@[k].wrapped as int].results.len(),
    ensures
        ({
            let f = inst.shims@[k].wrapped;
            let out = run(
                inst.shims@[k].body@,
                activation(args, callee(args).0.len()),
                inst.enter,
                inst.exit,
                args.len(),
                callee,
            );
            &&& out.stack == callee(args).0
            &&& out.events == seq![HookEvent::Enter(f as int)] + callee(args).1 + seq![HookEvent::Exit(f as int)]
        }),
{
    let f = inst.shims@[k].wrapped;
    let fv = src@.functions[f as int];
    assert(fv.params.len() + fv.results.len() <= u32::MAX);
    lemma_shim_run(f, inst.enter, inst.exit, callee(args).0.len(), args, callee);
}

} // verus!
