use vstd::prelude::*;

verus! {

/// The instructions a shim body is made of.
///
/// Function operands of `Call` are function ids; local operands are
/// positions among the shim's locals (its parameters first, then one local
/// per result).
#[derive(Clone, Copy, Debug, PartialEq, Eq, Structural)]
pub enum Instr {
    I32Const(i32),
    Call(u32),
    LocalGet(u32),
    LocalSet(u32),
}

/// `n` reads of consecutive locals starting at `lo`.
pub open spec fn local_gets(lo: nat, n: nat) -> Seq<Instr> {
    Seq::new(n, |k: int| Instr::LocalGet((lo + k) as u32))
}

/// `n` writes of consecutive locals starting at `lo`, highest first, so that
/// the value on top of the stack lands in the last local.
pub open spec fn local_sets_rev(lo: nat, n: nat) -> Seq<Instr> {
    Seq::new(n, |k: int| Instr::LocalSet((lo + n - 1 - k) as u32))
}

/// The body of the shim that wraps function `id` (with `n_params`
/// parameters and `n_results` results): report entry, forward the
/// parameters to the wrapped function, park its results in fresh locals,
/// report exit, push the results back.
pub open spec fn shim_template(id: u32, enter: u32, exit: u32, n_params: nat, n_results: nat) -> Seq<
    Instr,
> {
    seq![Instr::I32Const(id as i32), Instr::Call(enter)] + local_gets(0, n_params) + seq![
        Instr::Call(id),
    ] + local_sets_rev(n_params, n_results) + seq![Instr::I32Const(id as i32), Instr::Call(exit)]
        + local_gets(n_params, n_results)
}

/// A call reported to the host hooks, with the function id it carries.
pub enum HookEvent {
    Enter(int),
    Exit(int),
}

/// The state of a function activation: operand stack, locals, and the hook
/// calls made so far.
pub struct Machine {
    pub stack: Seq<int>,
    pub locals: Seq<int>,
    pub events: Seq<HookEvent>,
}

/// The behaviour of a called function: from its arguments to its results
/// and the hook calls made while it ran.
pub type Callee = spec_fn(Seq<int>) -> (Seq<int>, Seq<HookEvent>);

pub open spec fn pop(s: Seq<int>) -> Seq<int> {
    s.subrange(0, s.len() - 1)
}

/// One instruction. A call of `enter` or `exit` consumes the id on top of
/// the stack and reports it; any other call hands the top `arity` values to
/// `callee` and pushes what it returns.
pub open spec fn step(i: Instr, s: Machine, enter: u32, exit: u32, arity: nat, callee: Callee) -> Machine {
    match i {
        Instr::I32Const(c) => Machine { stack: s.stack.push(c as int), ..s },
        Instr::Call(f) => {
            if f == enter {
                Machine {
                    stack: pop(s.stack),
                    events: s.events.push(HookEvent::Enter(s.stack.last())),
                    ..s
                }
            } else if f == exit {
                Machine {
                    stack: pop(s.stack),
                    events: s.events.push(HookEvent::Exit(s.stack.last())),
                    ..s
                }
            } else {
                let split = s.stack.len() - arity;
                let out = callee(s.stack.subrange(split, s.stack.len() as int));
                Machine {
                    stack: s.stack.subrange(0, split) + out.0,
                    events: s.events + out.1,
                    ..s
                }
            }
        },
        Instr::LocalGet(k) => Machine { stack: s.stack.push(s.locals[k as int]), ..s },
        Instr::LocalSet(k) => Machine {
            stack: pop(s.stack),
            locals: s.locals.update(k as int, s.stack.last()),
            ..s
        },
    }
}

pub open spec fn run(body: Seq<Instr>, s: Machine, enter: u32, exit: u32, arity: nat, callee: Callee) -> Machine
    decreases body.len(),
{
    if body.len() == 0 {
        s
    } else {
        run(body.drop_first(), step(body[0], s, enter, exit, arity, callee), enter, exit, arity, callee)
    }
}

/// The activation a function starts in: empty stack, its arguments
/// followed by zeroed extra locals.
pub open spec fn activation(args: Seq<int>, extra_locals: nat) -> Machine {
    Machine { stack: Seq::empty(), locals: args + Seq::new(extra_locals, |k: int| 0), events: Seq::empty() }
}

/// The shim of `id` run on `args`, with `callee` standing for the wrapped function.
pub open spec fn run_shim(id: u32, enter: u32, exit: u32, n_results: nat, args: Seq<int>, callee: Callee) -> Machine {
    run(
        shim_template(id, enter, exit, args.len(), n_results),
        activation(args, n_results),
        enter,
        exit,
        args.len(),
        callee,
    )
}

pub open spec fn shim_ids_ok(id: u32, enter: u32, exit: u32, n_params: nat, n_results: nat) -> bool {
    &&& id != enter
    &&& id != exit
    &&& enter != exit
    &&& id <= i32::MAX
    &&& n_params + n_results <= u32::MAX
}

proof fn lemma_run_append(a: Seq<Instr>, b: Seq<Instr>, s: Machine, enter: u32, exit: u32, arity: nat, callee: Callee)
    ensures
        run(a + b, s, enter, exit, arity, callee) == run(b, run(a, s, enter, exit, arity, callee), enter, exit, arity, callee),
    decreases a.len(),
{
    if a.len() == 0 {
        assert(a + b =~= b);
    } else {
        assert((a + b).drop_first() =~= a.drop_first() + b);
        assert((a + b)[0] == a[0]);
        lemma_run_append(a.drop_first(), b, step(a[0], s, enter, exit, arity, callee), enter, exit, arity, callee);
    }
}

proof fn lemma_run_one(i: Instr, s: Machine, enter: u32, exit: u32, arity: nat, callee: Callee)
    ensures
        run(seq![i], s, enter, exit, arity, callee) == step(i, s, enter, exit, arity, callee),
{
    reveal_with_fuel(run, 2);
    assert(seq![i].drop_first() =~= Seq::<Instr>::empty());
}

proof fn lemma_run_two(i: Instr, j: Instr, s: Machine, enter: u32, exit: u32, arity: nat, callee: Callee)
    ensures
        run(seq![i, j], s, enter, exit, arity, callee) == step(j, step(i, s, enter, exit, arity, callee), enter, exit, arity, callee),
{
    assert(seq![i, j] =~= seq![i] + seq![j]);
    lemma_run_append(seq![i], seq![j], s, enter, exit, arity, callee);
    lemma_run_one(i, s, enter, exit, arity, callee);
    lemma_run_one(j, step(i, s, enter, exit, arity, callee), enter, exit, arity, callee);
}

proof fn lemma_run_gets(lo: nat, n: nat, s: Machine, enter: u32, exit: u32, arity: nat, callee: Callee)
    requires
        lo + n <= s.locals.len(),
        lo + n <= u32::MAX,
    ensures
        run(local_gets(lo, n), s, enter, exit, arity, callee) == (Machine {
            stack: s.stack + s.locals.subrange(lo as int, (lo + n) as int),
            ..s
        }),
    decreases n,
{
    if n == 0 {
        assert(s.stack + s.locals.subrange(lo as int, lo as int) =~= s.stack);
        assert(local_gets(lo, 0).len() == 0);
    } else {
        let m = (n - 1) as nat;
        assert(local_gets(lo, n) =~= local_gets(lo, m) + seq![Instr::LocalGet((lo + m) as u32)]);
        lemma_run_append(local_gets(lo, m), seq![Instr::LocalGet((lo + m) as u32)], s, enter, exit, arity, callee);
        lemma_run_gets(lo, m, s, enter, exit, arity, callee);
        let mid = Machine { stack: s.stack + s.locals.subrange(lo as int, (lo + m) as int), ..s };
        lemma_run_one(Instr::LocalGet((lo + m) as u32), mid, enter, exit, arity, callee);
        assert(mid.stack.push(s.locals[(lo + m) as int]) =~= s.stack + s.locals.subrange(lo as int, (lo + n) as int));
    }
}

proof fn lemma_run_sets_rev(lo: nat, n: nat, s: Machine, enter: u32, exit: u32, arity: nat, callee: Callee)
    requires
        lo + n <= s.locals.len(),
        lo + n <= u32::MAX,
        n <= s.stack.len(),
    ensures
        run(local_sets_rev(lo, n), s, enter, exit, arity, callee) == (Machine {
            stack: s.stack.subrange(0, s.stack.len() - n),
            locals: s.locals.subrange(0, lo as int) + s.stack.subrange(s.stack.len() - n, s.stack.len() as int)
                + s.locals.subrange((lo + n) as int, s.locals.len() as int),
            ..s
        }),
    decreases n,
{
    let len = s.stack.len();
    if n == 0 {
        assert(s.stack.subrange(0, len as int) =~= s.stack);
        assert(s.locals.subrange(0, lo as int) + s.stack.subrange(len as int, len as int) + s.locals.subrange(
            lo as int,
            s.locals.len() as int,
        ) =~= s.locals);
    } else {
        let m = (n - 1) as nat;
        let first = Instr::LocalSet((lo + m) as u32);
        assert(local_sets_rev(lo, n) =~= seq![first] + local_sets_rev(lo, m));
        lemma_run_append(seq![first], local_sets_rev(lo, m), s, enter, exit, arity, callee);
        lemma_run_one(first, s, enter, exit, arity, callee);
        let mid = step(first, s, enter, exit, arity, callee);
        assert(run(seq![first], s, enter, exit, arity, callee) == mid);
        assert(mid.stack == pop(s.stack));
        lemma_run_sets_rev(lo, m, mid, enter, exit, arity, callee);
        assert(mid.stack.subrange(0, mid.stack.len() - m) =~= s.stack.subrange(0, len - n));
        assert(mid.locals.subrange(0, lo as int) + mid.stack.subrange(mid.stack.len() - m, mid.stack.len() as int)
            + mid.locals.subrange((lo + m) as int, mid.locals.len() as int) =~= s.locals.subrange(0, lo as int)
            + s.stack.subrange(len - n, len as int) + s.locals.subrange((lo + n) as int, s.locals.len() as int));
    }
}

/// What running a shim does, step by step: the final stack holds exactly
/// the wrapped function's results, and the hook calls are the entry of
/// `id`, then whatever the wrapped function reported, then the exit of `id`.
pub proof fn lemma_shim_run(id: u32, enter: u32, exit: u32, n_results: nat, args: Seq<int>, callee: Callee)
    requires
        shim_ids_ok(id, enter, exit, args.len(), n_results),
        callee(args).0.len() == n_results,
    ensures
        run_shim(id, enter, exit, n_results, args, callee).stack == callee(args).0,
        run_shim(id, enter, exit, n_results, args, callee).events == seq![HookEvent::Enter(id as int)]
            + callee(args).1 + seq![HookEvent::Exit(id as int)],
{
    let p = args.len();
    let r = n_results;
    let ar = p;
    let s0 = activation(args, r);
    let a1 = seq![Instr::I32Const(id as i32), Instr::Call(enter)];
    let a2 = local_gets(0, p);
    let a3 = seq![Instr::Call(id)];
    let a4 = local_sets_rev(p, r);
    let a5 = seq![Instr::I32Const(id as i32), Instr::Call(exit)];
    let a6 = local_gets(p, r);
    assert(shim_template(id, enter, exit, p, r) == a1 + a2 + a3 + a4 + a5 + a6);
    lemma_run_append(a1 + a2 + a3 + a4 + a5, a6, s0, enter, exit, ar, callee);
    lemma_run_append(a1 + a2 + a3 + a4, a5, s0, enter, exit, ar, callee);
    lemma_run_append(a1 + a2 + a3, a4, s0, enter, exit, ar, callee);
    lemma_run_append(a1 + a2, a3, s0, enter, exit, ar, callee);
    lemma_run_append(a1, a2, s0, enter, exit, ar, callee);

    // entry hook
    let t1 = step(Instr::I32Const(id as i32), s0, enter, exit, ar, callee);
    let s1 = step(Instr::Call(enter), t1, enter, exit, ar, callee);
    lemma_run_two(Instr::I32Const(id as i32), Instr::Call(enter), s0, enter, exit, ar, callee);
    assert(run(a1, s0, enter, exit, ar, callee) == s1);
    assert(s1.stack =~= Seq::<int>::empty());
    assert(s1.events =~= seq![HookEvent::Enter(id as int)]);
    assert(s1.locals == s0.locals);

    // forward the parameters
    lemma_run_gets(0, p, s1, enter, exit, ar, callee);
    let s2 = run(a2, s1, enter, exit, ar, callee);
    assert(s0.locals.subrange(0, p as int) =~= args);
    assert(s2.stack =~= args);

    // call the wrapped function
    let s3 = step(Instr::Call(id), s2, enter, exit, ar, callee);
    lemma_run_one(Instr::Call(id), s2, enter, exit, ar, callee);
    assert(run(a3, s2, enter, exit, ar, callee) == s3);
    assert(s2.stack.subrange(0, 0) + callee(args).0 =~= callee(args).0);
    assert(s2.stack.subrange(0, p as int) =~= args);
    assert(s3.stack == callee(args).0);
    assert(s3.events == s1.events + callee(args).1);

    // park the results
    lemma_run_sets_rev(p, r, s3, enter, exit, ar, callee);
    let s4 = run(a4, s3, enter, exit, ar, callee);
    assert(s4.stack =~= Seq::<int>::empty());
    assert(s4.locals.subrange(p as int, (p + r) as int) =~= callee(args).0);
    assert(s4.events == s3.events);

    // exit hook
    let t5 = step(Instr::I32Const(id as i32), s4, enter, exit, ar, callee);
    let s5 = step(Instr::Call(exit), t5, enter, exit, ar, callee);
    lemma_run_two(Instr::I32Const(id as i32), Instr::Call(exit), s4, enter, exit, ar, callee);
    assert(run(a5, s4, enter, exit, ar, callee) == s5);
    assert(s5.stack =~= Seq::<int>::empty());
    assert(s5.events == s4.events.push(HookEvent::Exit(id as int)));

    // push the results back
    lemma_run_gets(p, r, s5, enter, exit, ar, callee);
    let s6 = run(a6, s5, enter, exit, ar, callee);
    assert(s6.stack =~= callee(args).0);
    assert(s6.events =~= seq![HookEvent::Enter(id as int)] + callee(args).1 + seq![HookEvent::Exit(id as int)]);
}

/// Instrumentation is transparent: for any arguments, the shim returns
/// exactly what the wrapped function returns on them.
pub proof fn lemma_results_preserved(id: u32, enter: u32, exit: u32, n_results: nat, args: Seq<int>, callee: Callee)
    requires
        shim_ids_ok(id, enter, exit, args.len(), n_results),
        callee(args).0.len() == n_results,
    ensures
        run_shim(id, enter, exit, n_results, args, callee).stack == callee(args).0,
{
    lemma_shim_run(id, enter, exit, n_results, args, callee);
}

/// A call of a shim whose wrapped function makes no hook calls reports
/// exactly one entry and then exactly one exit, both carrying the wrapped
/// function's id.
pub proof fn lemma_one_enter_one_exit(id: u32, enter: u32, exit: u32, n_results: nat, args: Seq<int>, callee: Callee)
    requires
        shim_ids_ok(id, enter, exit, args.len(), n_results),
        callee(args).0.len() == n_results,
        callee(args).1.len() == 0,
    ensures
        run_shim(id, enter, exit, n_results, args, callee).events == seq![
            HookEvent::Enter(id as int),
            HookEvent::Exit(id as int),
        ],
{
    lemma_shim_run(id, enter, exit, n_results, args, callee);
    assert(seq![HookEvent::Enter(id as int)] + callee(args).1 + seq![HookEvent::Exit(id as int)] =~= seq![
        HookEvent::Enter(id as int),
        HookEvent::Exit(id as int),
    ]);
}

/// Nesting: when the function wrapped by shim `a` itself calls the shim of
/// `b` (which reports `enter(b)`, then `inner`, then `exit(b)`), the hook
/// calls are `enter(a), enter(b), inner, exit(b), exit(a)`.
pub proof fn lemma_nested_calls(
    a: u32,
    b: int,
    enter: u32,
    exit: u32,
    n_results: nat,
    args: Seq<int>,
    inner: Seq<HookEvent>,
    callee: Callee,
)
    requires
        shim_ids_ok(a, enter, exit, args.len(), n_results),
        callee(args).0.len() == n_results,
        callee(args).1 == seq![HookEvent::Enter(b)] + inner + seq![HookEvent::Exit(b)],
    ensures
        run_shim(a, enter, exit, n_results, args, callee).events == seq![
            HookEvent::Enter(a as int),
            HookEvent::Enter(b),
        ] + inner + seq![HookEvent::Exit(b), HookEvent::Exit(a as int)],
{
    lemma_shim_run(a, enter, exit, n_results, args, callee);
    assert(seq![HookEvent::Enter(a as int)] + (seq![HookEvent::Enter(b)] + inner + seq![HookEvent::Exit(b)])
        + seq![HookEvent::Exit(a as int)] =~= seq![HookEvent::Enter(a as int), HookEvent::Enter(b)] + inner
        + seq![HookEvent::Exit(b), HookEvent::Exit(a as int)]);
}

/// Is every operand of `i` in range for a shim of `id`: the constant `id`,
/// a call of the wrapped function or of a hook, a local among the first
/// `n_locals`?
pub open spec fn operands_in_range(i: Instr, id: u32, enter: u32, exit: u32, n_locals: nat) -> bool {
    match i {
        Instr::I32Const(c) => c == id as i32,
        Instr::Call(f) => f == id || f == enter || f == exit,
        Instr::LocalGet(l) => l < n_locals,
        Instr::LocalSet(l) => l < n_locals,
    }
}

/// A shim body only calls the function it wraps and the two hooks, and
/// only touches its parameters and its result locals.
pub proof fn lemma_shim_operands(id: u32, enter: u32, exit: u32, n_params: nat, n_results: nat)
    requires
        n_params + n_results <= u32::MAX,
    ensures
        forall|i: int|
            0 <= i < shim_template(id, enter, exit, n_params, n_results).len() ==> operands_in_range(
                #[trigger] shim_template(id, enter, exit, n_params, n_results)[i],
                id,
                enter,
                exit,
                n_params + n_results,
            ),
{
    let body = shim_template(id, enter, exit, n_params, n_results);
    let a1 = seq![Instr::I32Const(id as i32), Instr::Call(enter)];
    let a2 = local_gets(0, n_params);
    let a3 = seq![Instr::Call(id)];
    let a4 = local_sets_rev(n_params, n_results);
    let a5 = seq![Instr::I32Const(id as i32), Instr::Call(exit)];
    let a6 = local_gets(n_params, n_results);
    assert(body == a1 + a2 + a3 + a4 + a5 + a6);
    let n = n_params + n_results;
    assert forall|i: int| 0 <= i < body.len() implies operands_in_range(#[trigger] body[i], id, enter, exit, n) by {
        let b1 = a1.len() as int;
        let b2 = b1 + a2.len();
        let b3 = b2 + 1;
        let b4 = b3 + a4.len();
        let b5 = b4 + 2;
        if i < b1 {
            assert(body[i] == a1[i]);
        } else if i < b2 {
            assert(body[i] == a2[i - b1]);
        } else if i < b3 {
            assert(body[i] == a3[i - b2]);
        } else if i < b4 {
            assert(body[i] == a4[i - b3]);
        } else if i < b5 {
            assert(body[i] == a5[i - b4]);
        } else {
            assert(body[i] == a6[i - b5]);
        }
    }
}

/// Builds the shim body of function `id`.
pub fn shim_body(id: u32, enter: u32, exit: u32, n_params: u32, n_results: u32) -> (r: Vec<Instr>)
    requires
        id <= i32::MAX,
        n_params + n_results <= u32::MAX,
    ensures
        r@ == shim_template(id, enter, exit, n_params as nat, n_results as nat),
{
    let mut body: Vec<Instr> = Vec::new();
    body.push(Instr::I32Const(id as i32));
    body.push(Instr::Call(enter));
    let mut k: u32 = 0;
    while k < n_params
        invariant
            k <= n_params,
            body@ == seq![Instr::I32Const(id as i32), Instr::Call(enter)] + local_gets(0, k as nat),
        decreases n_params - k,
    {
        body.push(Instr::LocalGet(k));
        k = k + 1;
        assert(body@ =~= seq![Instr::I32Const(id as i32), Instr::Call(enter)] + local_gets(0, k as nat));
    }
    body.push(Instr::Call(id));
    let ghost head = body@;
    let mut j: u32 = 0;
    while j < n_results
        invariant
            j <= n_results,
            n_params + n_results <= u32::MAX,
            body@ == head + Seq::new(j as nat, |i: int| Instr::LocalSet((n_params + n_results - 1 - i) as u32)),
        decreases n_results - j,
    {
        body.push(Instr::LocalSet(n_params + n_results - 1 - j));
        j = j + 1;
        assert(body@ =~= head + Seq::new(j as nat, |i: int| Instr::LocalSet((n_params + n_results - 1 - i) as u32)));
    }
    assert(body@ =~= head + local_sets_rev(n_params as nat, n_results as nat));
    body.push(Instr::I32Const(id as i32));
    body.push(Instr::Call(exit));
    let ghost mid = body@;
    let mut g: u32 = 0;
    while g < n_results
        invariant
            g <= n_results,
            n_params + n_results <= u32::MAX,
            body@ == mid + local_gets(n_params as nat, g as nat),
        decreases n_results - g,
    {
        body.push(Instr::LocalGet(n_params + g));
        g = g + 1;
        assert(body@ =~= mid + local_gets(n_params as nat, g as nat));
    }
    assert(body@ =~= shim_template(id, enter, exit, n_params as nat, n_results as nat));
    body
}

} // verus!
