use vstd::prelude::*;
use crate::model::{FunctionDescriptor, FunctionView, ModuleModel, opt_string_view};
use crate::shim::{lemma_shim_run, run_shim, shim_ids_ok, Callee, HookEvent};

verus! {

/// A point in time, as seconds and nanoseconds since the Unix epoch.
#[derive(Clone, Copy, Debug, PartialEq, Eq, Structural)]
pub struct Timestamp {
    pub secs: u64,
    pub nanos: u32,
}

/// One call of an instrumented function: the function's id and name, when
/// it was entered and when it returned (equal to `start` while in flight).
pub struct FunctionCall {
    pub index: i32,
    pub name: String,
    pub start: Timestamp,
    pub end: Timestamp,
}

pub struct CallView {
    pub index: int,
    pub name: Seq<char>,
    pub start: Timestamp,
    pub end: Timestamp,
}

impl View for FunctionCall {
    type V = CallView;

    open spec fn view(&self) -> CallView {
        CallView { index: self.index as int, name: self.name@, start: self.start, end: self.end }
    }
}

/// The call stack of one execution context: the calls entered and not yet
/// exited, innermost last.
pub struct FCLogs {
    pub function_calls: Vec<FunctionCall>,
}

impl View for FCLogs {
    type V = Seq<CallView>;

    open spec fn view(&self) -> Seq<CallView> {
        self.function_calls@.map_values(|c: FunctionCall| c@)
    }
}

/// The function names of a module, by function id; read only once built.
pub struct FunctionNameIndex {
    names: Vec<Option<String>>,
}

impl View for FunctionNameIndex {
    type V = Seq<Option<Seq<char>>>;

    closed spec fn view(&self) -> Seq<Option<Seq<char>>> {
        self.names@.map_values(|o: Option<String>| opt_string_view(o))
    }
}

/// A breach of the hook protocol; the execution context that meets one
/// must stop, since its trace can no longer be trusted.
#[derive(Clone, Copy, Debug, PartialEq, Eq, Structural)]
pub enum HookError {
    /// `instrument_enter` carried an id that names no function.
    UnknownFunction(i32),
    /// `instrument_exit` came with no call in flight.
    EmptyStack,
}

/// The names of a module's functions, by id.
pub open spec fn names_of(fns: Seq<FunctionView>) -> Seq<Option<Seq<char>>> {
    fns.map_values(|f: FunctionView| f.name)
}

/// Does `id` name a function in `names`?
pub open spec fn resolves(names: Seq<Option<Seq<char>>>, id: int) -> bool {
    0 <= id < names.len() && names[id] is Some
}

/// The stack of function ids after entering `id`, or `None` when `id`
/// names no function.
pub open spec fn push_frame(names: Seq<Option<Seq<char>>>, stack: Seq<int>, id: int) -> Option<Seq<int>> {
    if resolves(names, id) {
        Some(stack.push(id))
    } else {
        None
    }
}

/// The stack of function ids after an exit, or `None` when no call is in flight.
pub open spec fn pop_frame(stack: Seq<int>) -> Option<Seq<int>> {
    if stack.len() == 0 {
        None
    } else {
        Some(stack.drop_last())
    }
}

/// The stack of function ids after one hook call, or `None` when the call
/// breaks the protocol.
pub open spec fn hook_step(names: Seq<Option<Seq<char>>>, stack: Seq<int>, ev: HookEvent) -> Option<Seq<int>> {
    match ev {
        HookEvent::Enter(id) => push_frame(names, stack, id),
        HookEvent::Exit(_) => pop_frame(stack),
    }
}

/// The stack of function ids after a sequence of hook calls.
pub open spec fn run_hooks(names: Seq<Option<Seq<char>>>, stack: Seq<int>, evs: Seq<HookEvent>) -> Option<Seq<int>>
    decreases evs.len(),
{
    if evs.len() == 0 {
        Some(stack)
    } else {
        match hook_step(names, stack, evs[0]) {
            Some(next) => run_hooks(names, next, evs.drop_first()),
            None => None,
        }
    }
}

impl FunctionNameIndex {
    /// Builds the index of a model's function names.
    pub fn from_model(m: &ModuleModel) -> (r: FunctionNameIndex)
        ensures
            r@ == names_of(m@.functions),
    {
        let mut names: Vec<Option<String>> = Vec::new();
        let mut i: usize = 0;
        while i < m.functions.len()
            invariant
                i <= m.functions.len(),
                names@.len() == i,
                forall|k: int|
                    0 <= k < i ==> opt_string_view(#[trigger] names@[k]) == m@.functions[k].name,
            decreases m.functions.len() - i,
        {
            let f: &FunctionDescriptor = &m.functions[i];
            let name = match &f.name {
                Some(s) => Some(s.clone()),
                None => None,
            };
            names.push(name);
            i = i + 1;
        }
        let r = FunctionNameIndex { names };
        assert(r@ =~= names_of(m@.functions));
        r
    }

    /// The name of function `id`, if it has one.
    pub fn lookup(&self, id: i32) -> (r: Option<String>)
        ensures
            r is Some <==> resolves(self@, id as int),
            r matches Some(s) ==> s@ == self@[id as int]->Some_0,
    {
        if id < 0 || id as usize >= self.names.len() {
            return None;
        }
        match &self.names[id as usize] {
            Some(s) => Some(s.clone()),
            None => None,
        }
    }
}

impl FCLogs {
    /// The ids on the stack, outermost first.
    pub open spec fn frame_ids(self) -> Seq<int> {
        self@.map_values(|c: CallView| c.index)
    }

    /// An empty call stack.
    pub fn new() -> (r: FCLogs)
        ensures
            r@.len() == 0,
    {
        FCLogs { function_calls: Vec::new() }
    }

    /// Number of calls in flight.
    pub fn depth(&self) -> (r: usize)
        ensures
            r == self@.len(),
    {
        self.function_calls.len()
    }

    /// The `instrument_enter` hook: resolves `id` to its name and pushes a
    /// new call started `now`. Returns the record to append to the trace,
    /// whose end equals its start.
    pub fn enter(&mut self, names: &FunctionNameIndex, id: i32, now: Timestamp) -> (r: Result<
        FunctionCall,
        HookError,
    >)
        ensures
            r is Ok <==> resolves(names@, id as int),
            r is Err ==> r == Err::<FunctionCall, HookError>(HookError::UnknownFunction(id)) && final(self)@
                == old(self)@,
            r matches Ok(c) ==> {
                &&& c@ == CallView { index: id as int, name: names@[id as int]->Some_0, start: now, end: now }
                &&& final(self)@ == old(self)@.push(c@)
            },
            push_frame(names@, old(self).frame_ids(), id as int) == if r is Ok {
                Some(final(self).frame_ids())
            } else {
                None
            },
    {
        match names.lookup(id) {
            None => Err(HookError::UnknownFunction(id)),
            Some(name) => {
                let record = FunctionCall { index: id, name: name.clone(), start: now, end: now };
                self.function_calls.push(FunctionCall { index: id, name, start: now, end: now });
                proof {
                    assert(self@ =~= old(self)@.push(record@));
                    assert(self.frame_ids() =~= old(self).frame_ids().push(id as int));
                }
                Ok(record)
            },
        }
    }

    /// The `instrument_exit` hook: pops the innermost call and stamps its
    /// end with `now`. Returns the finished record. The id the hook carries
    /// is not compared with the popped call's.
    pub fn exit(&mut self, id: i32, now: Timestamp) -> (r: Result<FunctionCall, HookError>)
        ensures
            r is Err <==> old(self)@.len() == 0,
            r is Err ==> r == Err::<FunctionCall, HookError>(HookError::EmptyStack) && final(self)@ == old(self)@,
            r matches Ok(c) ==> {
                let top = old(self)@.last();
                &&& c@ == CallView { end: now, ..top }
                &&& final(self)@ == old(self)@.drop_last()
            },
            pop_frame(old(self).frame_ids()) == if r is Ok {
                Some(final(self).frame_ids())
            } else {
                None
            },
    {
        match self.function_calls.pop() {
            None => Err(HookError::EmptyStack),
            Some(call) => {
                proof {
                    assert(self@ =~= old(self)@.drop_last());
                    assert(self.frame_ids() =~= old(self).frame_ids().drop_last());
                }
                Ok(FunctionCall { end: now, ..call })
            },
        }
    }
}

pub open spec fn delta(ev: HookEvent) -> int {
    match ev {
        HookEvent::Enter(_) => 1,
        HookEvent::Exit(_) => -1,
    }
}

/// Entries minus exits.
pub open spec fn net(evs: Seq<HookEvent>) -> int
    decreases evs.len(),
{
    if evs.len() == 0 {
        0
    } else {
        delta(evs[0]) + net(evs.drop_first())
    }
}

/// Started at depth `d`, the depth never goes below zero.
pub open spec fn never_below(evs: Seq<HookEvent>, d: int) -> bool
    decreases evs.len(),
{
    if evs.len() == 0 {
        true
    } else {
        d + delta(evs[0]) >= 0 && never_below(evs.drop_first(), d + delta(evs[0]))
    }
}

/// Every exit closes an earlier entry, and every entry is closed.
pub open spec fn balanced(evs: Seq<HookEvent>) -> bool {
    never_below(evs, 0) && net(evs) == 0
}

/// Every entry names a function of `names`.
pub open spec fn enters_resolve(names: Seq<Option<Seq<char>>>, evs: Seq<HookEvent>) -> bool {
    forall|i: int| 0 <= i < evs.len() ==> (#[trigger] evs[i] matches HookEvent::Enter(id) ==> resolves(names, id))
}

/// All the sequences of `calls`, one after the other.
pub open spec fn concat_all(calls: Seq<Seq<HookEvent>>) -> Seq<HookEvent>
    decreases calls.len(),
{
    if calls.len() == 0 {
        Seq::empty()
    } else {
        concat_all(calls.drop_last()) + calls.last()
    }
}

proof fn lemma_run_hooks_depth(names: Seq<Option<Seq<char>>>, s: Seq<int>, evs: Seq<HookEvent>)
    requires
        enters_resolve(names, evs),
        never_below(evs, s.len() as int),
    ensures
        run_hooks(names, s, evs) is Some,
        run_hooks(names, s, evs)->Some_0.len() == s.len() + net(evs),
    decreases evs.len(),
{
    if evs.len() > 0 {
        let rest = evs.drop_first();
        assert forall|i: int| 0 <= i < rest.len() implies (#[trigger] rest[i] matches HookEvent::Enter(id) ==> resolves(names, id)) by {
            assert(rest[i] == evs[i + 1]);
        }
        match evs[0] {
            HookEvent::Enter(id) => {
                lemma_run_hooks_depth(names, s.push(id), rest);
            },
            HookEvent::Exit(_) => {
                lemma_run_hooks_depth(names, s.drop_last(), rest);
            },
        }
    }
}

proof fn lemma_concat_depth(a: Seq<HookEvent>, b: Seq<HookEvent>, d: int)
    ensures
        net(a + b) == net(a) + net(b),
        never_below(a, d) && never_below(b, d + net(a)) ==> never_below(a + b, d),
    decreases a.len(),
{
    if a.len() == 0 {
        assert(a + b =~= b);
    } else {
        assert((a + b).drop_first() =~= a.drop_first() + b);
        assert((a + b)[0] == a[0]);
        lemma_concat_depth(a.drop_first(), b, d + delta(a[0]));
    }
}

proof fn lemma_never_below_monotone(evs: Seq<HookEvent>, d: int, e: int)
    requires
        never_below(evs, d),
        d <= e,
    ensures
        never_below(evs, e),
    decreases evs.len(),
{
    if evs.len() > 0 {
        lemma_never_below_monotone(evs.drop_first(), d + delta(evs[0]), e + delta(evs[0]));
    }
}

proof fn lemma_single_depth(ev: HookEvent)
    ensures
        net(seq![ev]) == delta(ev),
        never_below(seq![ev], -delta(ev)),
{
    reveal_with_fuel(net, 2);
    reveal_with_fuel(never_below, 2);
    assert(seq![ev].drop_first() =~= Seq::<HookEvent>::empty());
}

/// A shim call is balanced whenever the wrapped function's own hook calls
/// are: its entry comes first, its exit last.
pub proof fn lemma_shim_call_balanced(id: u32, enter: u32, exit: u32, n_results: nat, args: Seq<int>, callee: Callee)
    requires
        shim_ids_ok(id, enter, exit, args.len(), n_results),
        callee(args).0.len() == n_results,
        balanced(callee(args).1),
    ensures
        balanced(run_shim(id, enter, exit, n_results, args, callee).events),
{
    lemma_shim_run(id, enter, exit, n_results, args, callee);
    let head = seq![HookEvent::Enter(id as int)];
    let inner = callee(args).1;
    let tail = seq![HookEvent::Exit(id as int)];
    lemma_single_depth(HookEvent::Enter(id as int));
    lemma_single_depth(HookEvent::Exit(id as int));
    lemma_never_below_monotone(inner, 0, 1);
    lemma_never_below_monotone(head, -1, 0);
    lemma_concat_depth(inner, tail, 1);
    lemma_concat_depth(head, inner + tail, 0);
    assert(head + inner + tail =~= head + (inner + tail));
}

/// The call stack is empty again after any number of completed top-level
/// calls: run from an empty stack, the hook calls of a sequence of calls,
/// each balanced and entering only functions that have a name, never
/// break the protocol and leave the stack empty.
pub proof fn lemma_stack_balanced(names: Seq<Option<Seq<char>>>, calls: Seq<Seq<HookEvent>>)
    requires
        forall|i: int| 0 <= i < calls.len() ==> balanced(#[trigger] calls[i]),
        forall|i: int| 0 <= i < calls.len() ==> enters_resolve(names, #[trigger] calls[i]),
    ensures
        run_hooks(names, Seq::empty(), concat_all(calls)) == Some(Seq::<int>::empty()),
{
    lemma_concat_all(names, calls);
    lemma_run_hooks_depth(names, Seq::empty(), concat_all(calls));
    assert(run_hooks(names, Seq::empty(), concat_all(calls))->Some_0 =~= Seq::<int>::empty());
}

proof fn lemma_concat_all(names: Seq<Option<Seq<char>>>, calls: Seq<Seq<HookEvent>>)
    requires
        forall|i: int| 0 <= i < calls.len() ==> balanced(#[trigger] calls[i]),
        forall|i: int| 0 <= i < calls.len() ==> enters_resolve(names, #[trigger] calls[i]),
    ensures
        balanced(concat_all(calls)),
        enters_resolve(names, concat_all(calls)),
    decreases calls.len(),
{
    if calls.len() > 0 {
        let init = calls.drop_last();
        assert forall|i: int| 0 <= i < init.len() implies balanced(#[trigger] init[i]) by {
            assert(init[i] == calls[i]);
        }
        assert forall|i: int| 0 <= i < init.len() implies enters_resolve(names, #[trigger] init[i]) by {
            assert(init[i] == calls[i]);
        }
        lemma_concat_all(names, init);
        let a = concat_all(init);
        let b = calls.last();
        assert(balanced(calls[calls.len() - 1]));
        assert(enters_resolve(names, calls[calls.len() - 1]));
        lemma_concat_depth(a, b, 0);
        assert forall|i: int| 0 <= i < (a + b).len() implies (#[trigger] (a + b)[i] matches HookEvent::Enter(id) ==> resolves(names, id)) by {
            if i < a.len() {
                assert((a + b)[i] == a[i]);
            } else {
                assert((a + b)[i] == b[i - a.len()]);
            }
        }
    }
}

} // verus!
