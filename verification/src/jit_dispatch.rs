//! What a call of a hot function does: run native code, get it first, or leave the
//! call to the interpreter.
use std::rc::Rc;
use vstd::prelude::*;

use crate::jit_cache::{CacheEntry, CompiledLeaf, JitCache, OsrEntry, Runtime};
use crate::jit_cache;

verus! {

/// What a call knows of its function and of the world.
#[derive(Debug, Clone, Copy)]
pub struct CallFacts {
    /// How many arguments the call has.
    pub nargs: usize,
    /// The call has an evaluator; then `function_epoch` is the state of its function
    /// table.
    pub has_context: bool,
    pub function_epoch: u64,
    /// No optional or rest parameters.
    pub required_only: bool,
    /// Code may be loaded.
    pub aot_enabled: bool,
    /// A verified hash of preloaded code is known for the function.
    pub has_prewarm_hash: bool,
    /// The highest id that may run natively.
    pub max_id: u64,
    /// The heap of the thread.
    pub heap: Option<u64>,
}

impl CallFacts {
    pub open spec fn epoch(self) -> Option<u64> {
        if self.has_context {
            Some(self.function_epoch)
        } else {
            None
        }
    }

    /// The function's code is announced by the native cache, and nothing else.
    pub open spec fn from_native_cache(self, rt: Runtime) -> bool {
        rt.aot_prewarmed && !self.has_prewarm_hash
    }

    /// Loaded code bakes every constant, so it serves only plain bodies.
    pub open spec fn may_load(self, rt: Runtime) -> bool {
        self.aot_enabled && self.required_only && rt.patched_prefix == 0
    }
}

/// What has happened to a call so far.
#[derive(Debug)]
pub enum DispatchEvent {
    /// It has just been made.
    Called,
    /// The native cache was asked.
    NativeCacheHit(CompiledLeaf),
    NativeCacheMiss,
    /// Preloaded code was asked for.
    AotHit(CompiledLeaf),
    AotMiss,
    /// The body was compiled, or could not be.
    Compiled(CompiledLeaf),
    NotCompilable,
}

/// What the call does next.
pub enum DispatchAction {
    /// The interpreter runs the body.
    Interpret,
    /// Ask the native cache.
    AskNativeCache,
    /// Ask for preloaded code.
    LoadAot,
    /// Compile the body.
    Compile,
    /// Run this leaf.
    Run(Rc<CompiledLeaf>),
}

/// What a call does with what is kept for its function.
pub open spec fn use_entry(e: Option<CacheEntry>, nargs: usize) -> Option<CompiledLeaf> {
    match e {
        Some(CacheEntry::Compiled(leaf)) => if leaf.takes(nargs) {
            Some(*leaf)
        } else {
            None
        },
        _ => None,
    }
}

/// The action runs exactly this leaf, or leaves the call to the interpreter.
pub open spec fn runs(a: DispatchAction, leaf: Option<CompiledLeaf>) -> bool {
    match leaf {
        Some(l) => a matches DispatchAction::Run(r) && *r == l,
        None => a is Interpret,
    }
}

/// What is kept for the function once code that inlined changed functions is gone.
pub open spec fn fresh_entry(c: JitCache, id: u64, epoch: Option<u64>) -> Option<CacheEntry> {
    if jit_cache::stale_inline(c.compiled.at(id), epoch) {
        None
    } else {
        c.compiled.at(id)
    }
}

/// The function's announcement is taken back, and the interpreter runs it.
pub open spec fn refuses(call: CallFacts, rt: Runtime) -> bool {
    call.from_native_cache(rt) && (rt.patched_prefix != 0 || (rt.compiled_id <= call.max_id
        && !call.has_context))
}

/// The cache is asked, and code that inlined changed functions goes.
pub open spec fn looks_up(event: DispatchEvent, call: CallFacts, rt: Runtime) -> bool {
    match event {
        DispatchEvent::Called => !call.from_native_cache(rt) && rt.compiled_id <= call.max_id,
        DispatchEvent::NativeCacheHit(_) => true,
        _ => false,
    }
}

/// Something is stored for the function.
pub open spec fn stores(c: JitCache, event: DispatchEvent, call: CallFacts, rt: Runtime) -> bool {
    match event {
        DispatchEvent::NativeCacheHit(_) => fresh_entry(
            c,
            rt.compiled_id,
            call.epoch(),
        ) is None,
        DispatchEvent::AotHit(_) => c.compiled.at(rt.compiled_id) is None,
        DispatchEvent::Compiled(_) | DispatchEvent::NotCompilable => true,
        _ => false,
    }
}

fn run_or_interpret(cache: &JitCache, id: u64, nargs: usize) -> (r: DispatchAction)
    ensures
        runs(r, use_entry(cache.compiled.at(id), nargs)),
{
    match cache.compiled.get(id) {
        Some(CacheEntry::Compiled(leaf)) => if leaf.accepts(nargs) {
            DispatchAction::Run(Rc::clone(leaf))
        } else {
            DispatchAction::Interpret
        },
        _ => DispatchAction::Interpret,
    }
}

/// Keeps `leaf` for `id` unless something is kept already.
fn keep_leaf(cache: &mut JitCache, id: u64, leaf: CompiledLeaf, heap: Option<u64>)
    requires
        id < usize::MAX,
    ensures
        old(cache).wf() && heap is Some ==> final(cache).wf(),
        jit_cache::same_but(*final(cache), *old(cache), id),
        old(cache).compiled.at(id) is Some ==> final(cache).compiled.at(id) == old(
            cache,
        ).compiled.at(id),
        old(cache).compiled.at(id) is None ==> final(cache).compiled.leaf_at(id) == Some(leaf),
        final(cache).inline_deps == old(cache).inline_deps,
        final(cache).compiled.retired@ == old(cache).compiled.retired@,
        final(cache).compiled_heap == if old(cache).compiled.at(id) is None {
            jit_cache::pinned(old(cache).compiled_heap, heap)
        } else {
            old(cache).compiled_heap
        },
{
    if cache.compiled.get(id).is_none() {
        cache.store(id, CacheEntry::Compiled(Rc::new(leaf)), heap);
    }
}

/// What a call of the function `rt` does once `event` has happened. The cache is
/// asked first; code is got only where nothing is kept, and what comes of that is
/// kept. A call that the native cache cannot serve goes to the interpreter, and the
/// announcement is taken back: it must neither fill the cache nor compile early.
pub fn try_run_compiled(
    cache: &mut JitCache,
    rt: &mut Runtime,
    call: &CallFacts,
    event: DispatchEvent,
) -> (r: DispatchAction)
    requires
        0 < old(rt).compiled_id < usize::MAX,
    ensures
        old(cache).wf() && call.heap is Some ==> final(cache).wf(),
        final(rt).compiled_id == old(rt).compiled_id,
        final(rt).patched_prefix == old(rt).patched_prefix,
        jit_cache::same_but(*final(cache), *old(cache), old(rt).compiled_id),
        final(cache).compiled.retired@ == jit_cache::retiring(
            old(cache).compiled.retired@,
            old(cache).compiled.at(old(rt).compiled_id),
            looks_up(event, *call, *old(rt)) && jit_cache::stale_inline(
                old(cache).compiled.at(old(rt).compiled_id),
                call.epoch(),
            ),
        ),
        final(cache).compiled_heap == if stores(*old(cache), event, *call, *old(rt)) {
            jit_cache::pinned(old(cache).compiled_heap, call.heap)
        } else {
            old(cache).compiled_heap
        },
        !(event is Compiled) ==> final(cache).inline_deps == old(cache).inline_deps,
        ({
            let id = old(rt).compiled_id;
            let before = fresh_entry(*old(cache), id, call.epoch());
            match event {
                DispatchEvent::Called => {
                    let announced = call.from_native_cache(*old(rt));
                    let refused = refuses(*call, *old(rt));
                    &&& final(rt).aot_prewarmed == (old(rt).aot_prewarmed && !refused)
                    &&& if refused || id > call.max_id {
                        &&& r is Interpret
                        &&& final(cache).compiled == old(cache).compiled
                    } else if announced {
                        &&& r is AskNativeCache
                        &&& final(cache).compiled == old(cache).compiled
                    } else {
                        &&& final(cache).compiled.at(id) == before
                        &&& if before is Some {
                            runs(r, use_entry(before, call.nargs))
                        } else if call.may_load(*old(rt)) {
                            r is LoadAot
                        } else {
                            r is Compile
                        }
                    }
                },
                DispatchEvent::NativeCacheHit(leaf) => {
                    &&& !final(rt).aot_prewarmed
                    &&& if before is Some {
                        &&& final(cache).compiled.at(id) == before
                        &&& runs(r, use_entry(before, call.nargs))
                    } else {
                        &&& final(cache).compiled.leaf_at(id) == Some(leaf)
                        &&& runs(
                            r,
                            if leaf.takes(call.nargs) {
                                Some(leaf)
                            } else {
                                None
                            },
                        )
                    }
                },
                DispatchEvent::NativeCacheMiss => {
                    &&& !final(rt).aot_prewarmed
                    &&& r is Interpret
                    &&& final(cache).compiled == old(cache).compiled
                },
                DispatchEvent::AotHit(leaf) => {
                    &&& final(rt).aot_prewarmed == old(rt).aot_prewarmed
                    &&& if old(cache).compiled.at(id) is Some {
                        &&& final(cache).compiled.at(id) == old(cache).compiled.at(id)
                        &&& runs(r, use_entry(old(cache).compiled.at(id), call.nargs))
                    } else {
                        &&& final(cache).compiled.leaf_at(id) == Some(leaf)
                        &&& runs(
                            r,
                            if leaf.takes(call.nargs) {
                                Some(leaf)
                            } else {
                                None
                            },
                        )
                    }
                },
                DispatchEvent::AotMiss => {
                    &&& final(rt).aot_prewarmed == old(rt).aot_prewarmed
                    &&& r is Compile
                    &&& final(cache).compiled == old(cache).compiled
                },
                DispatchEvent::Compiled(leaf) => {
                    &&& final(rt).aot_prewarmed == old(rt).aot_prewarmed
                    &&& final(cache).compiled.leaf_at(id) == Some(leaf)
                    &&& jit_cache::deps_joined(
                        old(cache).inline_deps@,
                        final(cache).inline_deps@,
                        id,
                        leaf.inline_deps@,
                    )
                    &&& runs(
                        r,
                        if leaf.takes(call.nargs) {
                            Some(leaf)
                        } else {
                            None
                        },
                    )
                },
                DispatchEvent::NotCompilable => {
                    &&& final(rt).aot_prewarmed == old(rt).aot_prewarmed
                    &&& final(cache).compiled.at(id) == Some(CacheEntry::NotCompilable)
                    &&& r is Interpret
                },
            }
        }),
{
    let id: u64 = rt.compiled_id;
    let epoch: Option<u64> = if call.has_context {
        Some(call.function_epoch)
    } else {
        None
    };
    match event {
        DispatchEvent::Called => {
            let announced: bool = rt.aot_prewarmed && !call.has_prewarm_hash;
            if announced && rt.patched_prefix != 0 {
                rt.aot_prewarmed = false;
                return DispatchAction::Interpret;
            }
            if id > call.max_id {
                return DispatchAction::Interpret;
            }
            if announced {
                if !call.has_context {
                    rt.aot_prewarmed = false;
                    return DispatchAction::Interpret;
                }
                return DispatchAction::AskNativeCache;
            }
            cache.evict_stale_inline_leaf(id, epoch);
            if cache.compiled.get(id).is_some() {
                run_or_interpret(cache, id, call.nargs)
            } else if call.aot_enabled && call.required_only && rt.patched_prefix == 0 {
                DispatchAction::LoadAot
            } else {
                DispatchAction::Compile
            }
        },
        DispatchEvent::NativeCacheHit(leaf) => {
            rt.aot_prewarmed = false;
            cache.evict_stale_inline_leaf(id, epoch);
            keep_leaf(cache, id, leaf, call.heap);
            run_or_interpret(cache, id, call.nargs)
        },
        DispatchEvent::NativeCacheMiss => {
            rt.aot_prewarmed = false;
            DispatchAction::Interpret
        },
        DispatchEvent::AotHit(leaf) => {
            keep_leaf(cache, id, leaf, call.heap);
            run_or_interpret(cache, id, call.nargs)
        },
        DispatchEvent::AotMiss => DispatchAction::Compile,
        DispatchEvent::Compiled(leaf) => {
            cache.compile_cache_entry(id, Some(leaf), call.heap);
            run_or_interpret(cache, id, call.nargs)
        },
        DispatchEvent::NotCompilable => {
            cache.compile_cache_entry(id, None, call.heap);
            DispatchAction::Interpret
        },
    }
}

/// Compiles nothing and loads nothing: keeps `result` for the function, which was
/// compiled on request; the id where that succeeded.
pub fn compile_and_cache_jit_leaf(
    cache: &mut JitCache,
    rt: &Runtime,
    result: Option<CompiledLeaf>,
    heap: Option<u64>,
) -> (r: Option<u64>)
    requires
        0 < rt.compiled_id < usize::MAX,
    ensures
        old(cache).wf() && heap is Some ==> final(cache).wf(),
        jit_cache::same_but(*final(cache), *old(cache), rt.compiled_id),
        final(cache).compiled.retired@ == old(cache).compiled.retired@,
        final(cache).compiled_heap == jit_cache::pinned(old(cache).compiled_heap, heap),
        match result {
            Some(leaf) => {
                &&& r == Some(rt.compiled_id)
                &&& final(cache).compiled.leaf_at(rt.compiled_id) == Some(leaf)
                &&& jit_cache::deps_joined(
                    old(cache).inline_deps@,
                    final(cache).inline_deps@,
                    rt.compiled_id,
                    leaf.inline_deps@,
                )
            },
            None => {
                &&& r is None
                &&& final(cache).compiled.at(rt.compiled_id) == Some(CacheEntry::NotCompilable)
                &&& final(cache).inline_deps == old(cache).inline_deps
            },
        },
{
    let id: u64 = rt.compiled_id;
    match cache.compile_cache_entry(id, result, heap) {
        Some(_) => Some(id),
        None => None,
    }
}

/// How native code ended.
#[derive(Debug, Clone, Copy, PartialEq, Eq, Structural)]
pub enum NativeRun {
    /// With a value.
    Done(u64),
    /// Before any effect: the body can be run again from its start.
    Deopt,
    /// In the middle: the interpreter goes on from there.
    DeoptAt,
    /// With a signal that waits to be raised.
    Signal,
}

/// What a call makes of that.
#[derive(Debug, Clone, Copy, PartialEq, Eq, Structural)]
pub enum RunVerdict {
    Value(u64),
    /// The interpreter runs the body from its start.
    Interpret,
    /// The interpreter goes on where the native code stopped.
    Resume,
    /// The waiting signal is raised.
    Raise,
}

/// What a call makes of how its native code ended. Without an evaluator nothing can
/// be resumed.
pub fn finish_native_run(has_context: bool, outcome: NativeRun) -> (r: RunVerdict)
    ensures
        r == match outcome {
            NativeRun::Done(bits) => RunVerdict::Value(bits),
            NativeRun::Deopt => RunVerdict::Interpret,
            NativeRun::DeoptAt => if has_context {
                RunVerdict::Resume
            } else {
                RunVerdict::Interpret
            },
            NativeRun::Signal => RunVerdict::Raise,
        },
{
    match outcome {
        NativeRun::Done(bits) => RunVerdict::Value(bits),
        NativeRun::Deopt => RunVerdict::Interpret,
        NativeRun::DeoptAt => if has_context {
            RunVerdict::Resume
        } else {
            RunVerdict::Interpret
        },
        NativeRun::Signal => RunVerdict::Raise,
    }
}

/// What a call from native code to native code comes to.
#[derive(Debug, Clone, Copy, PartialEq, Eq, Structural)]
pub enum NativeCallOutcome {
    /// The callee returned this.
    Value(u64),
    /// It could not run natively.
    Fallback,
    /// A signal waits to be raised.
    FlowStashed,
}

impl NativeCallOutcome {
    /// `Err` stands for a signal, which goes to where it waits.
    pub fn from_result(res: Result<u64, ()>) -> (r: NativeCallOutcome)
        ensures
            r == match res {
                Ok(v) => NativeCallOutcome::Value(v),
                Err(_) => NativeCallOutcome::FlowStashed,
            },
    {
        match res {
            Ok(v) => NativeCallOutcome::Value(v),
            Err(_) => NativeCallOutcome::FlowStashed,
        }
    }
}

/// What a call from native code comes to. `resumed` is what the interpreter ended
/// with where it had to go on; `None` where it could not.
pub fn run_resolved_leaf_native(outcome: NativeRun, resumed: Option<Result<u64, ()>>) -> (r:
    NativeCallOutcome)
    ensures
        r == match outcome {
            NativeRun::Done(bits) => NativeCallOutcome::Value(bits),
            NativeRun::Deopt => NativeCallOutcome::Fallback,
            NativeRun::Signal => NativeCallOutcome::FlowStashed,
            NativeRun::DeoptAt => match resumed {
                Some(Ok(v)) => NativeCallOutcome::Value(v),
                Some(Err(_)) => NativeCallOutcome::FlowStashed,
                None => NativeCallOutcome::Fallback,
            },
        },
{
    match outcome {
        NativeRun::Done(bits) => NativeCallOutcome::Value(bits),
        NativeRun::Deopt => NativeCallOutcome::Fallback,
        NativeRun::Signal => NativeCallOutcome::FlowStashed,
        NativeRun::DeoptAt => match resumed {
            Some(res) => NativeCallOutcome::from_result(res),
            None => NativeCallOutcome::Fallback,
        },
    }
}

/// The kinds of instruction that matter to entering a body at a loop.
#[derive(Debug, Clone, Copy, PartialEq, Eq, Structural)]
pub enum OpKind {
    VarBind,
    Unbind,
    SaveExcursion,
    SaveRestriction,
    SaveCurrentBuffer,
    SaveWindowExcursion,
    UnwindProtectPop,
    PushCatch,
    PushConditionCase,
    PushConditionCaseRaw,
    Other,
}

/// A body sets up state that an entry at a loop would miss.
pub open spec fn has_dynamic_state(ops: Seq<OpKind>) -> bool {
    exists|i: int| 0 <= i < ops.len() && #[trigger] ops[i] != OpKind::Other
}

pub fn osr_body_has_dynamic_state(ops: &Vec<OpKind>) -> (r: bool)
    ensures
        r == has_dynamic_state(ops@),
{
    let mut i: usize = 0;
    while i < ops.len()
        invariant
            i <= ops.len(),
            forall|k: int| 0 <= k < i ==> #[trigger] ops@[k] == OpKind::Other,
        decreases ops.len() - i,
    {
        if ops[i] != OpKind::Other {
            return true;
        }
        i += 1;
    }
    false
}

/// What the analysis of a body says of a loop: the size of the operand stack there,
/// and how many handlers are set up.
#[derive(Debug, Clone, Copy)]
pub struct LoopFacts {
    pub entry_depth: usize,
    pub handlers: usize,
}

/// The loop can be entered from outside.
pub open spec fn enterable(lexical: bool, ops: Seq<OpKind>, at: Option<LoopFacts>) -> bool {
    lexical && !has_dynamic_state(ops) && (at matches Some(f) && f.handlers == 0)
}

/// Code that enters a body at a loop; `at` is what the analysis says of the loop,
/// where it says anything, and `lowered` the code, where it could be made. `None`
/// where the loop cannot be entered.
pub fn compile_osr_leaf(
    lexical: bool,
    ops: &Vec<OpKind>,
    at: Option<LoopFacts>,
    lowered: Option<CompiledLeaf>,
) -> (r: Option<OsrEntry>)
    ensures
        if enterable(lexical, ops@, at) && lowered is Some {
            r matches Some(e) && Some(*e.leaf) == lowered && e.entry_depth == at->0.entry_depth
        } else {
            r is None
        },
{
    if !lexical || osr_body_has_dynamic_state(ops) {
        return None;
    }
    match (at, lowered) {
        (Some(f), Some(leaf)) => if f.handlers == 0 {
            Some(OsrEntry { leaf: Rc::new(leaf), entry_depth: f.entry_depth })
        } else {
            None
        },
        _ => None,
    }
}

/// What the interpreter does at the head of a hot loop.
pub enum OsrAction {
    /// It goes on by itself.
    Stay,
    /// It gets code for the loop.
    Compile,
    /// It hands over to this leaf.
    Transfer(Rc<CompiledLeaf>),
}

/// What is done at a loop for which `entry` is kept, with `depth` values on the stack.
pub open spec fn osr_decides(a: OsrAction, entry: Option<OsrEntry>, depth: usize) -> bool {
    match entry {
        Some(e) => if e.entry_depth == depth {
            a matches OsrAction::Transfer(l) && *l == *e.leaf
        } else {
            a is Stay
        },
        None => a is Stay,
    }
}

fn osr_action(entry: &Option<OsrEntry>, depth: usize) -> (r: OsrAction)
    ensures
        osr_decides(r, *entry, depth),
{
    match entry {
        Some(e) => if e.entry_depth == depth {
            OsrAction::Transfer(Rc::clone(&e.leaf))
        } else {
            OsrAction::Stay
        },
        None => OsrAction::Stay,
    }
}

/// What the interpreter does at the loop `pc` of the function `id`, with `depth`
/// values on the stack. A loop is tried once: that it cannot be entered is kept too.
pub fn try_run_osr(
    cache: &mut JitCache,
    has_context: bool,
    heap: Option<u64>,
    id: u64,
    pc: usize,
    depth: usize,
) -> (r: OsrAction)
    requires
        old(cache).compiled_heap is Some && old(cache).compiled_heap != heap ==> old(
            cache,
        ).native_depth == 0,
    ensures
        old(cache).wf() ==> final(cache).wf(),
        if !has_context {
            r is Stay && *final(cache) == *old(cache)
        } else {
            let key = (id, pc);
            let kept = old(cache).compiled_heap is None || old(cache).compiled_heap == heap;
            &&& final(cache).compiled_heap == heap
            &&& final(cache).native_depth == old(cache).native_depth
            &&& kept ==> final(cache).compiled == old(cache).compiled && final(cache).osr == old(
                cache,
            ).osr && final(cache).inline_deps == old(cache).inline_deps
            &&& !kept ==> jit_cache::is_empty_cache(*final(cache))
            &&& if kept && old(cache).osr@.dom().contains(key) {
                osr_decides(r, old(cache).osr@[key], depth)
            } else {
                r is Compile
            }
        },
{
    if !has_context {
        return OsrAction::Stay;
    }
    cache.sync_cache_to_current_heap(heap);
    match jit_cache::osr_get(&cache.osr, (id, pc)) {
        Some(entry) => osr_action(entry, depth),
        None => OsrAction::Compile,
    }
}

/// Keeps what the compilation of a loop ended with, and says what to do at it.
pub fn finish_osr_compile(
    cache: &mut JitCache,
    id: u64,
    pc: usize,
    depth: usize,
    entry: Option<OsrEntry>,
) -> (r: OsrAction)
    ensures
        osr_decides(r, entry, depth),
        final(cache).osr@ == old(cache).osr@.insert((id, pc), entry),
        final(cache).compiled == old(cache).compiled,
        final(cache).inline_deps == old(cache).inline_deps,
        final(cache).compiled_heap == old(cache).compiled_heap,
        final(cache).native_depth == old(cache).native_depth,
{
    let r: OsrAction = osr_action(&entry, depth);
    jit_cache::osr_insert(&mut cache.osr, (id, pc), entry);
    r
}

/// A loop that could not be entered is left to the interpreter from then on: what is
/// kept of it answers every later arrival, at any depth.
pub proof fn law_failed_loop_is_left_alone(
    before: JitCache,
    after: JitCache,
    id: u64,
    pc: usize,
    depth: usize,
    a: OsrAction,
)
    requires
        after.osr@ == before.osr@.insert((id, pc), None::<OsrEntry>),
        osr_decides(a, after.osr@[(id, pc)], depth),
    ensures
        after.osr@.dom().contains((id, pc)),
        a is Stay,
{
}

/// The heap values that the loop entries under `keys` load.
pub open spec fn osr_relocs(m: Map<(u64, usize), Option<OsrEntry>>, keys: Seq<(u64, usize)>) -> Seq<
    u64,
>
    decreases keys.len(),
{
    if keys.len() == 0 {
        Seq::empty()
    } else {
        osr_relocs(m, keys.drop_last()) + match m[keys.last()] {
            Some(e) => e.leaf.reloc_values@,
            None => Seq::empty(),
        }
    }
}

/// `keys` are the loops that are kept, each once.
pub open spec fn lists_loops(
    m: Map<(u64, usize), Option<OsrEntry>>,
    keys: Seq<(u64, usize)>,
) -> bool {
    &&& keys.no_duplicates()
    &&& forall|k: (u64, usize)| #[trigger] keys.contains(k) <==> m.dom().contains(k)
}

fn push_all(out: &mut Vec<u64>, more: &Vec<u64>)
    ensures
        final(out)@ == old(out)@ + more@,
{
    let ghost start = out@;
    let mut i: usize = 0;
    proof {
        assert(start + more@.subrange(0, 0) =~= start);
    }
    while i < more.len()
        invariant
            i <= more.len(),
            out@ == start + more@.subrange(0, i as int),
        decreases more.len() - i,
    {
        proof {
            assert((start + more@.subrange(0, i as int)).push(more@[i as int]) =~= start
                + more@.subrange(0, i + 1));
        }
        out.push(more[i]);
        i += 1;
    }
    proof {
        assert(more@.subrange(0, more@.len() as int) =~= more@);
    }
}

/// Appends the heap values that the kept code loads, so that the collector keeps
/// them: function by function, then loop by loop in an order of the map's own.
pub fn collect_jit_reloc_gc_roots(cache: &mut JitCache, heap: Option<u64>, roots: &mut Vec<u64>)
    requires
        old(cache).compiled_heap is Some && old(cache).compiled_heap != heap ==> old(
            cache,
        ).native_depth == 0,
    ensures
        old(cache).wf() ==> final(cache).wf(),
        final(cache).compiled_heap == heap,
        if old(cache).compiled_heap is None || old(cache).compiled_heap == heap {
            &&& final(cache).compiled == old(cache).compiled
            &&& final(cache).osr == old(cache).osr
            &&& final(cache).inline_deps == old(cache).inline_deps
        } else {
            jit_cache::is_empty_cache(*final(cache))
        },
        final(cache).native_depth == old(cache).native_depth,
        exists|keys: Seq<(u64, usize)>| #[trigger]
            lists_loops(final(cache).osr@, keys) && final(roots)@ == old(roots)@
                + jit_cache::relocs(final(cache).compiled.slots@) + osr_relocs(
                final(cache).osr@,
                keys,
            ),
{
    cache.sync_cache_to_current_heap(heap);
    let ghost start = roots@;
    let ghost slots = cache.compiled.slots@;
    let mut i: usize = 0;
    proof {
        assert(start + jit_cache::relocs(slots.subrange(0, 0)) =~= start);
    }
    while i < cache.compiled.slots.len()
        invariant
            i <= cache.compiled.slots.len(),
            slots == cache.compiled.slots@,
            roots@ == start + jit_cache::relocs(slots.subrange(0, i as int)),
        decreases cache.compiled.slots.len() - i,
    {
        let ghost before = roots@;
        proof {
            assert(slots.subrange(0, i + 1).drop_last() =~= slots.subrange(0, i as int));
        }
        match &cache.compiled.slots[i] {
            Some(CacheEntry::Compiled(leaf)) => {
                push_all(roots, &leaf.reloc_values);
            },
            _ => {
                proof {
                    assert(before + Seq::<u64>::empty() =~= before);
                }
            },
        }
        proof {
            assert(before + jit_cache::entry_relocs(slots[i as int]) =~= start + (
            jit_cache::relocs(slots.subrange(0, i as int)) + jit_cache::entry_relocs(
                slots[i as int],
            )));
        }
        i += 1;
    }
    proof {
        assert(slots.subrange(0, slots.len() as int) =~= slots);
    }
    let keys: Vec<(u64, usize)> = jit_cache::osr_keys(&cache.osr);
    let ghost base = roots@;
    let ghost m = cache.osr@;
    i = 0;
    proof {
        assert(base + osr_relocs(m, keys@.subrange(0, 0)) =~= base);
    }
    while i < keys.len()
        invariant
            i <= keys.len(),
            m == cache.osr@,
            forall|k: (u64, usize)| keys@.contains(k) <==> m.dom().contains(k),
            roots@ == base + osr_relocs(m, keys@.subrange(0, i as int)),
        decreases keys.len() - i,
    {
        let ghost before = roots@;
        let ghost extra = match m[keys@[i as int]] {
            Some(e) => e.leaf.reloc_values@,
            None => Seq::<u64>::empty(),
        };
        proof {
            assert(keys@.subrange(0, i + 1).drop_last() =~= keys@.subrange(0, i as int));
            assert(keys@.contains(keys@[i as int]));
        }
        match jit_cache::osr_get(&cache.osr, keys[i]) {
            Some(Some(e)) => {
                push_all(roots, &e.leaf.reloc_values);
            },
            _ => {
                proof {
                    assert(before + Seq::<u64>::empty() =~= before);
                }
            },
        }
        proof {
            assert(before + extra =~= base + (osr_relocs(m, keys@.subrange(0, i as int)) + extra));
        }
        i += 1;
    }
    proof {
        assert(keys@.subrange(0, keys@.len() as int) =~= keys@);
        assert(lists_loops(m, keys@));
    }
}

/// The highest id that may run natively; `setting` is the text of the variable that
/// limits it, where it is set.
pub fn max_compiled_id(setting: Option<&str>) -> (r: u64)
    ensures
        r == match setting {
            Some(s) => match parsed_number(s@) {
                Some(n) => n as u64,
                None => u64::MAX,
            },
            None => u64::MAX,
        },
{
    match setting {
        Some(s) => match parse_number(s) {
            Some(n) => n,
            None => u64::MAX,
        },
        None => u64::MAX,
    }
}

/// The value of a list of digits.
pub open spec fn digits_value(s: Seq<char>) -> nat
    decreases s.len(),
{
    if s.len() == 0 {
        0
    } else {
        digits_value(s.drop_last()) * 10 + (s.last() as nat - '0' as nat) as nat
    }
}

pub open spec fn all_digits(s: Seq<char>) -> bool {
    forall|i: int| 0 <= i < s.len() ==> '0' <= #[trigger] s[i] <= '9'
}

/// A decimal number of 64 bits: digits, which a plus sign may stand before.
pub open spec fn parsed_number(s: Seq<char>) -> Option<nat> {
    let digits = if s.len() > 0 && s[0] == '+' {
        s.subrange(1, s.len() as int)
    } else {
        s
    };
    if digits.len() > 0 && all_digits(digits) && digits_value(digits) <= u64::MAX {
        Some(digits_value(digits))
    } else {
        None
    }
}

proof fn lemma_digits_grow(s: Seq<char>, n: int)
    requires
        0 <= n <= s.len(),
        all_digits(s),
    ensures
        digits_value(s.subrange(0, n)) <= digits_value(s),
    decreases s.len() - n,
{
    if n < s.len() {
        assert(s.subrange(0, n + 1).drop_last() =~= s.subrange(0, n));
        lemma_digits_grow(s, n + 1);
    } else {
        assert(s.subrange(0, n) =~= s);
    }
}

/// Reads a decimal number of 64 bits.
pub fn parse_number(s: &str) -> (r: Option<u64>)
    ensures
        match r {
            Some(n) => parsed_number(s@) == Some(n as nat),
            None => parsed_number(s@) is None,
        },
{
    let chars: Vec<char> = crate::text::chars_of(s);
    let start: usize = if chars.len() > 0 && chars[0] == '+' {
        1
    } else {
        0
    };
    let ghost digits = s@.subrange(start as int, s@.len() as int);
    proof {
        if start == 0 {
            assert(digits =~= s@);
        }
    }
    if chars.len() == start {
        return None;
    }
    let mut n: u64 = 0;
    let mut i: usize = start;
    while i < chars.len()
        invariant
            start <= i <= chars.len(),
            chars@ == s@,
            digits == s@.subrange(start as int, s@.len() as int),
            digits.len() > 0,
            parsed_number(s@) == if all_digits(digits) && digits_value(digits) <= u64::MAX {
                Some(digits_value(digits))
            } else {
                None
            },
            all_digits(digits.subrange(0, i - start)),
            n == digits_value(digits.subrange(0, i - start)),
        decreases chars.len() - i,
    {
        let c: char = chars[i];
        let ghost k = i - start;
        let ghost next = digits.subrange(0, k + 1);
        proof {
            assert(digits[k] == c);
            assert(next.drop_last() =~= digits.subrange(0, k));
            assert(next.last() == c);
        }
        if c < '0' || c > '9' {
            proof {
                assert(!all_digits(digits));
            }
            return None;
        }
        let d: u64 = (c as u8 - 48) as u64;
        proof {
            assert(all_digits(next)) by {
                assert forall|j: int| 0 <= j < next.len() implies '0' <= #[trigger] next[j]
                    <= '9' by {
                    if j < k {
                        assert(next[j] == digits.subrange(0, k)[j]);
                    }
                }
            }
            assert(digits_value(next) == n * 10 + d);
        }
        if n > (u64::MAX - d) / 10 {
            proof {
                if all_digits(digits) {
                    lemma_digits_grow(digits, k + 1);
                    assert(n * 10 + d > u64::MAX);
                }
            }
            return None;
        }
        n = n * 10 + d;
        i += 1;
    }
    proof {
        assert(digits.subrange(0, digits.len() as int) =~= digits);
    }
    Some(n)
}

} // verus!
