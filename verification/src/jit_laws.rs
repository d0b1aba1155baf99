//! What native code is for: a body is compiled once, what was compiled is what runs, and
//! nothing runs that no longer means what it meant.
use vstd::prelude::*;

use crate::jit_cache;
use crate::jit_cache::{CacheEntry, CompiledLeaf, JitCache, OsrEntry, Runtime};
use crate::jit_dispatch;
use crate::jit_dispatch::{
    CallFacts, DispatchAction, DispatchEvent, LoopFacts, NativeCallOutcome, NativeRun, OpKind,
    OsrAction, RunVerdict,
};

verus! {

/// The leaf that is kept for a function.
pub open spec fn kept_leaf(c: JitCache, id: u64) -> Option<CompiledLeaf> {
    if id < c.compiled.slots@.len() && c.compiled.slots@[id as int] is Some
        && c.compiled.slots@[id as int]->0 is Compiled {
        Some(*(c.compiled.slots@[id as int]->0)->Compiled_0)
    } else {
        None
    }
}

/// Nothing is known of a function.
pub open spec fn is_unknown(c: JitCache, id: u64) -> bool {
    id >= c.compiled.slots@.len() || c.compiled.slots@[id as int] is None
}

/// A function is known to be outside of what can be compiled.
pub open spec fn is_refused(c: JitCache, id: u64) -> bool {
    id < c.compiled.slots@.len() && c.compiled.slots@[id as int] == Some(CacheEntry::NotCompilable)
}

/// A leaf can be called with so many arguments.
pub open spec fn fits(leaf: CompiledLeaf, nargs: usize) -> bool {
    leaf.min_args <= nargs && (leaf.max_args is Some ==> nargs <= leaf.max_args->0)
}

/// A leaf means what it meant: it inlined nothing, or what it inlined is as it was.
pub open spec fn is_current(leaf: CompiledLeaf, call: CallFacts) -> bool {
    leaf.inline_epoch is Some ==> call.has_context && leaf.inline_epoch->0 == call.function_epoch
}

/// A call that goes to the leaves that are kept, not to the native cache.
pub open spec fn is_ordinary(call: CallFacts, rt: Runtime) -> bool {
    rt.compiled_id <= call.max_id && (!rt.aot_prewarmed || call.has_prewarm_hash)
}

/// Whatever happened, native code runs only where it takes the arguments that the call has,
/// and what runs is what is kept for the function. What is kept for other functions, their
/// loops, and how many native calls are under way stay as they were.
pub proof fn law_what_runs_is_kept_and_fits(
    cache: &mut JitCache,
    rt: &mut Runtime,
    call: &CallFacts,
    event: DispatchEvent,
    r: DispatchAction,
)
    requires
        call_ensures(jit_dispatch::try_run_compiled, (cache, rt, call, event), r),
    ensures
        r is Run ==> fits(*r->Run_0, call.nargs) && kept_leaf(*final(cache), old(rt).compiled_id)
            == Some(*r->Run_0),
        r is Run && (event is Called || event is NativeCacheHit) ==> is_current(*r->Run_0, *call)
            || (event is NativeCacheHit && event->NativeCacheHit_0 == *r->Run_0),
        forall|k: u64|
            k != old(rt).compiled_id ==> #[trigger] kept_leaf(*final(cache), k) == kept_leaf(
                *old(cache),
                k,
            ),
        final(cache).osr@ == old(cache).osr@,
        final(cache).native_depth == old(cache).native_depth,
        final(rt).compiled_id == old(rt).compiled_id,
{
    let id = old(rt).compiled_id;
    assert(old(cache).compiled.at(id) == old(cache).compiled.at(id));
    assert forall|k: u64| k != id implies #[trigger] kept_leaf(*final(cache), k) == kept_leaf(
        *old(cache),
        k,
    ) by {
        assert(final(cache).compiled.at(k) == old(cache).compiled.at(k));
    }
}

/// A call of a function whose leaf is kept and means what it meant runs that leaf where the
/// arguments fit, and is interpreted where they do not; the leaf stays.
pub proof fn law_kept_leaf_runs(
    cache: &mut JitCache,
    rt: &mut Runtime,
    call: &CallFacts,
    r: DispatchAction,
    leaf: CompiledLeaf,
)
    requires
        call_ensures(
            jit_dispatch::try_run_compiled,
            (cache, rt, call, DispatchEvent::Called),
            r,
        ),
        is_ordinary(*call, *old(rt)),
        kept_leaf(*old(cache), old(rt).compiled_id) == Some(leaf),
        is_current(leaf, *call),
    ensures
        fits(leaf, call.nargs) ==> r is Run && *r->Run_0 == leaf,
        !fits(leaf, call.nargs) ==> r is Interpret,
        kept_leaf(*final(cache), old(rt).compiled_id) == Some(leaf),
        final(cache).compiled.retired@ == old(cache).compiled.retired@,
{
    let id = old(rt).compiled_id;
    assert(old(cache).compiled.at(id) == old(cache).compiled.slots@[id as int]);
    assert(final(cache).compiled.at(id) == old(cache).compiled.at(id));
}

/// A leaf that inlined what has changed since is not run again: it is set aside, where what
/// still points at it finds it, and the body is compiled or loaded anew.
pub proof fn law_outdated_leaf_is_not_run(
    cache: &mut JitCache,
    rt: &mut Runtime,
    call: &CallFacts,
    r: DispatchAction,
    leaf: CompiledLeaf,
)
    requires
        call_ensures(
            jit_dispatch::try_run_compiled,
            (cache, rt, call, DispatchEvent::Called),
            r,
        ),
        is_ordinary(*call, *old(rt)),
        kept_leaf(*old(cache), old(rt).compiled_id) == Some(leaf),
        !is_current(leaf, *call),
    ensures
        r is LoadAot || r is Compile,
        is_unknown(*final(cache), old(rt).compiled_id),
        final(cache).compiled.retired@.len() == old(cache).compiled.retired@.len() + 1,
        *final(cache).compiled.retired@.last() == leaf,
{
    let id = old(rt).compiled_id;
    assert(old(cache).compiled.at(id) == old(cache).compiled.slots@[id as int]);
    assert(final(cache).compiled.at(id) is None);
}

/// The first call of a function: preloaded code is asked for where the function can have
/// some, and else the body is compiled. A function above the highest id that may run
/// natively is interpreted.
pub proof fn law_first_call(
    cache: &mut JitCache,
    rt: &mut Runtime,
    call: &CallFacts,
    r: DispatchAction,
)
    requires
        call_ensures(
            jit_dispatch::try_run_compiled,
            (cache, rt, call, DispatchEvent::Called),
            r,
        ),
        is_unknown(*old(cache), old(rt).compiled_id),
        !old(rt).aot_prewarmed || call.has_prewarm_hash,
    ensures
        old(rt).compiled_id > call.max_id ==> r is Interpret,
        old(rt).compiled_id <= call.max_id ==> (r is LoadAot <==> call.aot_enabled
            && call.required_only && old(rt).patched_prefix == 0),
        old(rt).compiled_id <= call.max_id ==> (r is Compile <==> !(call.aot_enabled
            && call.required_only && old(rt).patched_prefix == 0)),
        final(rt).aot_prewarmed == old(rt).aot_prewarmed,
{
    assert(old(cache).compiled.at(old(rt).compiled_id) is None);
}

/// A function whose code may be had from the native cache, and that has no verified hash,
/// asks there; one that a closure has patched, or that is called without an evaluator, does
/// not, and never will.
pub proof fn law_native_cache_is_asked(
    cache: &mut JitCache,
    rt: &mut Runtime,
    call: &CallFacts,
    r: DispatchAction,
)
    requires
        call_ensures(
            jit_dispatch::try_run_compiled,
            (cache, rt, call, DispatchEvent::Called),
            r,
        ),
        old(rt).aot_prewarmed,
        !call.has_prewarm_hash,
        old(rt).compiled_id <= call.max_id,
    ensures
        old(rt).patched_prefix == 0 && call.has_context ==> r is AskNativeCache
            && final(rt).aot_prewarmed,
        old(rt).patched_prefix != 0 || !call.has_context ==> r is Interpret
            && !final(rt).aot_prewarmed,
{
}

/// What came of a call's outside work is kept: a leaf that was compiled takes the place of
/// whatever was there; one that was loaded only an empty one; a body that cannot be compiled
/// is noted as such and interpreted. A miss of preloaded code has the body compiled, a miss
/// of the native cache has it interpreted.
pub proof fn law_outcome_is_kept(
    cache: &mut JitCache,
    rt: &mut Runtime,
    call: &CallFacts,
    event: DispatchEvent,
    r: DispatchAction,
)
    requires
        call_ensures(jit_dispatch::try_run_compiled, (cache, rt, call, event), r),
    ensures
        ({
            let id = old(rt).compiled_id;
            let (before, after) = (*old(cache), *final(cache));
            &&& event is Compiled ==> kept_leaf(after, id) == Some(event->Compiled_0)
            &&& event is AotHit && is_unknown(before, id) ==> kept_leaf(after, id) == Some(
                event->AotHit_0,
            )
            &&& event is AotHit && !is_unknown(before, id) ==> kept_leaf(after, id) == kept_leaf(
                before,
                id,
            )
            &&& event is NativeCacheHit && is_unknown(before, id) ==> kept_leaf(after, id) == Some(
                event->NativeCacheHit_0,
            )
            &&& event is NativeCacheHit || event is NativeCacheMiss ==> !final(rt).aot_prewarmed
            &&& event is NotCompilable ==> is_refused(after, id) && r is Interpret
            &&& event is AotMiss ==> r is Compile && after.compiled == before.compiled
            &&& event is NativeCacheMiss ==> r is Interpret && after.compiled == before.compiled
            &&& event is Compiled && fits(event->Compiled_0, call.nargs) ==> r is Run && *r->Run_0
                == event->Compiled_0
            &&& event is Compiled && !fits(event->Compiled_0, call.nargs) ==> r is Interpret
        }),
{
    let id = old(rt).compiled_id;
    assert(final(cache).compiled.at(id) == final(cache).compiled.at(id));
    assert(old(cache).compiled.at(id) == old(cache).compiled.at(id));
}

/// A body is compiled once: after it was compiled, the next call runs what was compiled.
pub proof fn law_compiled_once(
    cache: &mut JitCache,
    rt: &mut Runtime,
    call: &CallFacts,
    leaf: CompiledLeaf,
    r: DispatchAction,
    cache2: &mut JitCache,
    rt2: &mut Runtime,
    call2: &CallFacts,
    r2: DispatchAction,
)
    requires
        call_ensures(
            jit_dispatch::try_run_compiled,
            (cache, rt, call, DispatchEvent::Compiled(leaf)),
            r,
        ),
        *old(cache2) == *final(cache),
        *old(rt2) == *final(rt),
        call_ensures(
            jit_dispatch::try_run_compiled,
            (cache2, rt2, call2, DispatchEvent::Called),
            r2,
        ),
        is_ordinary(*call2, *old(rt2)),
        is_current(leaf, *call2),
        fits(leaf, call2.nargs),
    ensures
        r2 is Run,
        *r2->Run_0 == leaf,
{
    law_outcome_is_kept(cache, rt, call, DispatchEvent::Compiled(leaf), r);
    law_kept_leaf_runs(cache2, rt2, call2, r2, leaf);
}

/// A body that could not be compiled is not tried again.
pub proof fn law_refused_body_is_not_tried_again(
    cache: &mut JitCache,
    rt: &mut Runtime,
    call: &CallFacts,
    r: DispatchAction,
    cache2: &mut JitCache,
    rt2: &mut Runtime,
    call2: &CallFacts,
    r2: DispatchAction,
)
    requires
        call_ensures(
            jit_dispatch::try_run_compiled,
            (cache, rt, call, DispatchEvent::NotCompilable),
            r,
        ),
        *old(cache2) == *final(cache),
        *old(rt2) == *final(rt),
        call_ensures(
            jit_dispatch::try_run_compiled,
            (cache2, rt2, call2, DispatchEvent::Called),
            r2,
        ),
        is_ordinary(*call2, *old(rt2)),
    ensures
        r2 is Interpret,
        is_refused(*final(cache2), old(rt).compiled_id),
{
    law_outcome_is_kept(cache, rt, call, DispatchEvent::NotCompilable, r);
    let id = old(rt).compiled_id;
    assert(old(cache2).compiled.at(id) == old(cache2).compiled.slots@[id as int]);
    assert(final(cache2).compiled.at(id) == old(cache2).compiled.at(id));
}

/// When a function is defined anew, every leaf that inlined it goes, and no other: a leaf
/// that was compiled with it inlined is gone afterwards, and is set aside.
pub proof fn law_redefinition_evicts_who_inlined(
    cache: &mut JitCache,
    id: u64,
    leaf: CompiledLeaf,
    heap: Option<u64>,
    kept: Option<std::rc::Rc<CompiledLeaf>>,
    cache2: &mut JitCache,
    sym: u32,
)
    requires
        call_ensures(JitCache::compile_cache_entry, (cache, id, Some(leaf), heap), kept),
        *old(cache2) == *final(cache),
        call_ensures(JitCache::evict_inline_dependents, (cache2, sym), ()),
    ensures
        kept_leaf(*final(cache), id) == Some(leaf),
        kept is Some && *kept->0 == leaf,
        leaf.inline_deps@.contains(sym) ==> is_unknown(*final(cache2), id),
        !leaf.inline_deps@.contains(sym) && !(old(cache).inline_deps@.dom().contains(sym) && old(
            cache,
        ).inline_deps@[sym]@.contains(id)) ==> kept_leaf(*final(cache2), id) == Some(leaf),
        !final(cache2).inline_deps@.dom().contains(sym),
{
    assert(final(cache).compiled.at(id) == final(cache).compiled.at(id));
    assert(jit_cache::callers(final(cache).inline_deps@, sym) == if leaf.inline_deps@.contains(sym) {
        jit_cache::callers(old(cache).inline_deps@, sym).insert(id)
    } else {
        jit_cache::callers(old(cache).inline_deps@, sym)
    });
    assert(final(cache2).compiled.at(id) == final(cache2).compiled.at(id));
}

/// A leaf that a call may keep pointing at: it is kept, may run, and inlined nothing.
pub proof fn law_resolved_leaf(
    cache: &JitCache,
    id: u64,
    max_id: u64,
    r: Option<std::rc::Rc<CompiledLeaf>>,
)
    requires
        call_ensures(JitCache::resolve_compiled_leaf, (cache, id, max_id), r),
    ensures
        r is Some <==> id <= max_id && kept_leaf(*cache, id) is Some && kept_leaf(
            *cache,
            id,
        )->0.inline_epoch is None,
        r is Some ==> Some(*r->0) == kept_leaf(*cache, id),
{
    assert(cache.compiled.at(id) == cache.compiled.at(id));
}

/// A leaf is taken out alone, with the loops of its function; it is set aside.
pub proof fn law_evicted_leaf_is_set_aside(cache: &mut JitCache, id: u64)
    requires
        call_ensures(JitCache::evict_compiled, (cache, id), ()),
    ensures
        is_unknown(*final(cache), id),
        forall|k: u64|
            k != id ==> #[trigger] kept_leaf(*final(cache), k) == kept_leaf(*old(cache), k),
        forall|k: (u64, usize)|
            #[trigger] final(cache).osr@.dom().contains(k) <==> k.0 != id && old(
                cache,
            ).osr@.dom().contains(k),
        kept_leaf(*old(cache), id) is Some ==> final(cache).compiled.retired@.len() == old(
            cache,
        ).compiled.retired@.len() + 1 && Some(*final(cache).compiled.retired@.last()) == kept_leaf(
            *old(cache),
            id,
        ),
        kept_leaf(*old(cache), id) is None ==> final(cache).compiled.retired@ == old(
            cache,
        ).compiled.retired@,
{
    assert(final(cache).compiled.at(id) is None);
    assert(old(cache).compiled.at(id) == old(cache).compiled.at(id));
    assert forall|k: u64| k != id implies #[trigger] kept_leaf(*final(cache), k) == kept_leaf(
        *old(cache),
        k,
    ) by {
        assert(final(cache).compiled.at(k) == old(cache).compiled.at(k));
    }
}

/// Code is good for one heap: with another one everything is dropped, with the same one, or
/// the first, nothing is.
pub proof fn law_code_is_good_for_one_heap(cache: &mut JitCache, heap: Option<u64>)
    requires
        call_ensures(JitCache::sync_cache_to_current_heap, (cache, heap), ()),
    ensures
        final(cache).compiled_heap == heap,
        old(cache).compiled_heap is Some && old(cache).compiled_heap != heap ==> {
            &&& forall|id: u64| is_unknown(*final(cache), id)
            &&& forall|k: (u64, usize)| !final(cache).osr@.dom().contains(k)
            &&& forall|s: u32| !final(cache).inline_deps@.dom().contains(s)
            &&& final(cache).compiled.retired@.len() == 0
        },
        old(cache).compiled_heap is None || old(cache).compiled_heap == heap ==> {
            &&& final(cache).compiled == old(cache).compiled
            &&& final(cache).osr == old(cache).osr
            &&& final(cache).inline_deps == old(cache).inline_deps
        },
{
    if old(cache).compiled_heap is Some && old(cache).compiled_heap != heap {
        assert forall|id: u64| is_unknown(*final(cache), id) by {
            assert(final(cache).compiled.at(id) is None);
        }
    }
}

/// A loop is compiled once: what was kept for it decides when it comes round again on the
/// same heap. It hands over where the stack is as deep as the code expects, and else goes
/// on by itself, as a loop that could not be compiled always does.
pub proof fn law_loop_is_compiled_once(
    cache: &mut JitCache,
    id: u64,
    pc: usize,
    depth: usize,
    entry: Option<OsrEntry>,
    r: OsrAction,
    cache2: &mut JitCache,
    heap: Option<u64>,
    depth2: usize,
    r2: OsrAction,
)
    requires
        call_ensures(jit_dispatch::finish_osr_compile, (cache, id, pc, depth, entry), r),
        *old(cache2) == *final(cache),
        old(cache2).compiled_heap == heap,
        call_ensures(jit_dispatch::try_run_osr, (cache2, true, heap, id, pc, depth2), r2),
    ensures
        entry is None ==> r is Stay && r2 is Stay,
        entry is Some && entry->0.entry_depth == depth ==> r is Transfer && *r->Transfer_0
            == *entry->0.leaf,
        entry is Some && entry->0.entry_depth != depth ==> r is Stay,
        entry is Some && entry->0.entry_depth == depth2 ==> r2 is Transfer && *r2->Transfer_0
            == *entry->0.leaf,
        entry is Some && entry->0.entry_depth != depth2 ==> r2 is Stay,
{
}

/// A loop that nothing is known of gets code, and only with an evaluator.
pub proof fn law_loop_comes_round(
    cache: &mut JitCache,
    has_context: bool,
    heap: Option<u64>,
    id: u64,
    pc: usize,
    depth: usize,
    r: OsrAction,
)
    requires
        call_ensures(
            jit_dispatch::try_run_osr,
            (cache, has_context, heap, id, pc, depth),
            r,
        ),
    ensures
        !has_context ==> r is Stay,
        has_context && !old(cache).osr@.dom().contains((id, pc)) ==> r is Compile,
        has_context && old(cache).compiled_heap is Some && old(cache).compiled_heap != heap
            ==> r is Compile,
{
}

/// A loop has code of its own only in a body with lexical variables that binds and catches
/// nothing, at a place that is reached with no handler in force, and where it was compiled;
/// the code is entered with the stack as deep as it is there.
pub proof fn law_loop_entry(
    lexical: bool,
    ops: &Vec<OpKind>,
    at: Option<LoopFacts>,
    lowered: Option<CompiledLeaf>,
    r: Option<OsrEntry>,
)
    requires
        call_ensures(jit_dispatch::compile_osr_leaf, (lexical, ops, at, lowered), r),
    ensures
        r is Some <==> {
            &&& lexical
            &&& forall|i: int| 0 <= i < ops@.len() ==> #[trigger] ops@[i] is Other
            &&& at is Some && at->0.handlers == 0
            &&& lowered is Some
        },
        r is Some ==> *r->0.leaf == lowered->0 && r->0.entry_depth == at->0.entry_depth,
{
    if jit_dispatch::has_dynamic_state(ops@) {
        let i = choose|i: int| 0 <= i < ops@.len() && #[trigger] ops@[i] != OpKind::Other;
        assert(!(ops@[i] is Other));
    }
}

/// How a native run ends: a value is the value; a run that stopped before any effect starts
/// over in the interpreter; one that stopped in the middle goes on there, where it has an
/// evaluator to go on with; a signal is raised.
pub proof fn law_native_run_ends(has_context: bool, outcome: NativeRun, r: RunVerdict)
    requires
        call_ensures(jit_dispatch::finish_native_run, (has_context, outcome), r),
    ensures
        outcome is Done <==> r is Value,
        outcome is Done ==> r->Value_0 == outcome->Done_0,
        outcome is Signal <==> r is Raise,
        r is Resume <==> outcome is DeoptAt && has_context,
        r is Interpret <==> outcome is Deopt || (outcome is DeoptAt && !has_context),
{
}

/// How a native call of native code ends: with the value of the run, or of its resumption;
/// with a fallback only where nothing was done or resumed; else with the signal.
pub proof fn law_native_call_ends(
    outcome: NativeRun,
    resumed: Option<Result<u64, ()>>,
    r: NativeCallOutcome,
)
    requires
        call_ensures(jit_dispatch::run_resolved_leaf_native, (outcome, resumed), r),
    ensures
        outcome is Done ==> r is Value && r->Value_0 == outcome->Done_0,
        outcome is Deopt ==> r is Fallback,
        outcome is Signal ==> r is FlowStashed,
        outcome is DeoptAt && resumed is None ==> r is Fallback,
        outcome is DeoptAt && resumed is Some && resumed->0 is Ok ==> r is Value && r->Value_0 == (
        resumed->0)->Ok_0,
        outcome is DeoptAt && resumed is Some && resumed->0 is Err ==> r is FlowStashed,
{
}

proof fn lemma_relocs(v: Seq<Option<CacheEntry>>)
    ensures
        forall|i: int, j: int|
            0 <= i < v.len() && v[i] is Some && v[i]->0 is Compiled && 0 <= j < (
            v[i]->0)->Compiled_0.reloc_values@.len() ==> jit_cache::relocs(v).contains(
                #[trigger] (v[i]->0)->Compiled_0.reloc_values@[j],
            ),
        forall|x: u64| #[trigger]
            jit_cache::relocs(v).contains(x) ==> exists|i: int|
                0 <= i < v.len() && v[i] is Some && v[i]->0 is Compiled && (#[trigger] v[i]->0)
                    ->Compiled_0.reloc_values@.contains(x),
    decreases v.len(),
{
    if v.len() > 0 {
        let w = v.drop_last();
        lemma_relocs(w);
        let (before, last) = (jit_cache::relocs(w), jit_cache::entry_relocs(v.last()));
        let all = jit_cache::relocs(v);
        assert forall|i: int, j: int|
            0 <= i < v.len() && v[i] is Some && v[i]->0 is Compiled && 0 <= j < (
            v[i]->0)->Compiled_0.reloc_values@.len() implies all.contains(
            #[trigger] (v[i]->0)->Compiled_0.reloc_values@[j],
        ) by {
            let x = (v[i]->0)->Compiled_0.reloc_values@[j];
            if i < w.len() {
                assert(w[i] == v[i]);
                assert(before.contains((w[i]->0)->Compiled_0.reloc_values@[j]));
                let k = choose|k: int| 0 <= k < before.len() && before[k] == x;
                assert(all[k] == x);
            } else {
                assert(all[before.len() + j] == x);
            }
        }
        assert forall|x: u64| #[trigger] all.contains(x) implies exists|i: int|
            0 <= i < v.len() && v[i] is Some && v[i]->0 is Compiled && (#[trigger] v[i]->0)
                ->Compiled_0.reloc_values@.contains(x) by {
            let k = choose|k: int| 0 <= k < all.len() && all[k] == x;
            if k < before.len() {
                assert(before[k] == x);
                assert(before.contains(x));
                let i = choose|i: int|
                    0 <= i < w.len() && w[i] is Some && w[i]->0 is Compiled && (#[trigger] w[i]->0)
                        ->Compiled_0.reloc_values@.contains(x);
                assert(v[i] == w[i]);
            } else {
                assert(last[k - before.len()] == x);
                assert(v[v.len() - 1] == v.last());
                assert((v[v.len() - 1]->0)->Compiled_0.reloc_values@.contains(x));
            }
        }
    }
}

/// The collector is told of every heap value that kept code loads, and of what it knew: no
/// value of a kept leaf is forgotten, on the heap that the code belongs to.
pub proof fn law_roots_hold_what_code_loads(
    cache: &mut JitCache,
    heap: Option<u64>,
    roots: &mut Vec<u64>,
    id: u64,
    j: int,
)
    requires
        call_ensures(jit_dispatch::collect_jit_reloc_gc_roots, (cache, heap, roots), ()),
        old(cache).compiled_heap is None || old(cache).compiled_heap == heap,
        kept_leaf(*old(cache), id) is Some,
        0 <= j < kept_leaf(*old(cache), id)->0.reloc_values@.len(),
    ensures
        final(roots)@.contains(kept_leaf(*old(cache), id)->0.reloc_values@[j]),
        final(roots)@.len() >= old(roots)@.len(),
        final(roots)@.subrange(0, old(roots)@.len() as int) == old(roots)@,
{
    let slots = final(cache).compiled.slots@;
    let x = kept_leaf(*old(cache), id)->0.reloc_values@[j];
    lemma_relocs(slots);
    assert(slots[id as int] == old(cache).compiled.slots@[id as int]);
    assert(x == (slots[id as int]->0)->Compiled_0.reloc_values@[j]);
    let found = jit_cache::relocs(slots);
    assert(found.contains(x));
    let k = choose|k: int| 0 <= k < found.len() && found[k] == x;
    let keys = choose|keys: Seq<(u64, usize)>| #[trigger]
        jit_dispatch::lists_loops(final(cache).osr@, keys) && final(roots)@ == old(roots)@ + found
            + jit_dispatch::osr_relocs(final(cache).osr@, keys);
    assert(final(roots)@[old(roots)@.len() + k] == x);
    assert(final(roots)@.subrange(0, old(roots)@.len() as int) =~= old(roots)@);
}

/// A number is read digit by digit, after an optional plus; anything else is no number.
pub proof fn law_number_is_read_by_digits(s: &str, r: Option<u64>, t: &str, q: Option<u64>)
    requires
        call_ensures(jit_dispatch::parse_number, (s,), r),
        call_ensures(jit_dispatch::parse_number, (t,), q),
    ensures
        s@.len() == 0 ==> r is None,
        s@.len() == 1 && '0' <= s@[0] <= '9' ==> r == Some((s@[0] as u64 - '0' as u64) as u64),
        s@.len() == 1 && !('0' <= s@[0] <= '9') ==> r is None,
        s@.len() > 0 && s@[0] != '+' && t@.len() == s@.len() + 1 && t@.subrange(
            0,
            s@.len() as int,
        ) == s@ && r is Some && '0' <= t@.last() <= '9' ==> (if r->0 * 10 + (t@.last() as int
            - '0' as int) <= u64::MAX {
            q is Some && q->0 == r->0 * 10 + (t@.last() as int - '0' as int)
        } else {
            q is None
        }),
        t@.len() > 0 && !('0' <= t@.last() <= '9') ==> q is None,
        s@.len() > 0 && s@[0] != '+' && t@ == seq!['+'] + s@ ==> q == r,
{
    reveal_with_fuel(jit_dispatch::digits_value, 2);
    if s@.len() == 1 {
        let e = s@.subrange(1, 1);
        assert(s@.drop_last() =~= Seq::<char>::empty());
        if '0' <= s@[0] <= '9' {
            assert(jit_dispatch::all_digits(s@));
            assert(jit_dispatch::digits_value(s@.drop_last()) == 0);
        }
        assert(s@[0] == '+' ==> e.len() == 0);
    }
    if t@.len() > 0 && !('0' <= t@.last() <= '9') {
        let d = if t@[0] == '+' {
            t@.subrange(1, t@.len() as int)
        } else {
            t@
        };
        if d.len() > 0 {
            assert(d[d.len() - 1] == t@.last());
            assert(!jit_dispatch::all_digits(d));
        }
    }
    if s@.len() > 0 && s@[0] != '+' && t@ == seq!['+'] + s@ {
        assert(t@[0] == '+');
        assert(t@.subrange(1, t@.len() as int) =~= s@);
    }
    if s@.len() > 0 && s@[0] != '+' && t@.len() == s@.len() + 1 && t@.subrange(0, s@.len() as int)
        == s@ && r is Some && '0' <= t@.last() <= '9' {
        assert(t@[0] == s@[0]) by {
            assert(t@.subrange(0, s@.len() as int)[0] == t@[0]);
        }
        assert(t@.drop_last() =~= s@);
        assert forall|i: int| 0 <= i < t@.len() implies '0' <= #[trigger] t@[i] <= '9' by {
            if i < s@.len() {
                assert(t@.drop_last()[i] == s@[i]);
            }
        }
        assert(jit_dispatch::all_digits(t@));
    }
}

/// The highest id that may run natively is the number that is set; no bound without one.
pub proof fn law_highest_id(setting: Option<&str>, r: u64, n: Option<u64>)
    requires
        call_ensures(jit_dispatch::max_compiled_id, (setting,), r),
        setting is Some ==> call_ensures(jit_dispatch::parse_number, (setting->0,), n),
    ensures
        setting is None ==> r == u64::MAX,
        setting is Some && n is None ==> r == u64::MAX,
        setting is Some && n is Some ==> r == n->0,
{
}

/// Ids are handed out once each, from the first on, and a function keeps its id.
pub proof fn law_function_keeps_its_id(
    rt: &mut Runtime,
    ids: &mut jit_cache::CompiledIds,
    id: u64,
    rt2: &mut Runtime,
    ids2: &mut jit_cache::CompiledIds,
    id2: u64,
)
    requires
        call_ensures(Runtime::compiled_id_or_assign, (rt, ids), id),
        *old(ids2) == *final(ids),
        call_ensures(Runtime::compiled_id_or_assign, (rt2, ids2), id2),
    ensures
        id != 0 && final(rt).compiled_id == id,
        *old(rt2) == *final(rt) ==> id2 == id && *final(ids2) == *old(ids2),
        old(rt2).compiled_id == 0 && old(rt).compiled_id == 0 ==> id2 == id + 1,
{
}

} // verus!
