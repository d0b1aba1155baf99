use neomacs_core::jit_cache::{
    CacheEntry, CompiledIds, CompiledLeaf, DenseCache, JitCache, OsrEntry, Runtime,
};
use neomacs_core::jit_dispatch::{
    collect_jit_reloc_gc_roots, compile_and_cache_jit_leaf, compile_osr_leaf, finish_native_run,
    finish_osr_compile, max_compiled_id, osr_body_has_dynamic_state, parse_number,
    run_resolved_leaf_native, try_run_compiled, try_run_osr, CallFacts, DispatchAction,
    DispatchEvent, LoopFacts, NativeCallOutcome, NativeRun, OpKind, OsrAction, RunVerdict,
};
use std::rc::Rc;

fn leaf(handle: u64) -> CompiledLeaf {
    CompiledLeaf {
        handle,
        min_args: 0,
        max_args: Some(0),
        inline_epoch: None,
        inline_deps: Vec::new(),
        aot_backed: false,
        reloc_values: Vec::new(),
    }
}

fn runtime(id: u64) -> Runtime {
    let mut rt = Runtime::new();
    rt.compiled_id = id;
    rt
}

fn call(nargs: usize) -> CallFacts {
    CallFacts {
        nargs,
        has_context: true,
        function_epoch: 7,
        required_only: true,
        aot_enabled: false,
        has_prewarm_hash: false,
        max_id: u64::MAX,
        heap: Some(1),
    }
}

fn run_handle(action: DispatchAction) -> Option<u64> {
    match action {
        DispatchAction::Run(leaf) => Some(leaf.handle),
        _ => None,
    }
}

#[test]
fn assigns_stable_unique_ids() {
    let mut ids = CompiledIds::new();
    let mut f1 = Runtime::new();
    let mut f2 = Runtime::new();
    let a = f1.compiled_id_or_assign(&mut ids);
    let a_again = f1.compiled_id_or_assign(&mut ids);
    let b = f2.compiled_id_or_assign(&mut ids);
    assert_eq!(a, a_again, "id is stable per function");
    assert_ne!(a, b, "distinct functions get distinct ids");
    assert_ne!(a, 0, "0 is reserved for unassigned");
}

#[test]
fn runs_compilable_nullary_leaf() {
    let mut cache = JitCache::new();
    let mut rt = runtime(1);
    let first = try_run_compiled(&mut cache, &mut rt, &call(0), DispatchEvent::Called);
    assert!(matches!(first, DispatchAction::Compile));
    let compiled = try_run_compiled(
        &mut cache,
        &mut rt,
        &call(0),
        DispatchEvent::Compiled(leaf(42)),
    );
    assert_eq!(run_handle(compiled), Some(42));
    let again = try_run_compiled(&mut cache, &mut rt, &call(0), DispatchEvent::Called);
    assert_eq!(run_handle(again), Some(42));
    assert_eq!(
        finish_native_run(true, NativeRun::Done(42)),
        RunVerdict::Value(42)
    );
}

#[test]
fn returns_none_for_noncompilable_body() {
    let mut cache = JitCache::new();
    let mut rt = runtime(1);
    let first = try_run_compiled(&mut cache, &mut rt, &call(0), DispatchEvent::NotCompilable);
    assert!(matches!(first, DispatchAction::Interpret));
    let again = try_run_compiled(&mut cache, &mut rt, &call(0), DispatchEvent::Called);
    assert!(matches!(again, DispatchAction::Interpret));
}

#[test]
fn deopt_returns_none() {
    assert_eq!(
        finish_native_run(false, NativeRun::Deopt),
        RunVerdict::Interpret
    );
    assert_eq!(
        finish_native_run(false, NativeRun::DeoptAt),
        RunVerdict::Interpret
    );
    assert_eq!(
        finish_native_run(true, NativeRun::DeoptAt),
        RunVerdict::Resume
    );
    assert_eq!(finish_native_run(true, NativeRun::Signal), RunVerdict::Raise);
}

#[test]
fn prewarm_hit_evicts_stale_inlined_leaf_before_reuse() {
    let mut cache = JitCache::new();
    let mut rt = runtime(3);
    rt.aot_prewarmed = true;
    let mut old = leaf(10);
    old.max_args = None;
    old.inline_epoch = Some(6);
    cache.compile_cache_entry(3, Some(old), Some(1));
    let asked = try_run_compiled(&mut cache, &mut rt, &call(1), DispatchEvent::Called);
    assert!(matches!(asked, DispatchAction::AskNativeCache));
    let mut replacement = leaf(20);
    replacement.min_args = 1;
    replacement.max_args = Some(1);
    let hit = try_run_compiled(
        &mut cache,
        &mut rt,
        &call(1),
        DispatchEvent::NativeCacheHit(replacement),
    );
    assert_eq!(run_handle(hit), Some(20));
    assert!(cache.is_compiled_for_test(3));
    assert!(!rt.aot_prewarmed);
}

#[test]
fn runs_with_args_and_rejects_arity_mismatch() {
    let mut cache = JitCache::new();
    let mut rt = runtime(2);
    let mut two = leaf(5);
    two.min_args = 2;
    two.max_args = Some(2);
    let right = try_run_compiled(&mut cache, &mut rt, &call(2), DispatchEvent::Compiled(two));
    assert_eq!(run_handle(right), Some(5));
    let wrong = try_run_compiled(&mut cache, &mut rt, &call(1), DispatchEvent::Called);
    assert!(matches!(wrong, DispatchAction::Interpret));
}

#[test]
fn a_call_above_the_limit_is_interpreted() {
    let mut cache = JitCache::new();
    let mut rt = runtime(9);
    let mut facts = call(0);
    facts.max_id = 8;
    let action = try_run_compiled(&mut cache, &mut rt, &facts, DispatchEvent::Called);
    assert!(matches!(action, DispatchAction::Interpret));
    assert_eq!(max_compiled_id(Some("8")), 8);
    assert_eq!(max_compiled_id(Some("eight")), u64::MAX);
    assert_eq!(max_compiled_id(None), u64::MAX);
}

#[test]
fn preloaded_code_serves_plain_bodies_only() {
    let mut cache = JitCache::new();
    let mut facts = call(0);
    facts.aot_enabled = true;
    let mut plain = runtime(4);
    let asked = try_run_compiled(&mut cache, &mut plain, &facts, DispatchEvent::Called);
    assert!(matches!(asked, DispatchAction::LoadAot));
    let mut patched = runtime(5);
    patched.patched_prefix = 1;
    let compiled = try_run_compiled(&mut cache, &mut patched, &facts, DispatchEvent::Called);
    assert!(matches!(compiled, DispatchAction::Compile));
    let miss = try_run_compiled(&mut cache, &mut plain, &facts, DispatchEvent::AotMiss);
    assert!(matches!(miss, DispatchAction::Compile));
    let hit = try_run_compiled(
        &mut cache,
        &mut plain,
        &facts,
        DispatchEvent::AotHit(leaf(77)),
    );
    assert_eq!(run_handle(hit), Some(77));
}

#[test]
fn the_native_cache_is_given_up_after_a_miss() {
    let mut cache = JitCache::new();
    let mut rt = runtime(6);
    rt.aot_prewarmed = true;
    let miss = try_run_compiled(&mut cache, &mut rt, &call(0), DispatchEvent::NativeCacheMiss);
    assert!(matches!(miss, DispatchAction::Interpret));
    assert!(!rt.aot_prewarmed);
    let next = try_run_compiled(&mut cache, &mut rt, &call(0), DispatchEvent::Called);
    assert!(matches!(next, DispatchAction::Compile));
}

#[test]
fn dense_cache_keeps_what_it_is_given() {
    let mut cache = DenseCache::new();
    assert!(cache.get(4).is_none());
    cache.insert(4, CacheEntry::Compiled(Rc::new(leaf(1))));
    assert!(matches!(cache.get(4), Some(CacheEntry::Compiled(_))));
    assert!(!cache.get_or_insert_with(4, CacheEntry::NotCompilable));
    assert!(cache.get_or_insert_with(2, CacheEntry::NotCompilable));
    assert_eq!(cache.len(), 2);
    assert_eq!(cache.iter(), vec![2, 4]);
    cache.remove(4);
    assert!(cache.get(4).is_none());
    cache.clear();
    assert_eq!(cache.len(), 0);
}

#[test]
fn redefining_a_function_evicts_the_callers_that_inlined_it() {
    let mut cache = JitCache::new();
    let mut inlined = leaf(1);
    inlined.inline_deps = vec![50, 51];
    cache.compile_cache_entry(1, Some(inlined), Some(1));
    cache.compile_cache_entry(2, Some(leaf(2)), Some(1));
    assert_eq!(cache.inline_dependent_count_for_test(50), 1);
    cache.evict_inline_dependents(50);
    assert!(!cache.is_compiled_for_test(1));
    assert!(cache.is_compiled_for_test(2));
    assert_eq!(cache.inline_dependent_count_for_test(50), 0);
}

#[test]
fn another_heap_empties_the_cache() {
    let mut cache = JitCache::new();
    cache.compile_cache_entry(1, Some(leaf(1)), Some(1));
    cache.sync_cache_to_current_heap(Some(1));
    assert!(cache.is_compiled_for_test(1));
    cache.sync_cache_to_current_heap(Some(2));
    assert!(!cache.is_compiled_for_test(1));
    assert!(cache.compiled.retired.is_empty());
    assert_eq!(cache.compiled_heap, Some(2));
}

#[test]
fn preloading_overwrites_nothing() {
    let mut cache = JitCache::new();
    cache.compile_cache_entry(1, Some(leaf(1)), Some(1));
    let mut loaded = leaf(2);
    loaded.aot_backed = true;
    let inserted = cache.prepopulate_aot_leaves(vec![(1, leaf(9)), (2, loaded)], Some(1));
    assert_eq!(inserted, vec![2]);
    assert_eq!(cache.cached_leaf_is_aot_for_test(1), Some(false));
    assert_eq!(cache.cached_leaf_is_aot_for_test(2), Some(true));
    assert_eq!(cache.cached_leaf_is_aot_for_test(3), None);
    let ids = cache.jit_compiled_ids();
    assert!(ids.contains(&1));
}

#[test]
fn stale_inlined_code_is_dropped_and_fresh_code_kept() {
    let mut cache = JitCache::new();
    let mut inlined = leaf(1);
    inlined.inline_epoch = Some(3);
    cache.compile_cache_entry(1, Some(inlined), Some(1));
    cache.evict_stale_inline_leaf(1, Some(3));
    assert!(cache.is_compiled_for_test(1));
    cache.evict_stale_inline_leaf(1, Some(4));
    assert!(!cache.is_compiled_for_test(1));
    assert!(cache.resolve_compiled_leaf(1, u64::MAX).is_none());
}

#[test]
fn native_depth_counts_calls() {
    let mut cache = JitCache::new();
    cache.enter();
    cache.enter();
    assert_eq!(cache.native_depth(), 2);
    cache.leave();
    assert_eq!(cache.native_depth(), 1);
}

#[test]
fn compiling_on_request_reports_the_id() {
    let mut cache = JitCache::new();
    let rt = runtime(8);
    assert_eq!(
        compile_and_cache_jit_leaf(&mut cache, &rt, Some(leaf(1)), Some(1)),
        Some(8)
    );
    assert_eq!(
        compile_and_cache_jit_leaf(&mut cache, &rt, None, Some(1)),
        None
    );
    assert!(!cache.is_compiled_for_test(8));
}

#[test]
fn a_loop_is_compiled_once() {
    let mut cache = JitCache::new();
    assert!(matches!(
        try_run_osr(&mut cache, false, Some(1), 1, 20, 3),
        OsrAction::Stay
    ));
    assert!(matches!(
        try_run_osr(&mut cache, true, Some(1), 1, 20, 3),
        OsrAction::Compile
    ));
    let entry = OsrEntry {
        leaf: Rc::new(leaf(30)),
        entry_depth: 3,
    };
    match finish_osr_compile(&mut cache, 1, 20, 3, Some(entry)) {
        OsrAction::Transfer(leaf) => assert_eq!(leaf.handle, 30),
        _ => panic!("the loop is entered"),
    }
    assert!(matches!(
        try_run_osr(&mut cache, true, Some(1), 1, 20, 2),
        OsrAction::Stay
    ));
}

#[test]
fn a_loop_that_cannot_be_entered_is_left_alone() {
    let mut cache = JitCache::new();
    try_run_osr(&mut cache, true, Some(1), 1, 20, 3);
    finish_osr_compile(&mut cache, 1, 20, 3, None);
    assert!(matches!(
        try_run_osr(&mut cache, true, Some(1), 1, 20, 3),
        OsrAction::Stay
    ));
}

#[test]
fn a_loop_is_entered_only_without_dynamic_state() {
    let at = Some(LoopFacts {
        entry_depth: 2,
        handlers: 0,
    });
    let plain = vec![OpKind::Other, OpKind::Other];
    let binding = vec![OpKind::Other, OpKind::VarBind];
    assert!(!osr_body_has_dynamic_state(&plain));
    assert!(osr_body_has_dynamic_state(&binding));
    let entry = compile_osr_leaf(true, &plain, at, Some(leaf(1))).expect("the loop is plain");
    assert_eq!(entry.entry_depth, 2);
    assert!(compile_osr_leaf(false, &plain, at, Some(leaf(1))).is_none());
    assert!(compile_osr_leaf(true, &binding, at, Some(leaf(1))).is_none());
    assert!(compile_osr_leaf(true, &plain, None, Some(leaf(1))).is_none());
    assert!(compile_osr_leaf(true, &plain, at, None).is_none());
    let handled = Some(LoopFacts {
        entry_depth: 2,
        handlers: 1,
    });
    assert!(compile_osr_leaf(true, &plain, handled, Some(leaf(1))).is_none());
}

#[test]
fn the_collector_sees_every_loaded_value() {
    let mut cache = JitCache::new();
    let mut one = leaf(1);
    one.reloc_values = vec![100, 101];
    cache.compile_cache_entry(1, Some(one), Some(1));
    let mut looped = leaf(2);
    looped.reloc_values = vec![200];
    finish_osr_compile(
        &mut cache,
        1,
        4,
        0,
        Some(OsrEntry {
            leaf: Rc::new(looped),
            entry_depth: 0,
        }),
    );
    assert_eq!(cache.compiled_cache_probe(), (1, 2));
    let mut roots = vec![9];
    collect_jit_reloc_gc_roots(&mut cache, Some(1), &mut roots);
    assert_eq!(roots, vec![9, 100, 101, 200]);
}

#[test]
fn a_native_call_hands_on_what_the_callee_did() {
    assert_eq!(
        run_resolved_leaf_native(NativeRun::Done(3), None),
        NativeCallOutcome::Value(3)
    );
    assert_eq!(
        run_resolved_leaf_native(NativeRun::Deopt, None),
        NativeCallOutcome::Fallback
    );
    assert_eq!(
        run_resolved_leaf_native(NativeRun::DeoptAt, Some(Ok(4))),
        NativeCallOutcome::Value(4)
    );
    assert_eq!(
        run_resolved_leaf_native(NativeRun::DeoptAt, Some(Err(()))),
        NativeCallOutcome::FlowStashed
    );
    assert_eq!(
        run_resolved_leaf_native(NativeRun::Signal, None),
        NativeCallOutcome::FlowStashed
    );
}

#[test]
fn numbers_are_read_in_decimal() {
    assert_eq!(parse_number("18446744073709551615"), Some(u64::MAX));
    assert_eq!(parse_number("18446744073709551616"), None);
    assert_eq!(parse_number("+12"), Some(12));
    assert_eq!(parse_number(""), None);
    assert_eq!(parse_number("+"), None);
    assert_eq!(parse_number("1a"), None);
}

#[test]
fn preloaded_leaves_are_named_once_and_in_order() {
    let mut cache = JitCache::new();
    cache.compile_cache_entry(4, None, Some(1));
    let leaves = vec![
        (7, leaf(70)),
        (4, leaf(40)),
        (3, leaf(30)),
        (7, leaf(71)),
    ];
    assert_eq!(cache.prepopulate_aot_leaves(leaves, Some(1)), vec![7, 3]);
    assert!(matches!(
        cache.compiled.get(4),
        Some(CacheEntry::NotCompilable)
    ));
    assert!(matches!(
        cache.compiled.get(7),
        Some(CacheEntry::Compiled(l)) if l.handle == 70
    ));
    assert_eq!(cache.compiled_heap, Some(1));
}

#[test]
fn evicted_leaves_stay_alive_and_the_heap_stays_pinned() {
    let mut cache = JitCache::new();
    let mut first = leaf(1);
    first.inline_deps = vec![50];
    let mut second = leaf(2);
    second.inline_deps = vec![50];
    cache.compile_cache_entry(1, Some(first), Some(1));
    cache.compile_cache_entry(2, Some(second), Some(7));
    cache.compile_cache_entry(3, Some(leaf(3)), Some(7));
    cache.evict_compiled(3);
    cache.evict_inline_dependents(50);
    let handles: Vec<u64> = cache.compiled.retired.iter().map(|l| l.handle).collect();
    assert_eq!(handles.len(), 3);
    assert_eq!(handles[0], 3);
    assert!(handles.contains(&1) && handles.contains(&2));
    cache.evict_inline_dependents(50);
    assert_eq!(cache.compiled.retired.len(), 3);
    assert_eq!(cache.compiled_heap, Some(1));
}
