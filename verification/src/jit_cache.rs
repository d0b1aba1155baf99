//! The cache of compiled functions: which code is kept for which function, when it
//! is thrown away, and what a call does with it.
//!
//! Machine code is not held here. A leaf is told by a handle and by what the cache
//! has to know of it.
use rustc_hash::{FxBuildHasher, FxHashMap, FxHashSet};
use std::rc::Rc;
use vstd::prelude::*;

verus! {

/// The hasher of the maps below, which has no seed.
#[verifier::external_type_specification]
#[verifier::external_body]
pub struct ExFxBuildHasher(rustc_hash::FxBuildHasher);

/// Native code for one function.
#[derive(Debug)]
pub struct CompiledLeaf {
    /// What the code is called by where it is kept.
    pub handle: u64,
    /// The fewest and the most arguments that it takes; no bound with a rest list.
    pub min_args: usize,
    pub max_args: Option<usize>,
    /// The state of the function table that the leaf's inlined callees belong to;
    /// `None` where nothing is inlined.
    pub inline_epoch: Option<u64>,
    /// The functions that are inlined.
    pub inline_deps: Vec<u32>,
    /// The code was loaded rather than compiled here.
    pub aot_backed: bool,
    /// The heap values that the code loads.
    pub reloc_values: Vec<u64>,
}

impl CompiledLeaf {
    pub open spec fn takes(self, n: usize) -> bool {
        self.min_args <= n && match self.max_args {
            Some(m) => n <= m,
            None => true,
        }
    }

    /// Whether a call with `n` arguments fits the lambda list.
    pub fn accepts(&self, n: usize) -> (r: bool)
        ensures
            r == self.takes(n),
    {
        self.min_args <= n && match self.max_args {
            Some(m) => n <= m,
            None => true,
        }
    }
}

/// What is known of a function's compiled state.
#[derive(Debug)]
pub enum CacheEntry {
    /// Native code, ready to run.
    Compiled(Rc<CompiledLeaf>),
    /// The body is outside of what can be compiled; it is never tried again.
    NotCompilable,
}

/// The compiled state of functions, indexed by their ids.
#[derive(Debug)]
pub struct DenseCache {
    pub slots: Vec<Option<CacheEntry>>,
    /// Leaves that were thrown out but may still be pointed at.
    pub retired: Vec<Rc<CompiledLeaf>>,
}

/// How many of the slots are taken.
pub open spec fn taken(v: Seq<Option<CacheEntry>>) -> nat
    decreases v.len(),
{
    if v.len() == 0 {
        0
    } else {
        taken(v.drop_last()) + if v.last() is Some {
            1nat
        } else {
            0nat
        }
    }
}

/// How many heap values the compiled leaves of the slots load.
pub open spec fn reloc_count(v: Seq<Option<CacheEntry>>) -> nat
    decreases v.len(),
{
    if v.len() == 0 {
        0
    } else {
        reloc_count(v.drop_last()) + entry_relocs(v.last()).len()
    }
}

/// The heap values that a slot's leaf loads.
pub open spec fn entry_relocs(e: Option<CacheEntry>) -> Seq<u64> {
    match e {
        Some(CacheEntry::Compiled(leaf)) => leaf.reloc_values@,
        _ => Seq::empty(),
    }
}

/// The heap values that the leaves of the slots load, slot by slot.
pub open spec fn relocs(v: Seq<Option<CacheEntry>>) -> Seq<u64>
    decreases v.len(),
{
    if v.len() == 0 {
        Seq::empty()
    } else {
        relocs(v.drop_last()) + entry_relocs(v.last())
    }
}

impl DenseCache {
    /// What is known of `id`.
    pub open spec fn at(self, id: u64) -> Option<CacheEntry> {
        if id < self.slots@.len() {
            self.slots@[id as int]
        } else {
            None
        }
    }

    /// The leaf that is kept for `id`.
    pub open spec fn leaf_at(self, id: u64) -> Option<CompiledLeaf> {
        match self.at(id) {
            Some(CacheEntry::Compiled(leaf)) => Some(*leaf),
            _ => None,
        }
    }

    /// An empty cache.
    pub fn new() -> (r: DenseCache)
        ensures
            forall|id: u64| r.at(id) is None,
            r.slots@.len() == 0,
            r.retired@.len() == 0,
    {
        DenseCache { slots: Vec::new(), retired: Vec::new() }
    }

    pub fn get(&self, id: u64) -> (r: Option<&CacheEntry>)
        ensures
            match r {
                Some(e) => self.at(id) == Some(*e),
                None => self.at(id) is None,
            },
    {
        if id < self.slots.len() as u64 {
            self.slots[id as usize].as_ref()
        } else {
            None
        }
    }

    /// Forgets `id`. A leaf that was kept for it is retired, not dropped: something
    /// that runs may still point at it.
    pub fn remove(&mut self, id: u64)
        ensures
            final(self).at(id) is None,
            forall|k: u64| k != id ==> final(self).at(k) == #[trigger] old(self).at(k),
            final(self).slots@.len() == old(self).slots@.len(),
            final(self).retired@ == match old(self).at(id) {
                Some(CacheEntry::Compiled(leaf)) => old(self).retired@.push(leaf),
                _ => old(self).retired@,
            },
    {
        if id < self.slots.len() as u64 {
            let mut entry: Option<CacheEntry> = None;
            std::mem::swap(&mut entry, &mut self.slots[id as usize]);
            match entry {
                Some(CacheEntry::Compiled(leaf)) => {
                    self.retired.push(leaf);
                },
                _ => {},
            }
        }
    }

    fn grow(&mut self, id: u64)
        requires
            id < usize::MAX,
        ensures
            final(self).slots@.len() > id,
            final(self).slots@.len() >= old(self).slots@.len(),
            forall|k: u64| final(self).at(k) == #[trigger] old(self).at(k),
            final(self).retired@ == old(self).retired@,
    {
        let ghost start = *self;
        while self.slots.len() as u64 <= id
            invariant
                id < usize::MAX,
                self.slots@.len() >= start.slots@.len(),
                forall|k: u64| self.at(k) == #[trigger] start.at(k),
                self.retired@ == start.retired@,
            decreases id + 1 - self.slots@.len(),
        {
            self.slots.push(None);
        }
    }

    /// Keeps `entry` for `id`, in place of what was kept.
    pub fn insert(&mut self, id: u64, entry: CacheEntry)
        requires
            id < usize::MAX,
        ensures
            final(self).at(id) == Some(entry),
            forall|k: u64| k != id ==> final(self).at(k) == #[trigger] old(self).at(k),
            final(self).retired@ == old(self).retired@,
    {
        self.grow(id);
        self.slots.set(id as usize, Some(entry));
    }

    /// What is kept for `id`, which is `entry` where nothing was.
    pub fn get_or_insert_with(&mut self, id: u64, entry: CacheEntry) -> (inserted: bool)
        requires
            id < usize::MAX,
        ensures
            inserted == (old(self).at(id) is None),
            final(self).at(id) == match old(self).at(id) {
                Some(e) => Some(e),
                None => Some(entry),
            },
            forall|k: u64| k != id ==> final(self).at(k) == #[trigger] old(self).at(k),
            final(self).retired@ == old(self).retired@,
    {
        if self.get(id).is_none() {
            self.insert(id, entry);
            true
        } else {
            false
        }
    }

    /// How many ids something is known of.
    pub fn len(&self) -> (r: usize)
        ensures
            r == taken(self.slots@),
            r <= self.slots@.len(),
    {
        let mut n: usize = 0;
        let mut i: usize = 0;
        while i < self.slots.len()
            invariant
                i <= self.slots.len(),
                n == taken(self.slots@.subrange(0, i as int)),
                n <= i,
            decreases self.slots.len() - i,
        {
            proof {
                assert(self.slots@.subrange(0, i + 1).drop_last() =~= self.slots@.subrange(
                    0,
                    i as int,
                ));
            }
            if self.slots[i].is_some() {
                n += 1;
            }
            i += 1;
        }
        proof {
            assert(self.slots@.subrange(0, self.slots@.len() as int) =~= self.slots@);
        }
        n
    }

    /// The ids that something is known of, in order.
    pub fn iter(&self) -> (r: Vec<u64>)
        ensures
            forall|id: u64| r@.contains(id) <==> self.at(id) is Some,
            forall|i: int, j: int| 0 <= i < j < r@.len() ==> r@[i] < r@[j],
    {
        let mut out: Vec<u64> = Vec::new();
        let mut i: usize = 0;
        while i < self.slots.len()
            invariant
                i <= self.slots.len(),
                forall|k: int| 0 <= k < out@.len() ==> #[trigger] out@[k] < i,
                forall|a: int, b: int| 0 <= a < b < out@.len() ==> out@[a] < out@[b],
                forall|id: u64| id < i ==> (out@.contains(id) <==> self.at(id) is Some),
            decreases self.slots.len() - i,
        {
            let ghost before = out@;
            let id: u64 = i as u64;
            if self.slots[i].is_some() {
                out.push(id);
                proof {
                    assert forall|k: u64| k <= i implies (out@.contains(k) <==> self.at(
                        k,
                    ) is Some) by {
                        if k < i {
                            if before.contains(k) {
                                let x = choose|x: int| 0 <= x < before.len() && before[x] == k;
                                assert(out@[x] == k);
                            }
                            if out@.contains(k) {
                                let x = choose|x: int| 0 <= x < out@.len() && out@[x] == k;
                                if x < before.len() {
                                    assert(before[x] == k);
                                }
                            }
                        } else {
                            assert(out@[before.len() as int] == k);
                        }
                    }
                }
            } else {
                proof {
                    assert(!out@.contains(id));
                }
            }
            i += 1;
        }
        proof {
            assert forall|id: u64| out@.contains(id) <==> self.at(id) is Some by {
                if id >= i && out@.contains(id) {
                    let x = choose|x: int| 0 <= x < out@.len() && out@[x] == id;
                    assert(out@[x] < i);
                }
            }
        }
        out
    }

    /// Forgets everything, retired leaves too.
    pub fn clear(&mut self)
        ensures
            forall|id: u64| final(self).at(id) is None,
            final(self).slots@.len() == 0,
            final(self).retired@.len() == 0,
    {
        self.slots.clear();
        self.retired.clear();
    }
}

/// For each function, the ids of the callers that inlined it.
pub type InlineDeps = FxHashMap<u32, FxHashSet<u64>>;

/// Code that enters a function at a loop: the leaf and the size of the operand
/// stack there; `None` where the loop cannot be entered.
#[derive(Debug)]
pub struct OsrEntry {
    pub leaf: Rc<CompiledLeaf>,
    pub entry_depth: usize,
}

pub type OsrCache = FxHashMap<(u64, usize), Option<OsrEntry>>;

/// No callers of any function.
pub open spec fn no_deps() -> Map<u32, FxHashSet<u64>> {
    Map::empty()
}

/// No entries of any loop.
pub open spec fn no_osr() -> Map<(u64, usize), Option<OsrEntry>> {
    Map::empty()
}

/// `HashMap::default` with the hasher of `rustc_hash`: an empty map.
#[verifier::external_body]
fn deps_new() -> (r: InlineDeps)
    ensures
        r@ == no_deps(),
{
    FxHashMap::default()
}

/// The callers that are recorded for `sym`.
pub open spec fn callers(m: Map<u32, FxHashSet<u64>>, sym: u32) -> Set<u64> {
    if m.dom().contains(sym) {
        m[sym]@
    } else {
        Set::empty()
    }
}

/// `HashMap::remove` with the hasher of `rustc_hash`: hands out the set of `sym`,
/// which the map then has no more; the other sets stay as they are.
#[verifier::external_body]
fn deps_remove(m: &mut InlineDeps, sym: u32) -> (r: Option<FxHashSet<u64>>)
    ensures
        r is Some == old(m)@.dom().contains(sym),
        r matches Some(s) ==> s@ == callers(old(m)@, sym),
        final(m)@ == old(m)@.remove(sym),
{
    m.remove(&sym)
}

/// `HashMap::insert` with the hasher of `rustc_hash`: keeps the set for `sym`.
#[verifier::external_body]
fn deps_insert(m: &mut InlineDeps, sym: u32, set: FxHashSet<u64>)
    ensures
        final(m)@ == old(m)@.insert(sym, set),
{
    m.insert(sym, set);
}

/// `HashMap::get` with the hasher of `rustc_hash`: the set of `sym`, where there is
/// one.
#[verifier::external_body]
fn deps_get(m: &InlineDeps, sym: u32) -> (r: Option<&FxHashSet<u64>>)
    ensures
        match r {
            Some(s) => m@.dom().contains(sym) && *s == m@[sym],
            None => !m@.dom().contains(sym),
        },
{
    m.get(&sym)
}

/// `HashMap::clear`: nothing is left.
#[verifier::external_body]
fn deps_clear(m: &mut InlineDeps)
    ensures
        final(m)@ == no_deps(),
{
    m.clear();
}

/// `HashSet::into_iter` with the hasher of `rustc_hash`: the members, each once, in
/// an order of its own.
#[verifier::external_body]
fn set_members(s: FxHashSet<u64>) -> (r: Vec<u64>)
    ensures
        r@.no_duplicates(),
        forall|id: u64| r@.contains(id) <==> s@.contains(id),
{
    s.into_iter().collect()
}

/// `HashSet::default` with the hasher of `rustc_hash`: an empty set.
#[verifier::external_body]
fn ids_new() -> (r: FxHashSet<u64>)
    ensures
        r@ == Set::<u64>::empty(),
{
    FxHashSet::default()
}

/// `HashSet::insert` with the hasher of `rustc_hash`: `id` joins the set.
#[verifier::external_body]
fn ids_add(s: &mut FxHashSet<u64>, id: u64)
    ensures
        final(s)@ == old(s)@.insert(id),
{
    s.insert(id);
}

/// `HashSet::len` with the hasher of `rustc_hash`: how many members there are.
#[verifier::external_body]
fn ids_len(s: &FxHashSet<u64>) -> (r: usize)
    ensures
        r == s@.len(),
{
    s.len()
}

/// `id` joins the callers of `sym`; those of other functions stay as they are.
fn deps_add(m: &mut InlineDeps, sym: u32, id: u64)
    ensures
        callers(final(m)@, sym) == callers(old(m)@, sym).insert(id),
        final(m)@.dom() == old(m)@.dom().insert(sym),
        forall|s: u32| s != sym ==> callers(final(m)@, s) == #[trigger] callers(old(m)@, s),
{
    let mut set: FxHashSet<u64> = match deps_remove(m, sym) {
        Some(s) => s,
        None => ids_new(),
    };
    ids_add(&mut set, id);
    deps_insert(m, sym, set);
    proof {
        assert(m@.dom() =~= old(m)@.dom().insert(sym));
    }
}

/// `HashMap::default` with the hasher of `rustc_hash`: an empty map.
#[verifier::external_body]
fn osr_new() -> (r: OsrCache)
    ensures
        r@ == no_osr(),
{
    FxHashMap::default()
}

/// `HashMap::get` with the hasher of `rustc_hash`: what is kept under the key.
#[verifier::external_body]
pub(crate) fn osr_get(m: &OsrCache, key: (u64, usize)) -> (r: Option<&Option<OsrEntry>>)
    ensures
        match r {
            Some(e) => m@.dom().contains(key) && *e == m@[key],
            None => !m@.dom().contains(key),
        },
{
    m.get(&key)
}

/// `HashMap::insert` with the hasher of `rustc_hash`: keeps `entry` under the key.
#[verifier::external_body]
pub(crate) fn osr_insert(m: &mut OsrCache, key: (u64, usize), entry: Option<OsrEntry>)
    ensures
        final(m)@ == old(m)@.insert(key, entry),
{
    m.insert(key, entry);
}

/// Whether an entry belongs to another function.
fn is_other(fid: u64, id: u64) -> (r: bool)
    ensures
        r == (fid != id),
{
    fid != id
}

/// `HashMap::retain` with the hasher of `rustc_hash`: keeps the entries of other
/// functions than `id`, and no others.
#[verifier::external_body]
fn osr_keep_others(m: &mut OsrCache, id: u64)
    ensures
        final(m)@.dom() == old(m)@.dom().filter(|k: (u64, usize)| k.0 != id),
        forall|k: (u64, usize)|
            final(m)@.dom().contains(k) ==> #[trigger] final(m)@[k] == old(m)@[k],
{
    m.retain(|k, _| is_other(k.0, id));
}

/// `HashMap::clear`: nothing is left.
#[verifier::external_body]
fn osr_clear(m: &mut OsrCache)
    ensures
        final(m)@ == no_osr(),
{
    m.clear();
}

/// `HashMap::keys` with the hasher of `rustc_hash`: the keys, each once, in an
/// order of its own.
#[verifier::external_body]
pub(crate) fn osr_keys(m: &OsrCache) -> (r: Vec<(u64, usize)>)
    ensures
        r@.no_duplicates(),
        forall|k: (u64, usize)| r@.contains(k) <==> m@.dom().contains(k),
{
    m.keys().copied().collect()
}

/// Gives functions their ids: each a new one, never zero.
#[derive(Debug)]
pub struct CompiledIds {
    pub next: u64,
}

impl CompiledIds {
    pub open spec fn wf(self) -> bool {
        self.next >= 1
    }

    pub fn new() -> (r: CompiledIds)
        ensures
            r.wf(),
            r.next == 1,
    {
        CompiledIds { next: 1 }
    }
}

/// What the compiler remembers of one function. No id is told by zero.
#[derive(Debug, Clone, Copy)]
pub struct Runtime {
    pub compiled_id: u64,
    /// Code for the function may be had from the native cache.
    pub aot_prewarmed: bool,
    /// How many leading constants a closure over the body replaces.
    pub patched_prefix: usize,
}

impl Runtime {
    pub fn new() -> (r: Runtime)
        ensures
            r.compiled_id == 0,
            !r.aot_prewarmed,
            r.patched_prefix == 0,
    {
        Runtime { compiled_id: 0, aot_prewarmed: false, patched_prefix: 0 }
    }

    /// An id that `ids` has given out, or none.
    pub open spec fn wf(self, ids: CompiledIds) -> bool {
        self.compiled_id < ids.next
    }

    /// The function's id; the first time it gets a new one.
    pub fn compiled_id_or_assign(&mut self, ids: &mut CompiledIds) -> (id: u64)
        requires
            old(ids).wf(),
            old(self).wf(*old(ids)),
            old(ids).next < u64::MAX,
        ensures
            final(ids).wf(),
            final(self).wf(*final(ids)),
            id != 0,
            id == final(self).compiled_id,
            old(self).compiled_id != 0 ==> id == old(self).compiled_id && final(ids).next == old(
                ids,
            ).next,
            old(self).compiled_id == 0 ==> id == old(ids).next && final(ids).next == old(ids).next
                + 1,
            final(self).aot_prewarmed == old(self).aot_prewarmed,
            final(self).patched_prefix == old(self).patched_prefix,
    {
        if self.compiled_id == 0 {
            self.compiled_id = ids.next;
            ids.next = ids.next + 1;
        }
        self.compiled_id
    }
}

/// Two functions that got their ids from the same source have different ones: an
/// id is below the next one to give out, which is what a function without an id gets.
pub proof fn law_ids_are_unique(ids: CompiledIds, named: Runtime, fresh: Runtime)
    requires
        ids.wf(),
        named.wf(ids),
        named.compiled_id != 0,
        fresh.compiled_id == 0,
    ensures
        named.compiled_id != ids.next,
{
}

/// Everything that one thread has compiled.
#[derive(Debug)]
pub struct JitCache {
    pub compiled: DenseCache,
    pub inline_deps: InlineDeps,
    /// The heap that the leaves were compiled against; `None` before the first.
    pub compiled_heap: Option<u64>,
    pub osr: OsrCache,
    /// How many native calls are under way.
    pub native_depth: u32,
}

/// Nothing is kept for any function or loop, nor of what was thrown out.
pub open spec fn is_empty_cache(c: JitCache) -> bool {
    &&& forall|id: u64| c.compiled.at(id) is None
    &&& c.compiled.retired@.len() == 0
    &&& c.inline_deps@ == no_deps()
    &&& c.osr@ == no_osr()
}

/// The heap that a cache is pinned to once something was stored in it.
pub open spec fn pinned(before: Option<u64>, heap: Option<u64>) -> Option<u64> {
    match before {
        Some(h) => Some(h),
        None => heap,
    }
}

/// The leaf of an entry is retired where the entry goes.
pub open spec fn retiring(
    retired: Seq<Rc<CompiledLeaf>>,
    entry: Option<CacheEntry>,
    goes: bool,
) -> Seq<Rc<CompiledLeaf>> {
    match entry {
        Some(CacheEntry::Compiled(leaf)) => if goes {
            retired.push(leaf)
        } else {
            retired
        },
        _ => retired,
    }
}

/// `id` has joined the callers of the functions that its leaf inlined, and no others.
pub open spec fn deps_joined(
    before: Map<u32, FxHashSet<u64>>,
    after: Map<u32, FxHashSet<u64>>,
    id: u64,
    deps: Seq<u32>,
) -> bool {
    forall|sym: u32|
        #[trigger] callers(after, sym) == if deps.contains(sym) {
            callers(before, sym).insert(id)
        } else {
            callers(before, sym)
        }
}

/// The two caches hold the same, but for the id that they are about.
pub open spec fn same_but(a: JitCache, b: JitCache, id: u64) -> bool {
    &&& forall|k: u64| k != id ==> a.compiled.at(k) == #[trigger] b.compiled.at(k)
    &&& a.osr@ == b.osr@
    &&& a.native_depth == b.native_depth
}

impl JitCache {
    /// A cache is pinned to a heap as soon as it holds compiled state.
    pub open spec fn wf(self) -> bool {
        self.compiled_heap is None ==> forall|id: u64| self.compiled.at(id) is None
    }

    pub fn new() -> (r: JitCache)
        ensures
            r.wf(),
            is_empty_cache(r),
            r.compiled_heap is None,
            r.native_depth == 0,
    {
        JitCache {
            compiled: DenseCache::new(),
            inline_deps: deps_new(),
            compiled_heap: None,
            osr: osr_new(),
            native_depth: 0,
        }
    }

    /// How deep native calls are nested.
    pub fn native_depth(&self) -> (r: u32)
        ensures
            r == self.native_depth,
    {
        self.native_depth
    }

    /// A native call starts.
    pub fn enter(&mut self)
        requires
            old(self).native_depth < u32::MAX,
        ensures
            old(self).wf() ==> final(self).wf(),
            final(self).native_depth == old(self).native_depth + 1,
            final(self).compiled == old(self).compiled,
            final(self).inline_deps == old(self).inline_deps,
            final(self).compiled_heap == old(self).compiled_heap,
            final(self).osr == old(self).osr,
    {
        self.native_depth = self.native_depth + 1;
    }

    /// A native call ends.
    pub fn leave(&mut self)
        requires
            old(self).native_depth > 0,
        ensures
            old(self).wf() ==> final(self).wf(),
            final(self).native_depth == old(self).native_depth - 1,
            final(self).compiled == old(self).compiled,
            final(self).inline_deps == old(self).inline_deps,
            final(self).compiled_heap == old(self).compiled_heap,
            final(self).osr == old(self).osr,
    {
        self.native_depth = self.native_depth - 1;
    }

    /// Forgets everything. A leaf must not lose its data under its own feet, so this
    /// is only for when no native call is under way.
    pub fn clear(&mut self)
        requires
            old(self).native_depth == 0,
        ensures
            old(self).wf() ==> final(self).wf(),
            is_empty_cache(*final(self)),
            final(self).compiled_heap == old(self).compiled_heap,
            final(self).native_depth == 0,
    {
        self.compiled.clear();
        deps_clear(&mut self.inline_deps);
        osr_clear(&mut self.osr);
    }

    /// Pins the heap that the leaves are compiled against, if none is.
    fn record_compiled_heap(&mut self, heap: Option<u64>)
        ensures
            final(self).compiled_heap == pinned(old(self).compiled_heap, heap),
            final(self).compiled == old(self).compiled,
            final(self).inline_deps == old(self).inline_deps,
            final(self).osr == old(self).osr,
            final(self).native_depth == old(self).native_depth,
    {
        if self.compiled_heap.is_none() {
            self.compiled_heap = heap;
        }
    }

    /// Makes sure that nothing is kept that belongs to another heap than `heap`. A
    /// cache that no heap is pinned to adopts it; only a change clears.
    pub fn sync_cache_to_current_heap(&mut self, heap: Option<u64>)
        requires
            (old(self).compiled_heap is Some && old(self).compiled_heap != heap) ==> old(
                self,
            ).native_depth == 0,
        ensures
            old(self).wf() ==> final(self).wf(),
            final(self).compiled_heap == heap,
            final(self).native_depth == old(self).native_depth,
            if old(self).compiled_heap is None || old(self).compiled_heap == heap {
                &&& final(self).compiled == old(self).compiled
                &&& final(self).inline_deps == old(self).inline_deps
                &&& final(self).osr == old(self).osr
            } else {
                is_empty_cache(*final(self))
            },
    {
        let changed: bool = match (self.compiled_heap, heap) {
            (None, _) => false,
            (Some(a), Some(b)) => a != b,
            (Some(_), None) => true,
        };
        self.compiled_heap = heap;
        if changed {
            self.clear();
        }
    }

    /// Keeps `entry` for `id` and pins the heap.
    pub(crate) fn store(&mut self, id: u64, entry: CacheEntry, heap: Option<u64>)
        requires
            id < usize::MAX,
        ensures
            old(self).wf() && heap is Some ==> final(self).wf(),
            same_but(*final(self), *old(self), id),
            final(self).compiled.at(id) == Some(entry),
            final(self).compiled.retired@ == old(self).compiled.retired@,
            final(self).inline_deps == old(self).inline_deps,
            final(self).compiled_heap == pinned(old(self).compiled_heap, heap),
    {
        self.record_compiled_heap(heap);
        self.compiled.insert(id, entry);
    }

    /// Records that the function `id` inlined those that `leaf` names.
    fn register_inline_deps(&mut self, id: u64, deps: &Vec<u32>)
        ensures
            forall|sym: u32|
                #[trigger] callers(final(self).inline_deps@, sym) == if deps@.contains(sym) {
                    callers(old(self).inline_deps@, sym).insert(id)
                } else {
                    callers(old(self).inline_deps@, sym)
                },
            final(self).compiled == old(self).compiled,
            final(self).compiled_heap == old(self).compiled_heap,
            final(self).osr == old(self).osr,
            final(self).native_depth == old(self).native_depth,
    {
        let ghost start = self.inline_deps@;
        let ghost before = *self;
        let mut i: usize = 0;
        while i < deps.len()
            invariant
                i <= deps.len(),
                forall|sym: u32|
                    #[trigger] callers(self.inline_deps@, sym) == if deps@.subrange(
                        0,
                        i as int,
                    ).contains(sym) {
                        callers(start, sym).insert(id)
                    } else {
                        callers(start, sym)
                    },
                self.compiled == before.compiled,
                self.compiled_heap == before.compiled_heap,
                self.osr == before.osr,
                self.native_depth == before.native_depth,
            decreases deps.len() - i,
        {
            let sym: u32 = deps[i];
            let ghost now = self.inline_deps@;
            deps_add(&mut self.inline_deps, sym, id);
            proof {
                let done = deps@.subrange(0, i as int);
                let next = deps@.subrange(0, i + 1);
                assert(next =~= done.push(sym));
                assert forall|s: u32|
                    #[trigger] callers(self.inline_deps@, s) == if next.contains(s) {
                        callers(start, s).insert(id)
                    } else {
                        callers(start, s)
                    } by {
                    if s == sym {
                        assert(next[i as int] == s);
                        assert(callers(now, s).insert(id) =~= callers(start, s).insert(id));
                    } else {
                        assert(callers(now, s) == callers(self.inline_deps@, s));
                        if done.contains(s) {
                            let x = choose|x: int| 0 <= x < done.len() && done[x] == s;
                            assert(next[x] == s);
                        }
                        if next.contains(s) {
                            let x = choose|x: int| 0 <= x < next.len() && next[x] == s;
                            assert(done[x] == s);
                        }
                    }
                }
            }
            i += 1;
        }
        proof {
            assert(deps@.subrange(0, deps@.len() as int) =~= deps@);
        }
    }

    /// Keeps what a compilation of `id` ended with: the leaf, whose inlined
    /// functions are recorded, or that there is none.
    pub fn compile_cache_entry(
        &mut self,
        id: u64,
        result: Option<CompiledLeaf>,
        heap: Option<u64>,
    ) -> (r: Option<Rc<CompiledLeaf>>)
        requires
            id < usize::MAX,
        ensures
            old(self).wf() && heap is Some ==> final(self).wf(),
            same_but(*final(self), *old(self), id),
            final(self).compiled.retired@ == old(self).compiled.retired@,
            final(self).compiled_heap == pinned(old(self).compiled_heap, heap),
            match result {
                Some(leaf) => {
                    &&& r matches Some(l) && *l == leaf
                    &&& final(self).compiled.leaf_at(id) == Some(leaf)
                    &&& deps_joined(
                        old(self).inline_deps@,
                        final(self).inline_deps@,
                        id,
                        leaf.inline_deps@,
                    )
                },
                None => {
                    &&& r is None
                    &&& final(self).compiled.at(id) == Some(CacheEntry::NotCompilable)
                    &&& final(self).inline_deps == old(self).inline_deps
                },
            },
    {
        match result {
            Some(leaf) => {
                self.register_inline_deps(id, &leaf.inline_deps);
                let kept: Rc<CompiledLeaf> = Rc::new(leaf);
                self.store(id, CacheEntry::Compiled(Rc::clone(&kept)), heap);
                Some(kept)
            },
            None => {
                self.store(id, CacheEntry::NotCompilable, heap);
                None
            },
        }
    }

    /// Forgets what was compiled for `id`, its loop entries too.
    pub fn evict_compiled(&mut self, id: u64)
        ensures
            old(self).wf() ==> final(self).wf(),
            final(self).compiled.at(id) is None,
            forall|k: u64| k != id ==> final(self).compiled.at(k) == #[trigger] old(
                self,
            ).compiled.at(k),
            final(self).compiled.retired@ == match old(self).compiled.at(id) {
                Some(CacheEntry::Compiled(leaf)) => old(self).compiled.retired@.push(leaf),
                _ => old(self).compiled.retired@,
            },
            forall|k: (u64, usize)|
                #[trigger] final(self).osr@.dom().contains(k) <==> old(self).osr@.dom().contains(
                    k,
                ) && k.0 != id,
            forall|k: (u64, usize)|
                final(self).osr@.dom().contains(k) ==> #[trigger] final(self).osr@[k] == old(
                    self,
                ).osr@[k],
            final(self).inline_deps == old(self).inline_deps,
            final(self).compiled_heap == old(self).compiled_heap,
            final(self).native_depth == old(self).native_depth,
    {
        let ghost before = *self;
        self.compiled.remove(id);
        osr_keep_others(&mut self.osr, id);
        proof {
            if before.wf() {
                assert forall|k: u64| self.compiled_heap is None implies self.compiled.at(
                    k,
                ) is None by {
                    assert(before.compiled.at(k) is None);
                }
            }
        }
    }

    /// The function `sym` has a new definition: forgets the code of every caller that
    /// inlined the old one.
    pub fn evict_inline_dependents(&mut self, sym: u32)
        ensures
            old(self).wf() ==> final(self).wf(),
            dependents_evicted(*old(self), *final(self), sym),
    {
        let ghost start = *self;
        let ids: Vec<u64> = match deps_remove(&mut self.inline_deps, sym) {
            Some(set) => set_members(set),
            None => Vec::new(),
        };
        let mut i: usize = 0;
        proof {
            assert(lists_callers(ids@, callers(start.inline_deps@, sym)));
            assert(start.compiled.retired@ + leaves_of(start.compiled, ids@.subrange(0, 0))
                =~= start.compiled.retired@);
        }
        while i < ids.len()
            invariant
                i <= ids.len(),
                ids@.no_duplicates(),
                forall|id: u64|
                    #[trigger] self.compiled.at(id) == if ids@.subrange(0, i as int).contains(id) {
                        None
                    } else {
                        start.compiled.at(id)
                    },
                self.compiled.retired@ == start.compiled.retired@ + leaves_of(
                    start.compiled,
                    ids@.subrange(0, i as int),
                ),
                i == 0 ==> self.compiled == start.compiled,
                self.inline_deps@ == start.inline_deps@.remove(sym),
                self.osr == start.osr,
                self.compiled_heap == start.compiled_heap,
                self.native_depth == start.native_depth,
            decreases ids.len() - i,
        {
            let id: u64 = ids[i];
            let ghost now = self.compiled;
            self.compiled.remove(id);
            proof {
                let done = ids@.subrange(0, i as int);
                let next = ids@.subrange(0, i + 1);
                assert(next =~= done.push(id));
                assert(next.drop_last() =~= done);
                assert(!done.contains(id)) by {
                    if done.contains(id) {
                        let x = choose|x: int| 0 <= x < done.len() && done[x] == id;
                        assert(ids@[x] == ids@[i as int]);
                    }
                }
                assert(now.at(id) == start.compiled.at(id));
                assert(self.compiled.retired@ =~= start.compiled.retired@ + leaves_of(
                    start.compiled,
                    next,
                ));
                assert forall|k: u64|
                    #[trigger] self.compiled.at(k) == if next.contains(k) {
                        None
                    } else {
                        start.compiled.at(k)
                    } by {
                    if k == id {
                        assert(next[i as int] == k);
                    } else {
                        assert(self.compiled.at(k) == now.at(k));
                        if done.contains(k) {
                            let x = choose|x: int| 0 <= x < done.len() && done[x] == k;
                            assert(next[x] == k);
                        }
                        if next.contains(k) {
                            let x = choose|x: int| 0 <= x < next.len() && next[x] == k;
                            assert(done[x] == k);
                        }
                    }
                }
            }
            i += 1;
        }
        proof {
            assert(ids@.subrange(0, ids@.len() as int) =~= ids@);
            assert(callers(self.inline_deps@, sym) =~= Set::<u64>::empty());
            if callers(start.inline_deps@, sym) == Set::<u64>::empty() {
                assert(ids@.len() == 0) by {
                    if ids@.len() > 0 {
                        assert(ids@.contains(ids@[0]));
                    }
                }
            }
        }
    }

    /// Whether native code is kept for `id`.
    pub fn is_compiled_for_test(&self, id: u64) -> (r: bool)
        ensures
            r == (self.compiled.leaf_at(id) is Some),
    {
        match self.compiled.get(id) {
            Some(CacheEntry::Compiled(_)) => true,
            _ => false,
        }
    }

    /// Whether the code that is kept for `id` was loaded; `None` where none is kept.
    pub fn cached_leaf_is_aot_for_test(&self, id: u64) -> (r: Option<bool>)
        ensures
            r == match self.compiled.leaf_at(id) {
                Some(leaf) => Some(leaf.aot_backed),
                None => None,
            },
    {
        match self.compiled.get(id) {
            Some(CacheEntry::Compiled(leaf)) => Some(leaf.aot_backed),
            _ => None,
        }
    }

    /// How many callers are recorded as having inlined `sym`.
    pub fn inline_dependent_count_for_test(&self, sym: u32) -> (r: usize)
        ensures
            r == callers(self.inline_deps@, sym).len(),
    {
        match deps_get(&self.inline_deps, sym) {
            Some(s) => ids_len(s),
            None => 0,
        }
    }

    /// The functions whose code was compiled here rather than loaded.
    pub fn jit_compiled_ids(&self) -> (r: FxHashSet<u64>)
        ensures
            forall|id: u64|
                #[trigger] r@.contains(id) <==> (self.compiled.leaf_at(id) matches Some(l)
                    && !l.aot_backed),
    {
        let all: Vec<u64> = self.compiled.iter();
        let mut out: FxHashSet<u64> = ids_new();
        let mut i: usize = 0;
        while i < all.len()
            invariant
                i <= all.len(),
                forall|id: u64| all@.contains(id) <==> self.compiled.at(id) is Some,
                forall|id: u64|
                    #[trigger] out@.contains(id) <==> all@.subrange(0, i as int).contains(id)
                        && (self.compiled.leaf_at(id) matches Some(l) && !l.aot_backed),
            decreases all.len() - i,
        {
            let id: u64 = all[i];
            proof {
                let done = all@.subrange(0, i as int);
                let next = all@.subrange(0, i + 1);
                assert(next =~= done.push(id));
                assert(next[i as int] == id);
                assert forall|k: u64| next.contains(k) <==> done.contains(k) || k == id by {
                    if done.contains(k) {
                        let x = choose|x: int| 0 <= x < done.len() && done[x] == k;
                        assert(next[x] == k);
                    }
                    if next.contains(k) && k != id {
                        let x = choose|x: int| 0 <= x < next.len() && next[x] == k;
                        assert(done[x] == k);
                    }
                }
            }
            match self.compiled.get(id) {
                Some(CacheEntry::Compiled(leaf)) => {
                    if !leaf.aot_backed {
                        ids_add(&mut out, id);
                    }
                },
                _ => {},
            }
            i += 1;
        }
        proof {
            assert(all@.subrange(0, all@.len() as int) =~= all@);
        }
        out
    }

    /// How many ids something is known of, and how many heap values their leaves load.
    pub fn compiled_cache_probe(&self) -> (r: (usize, usize))
        requires
            reloc_count(self.compiled.slots@) <= usize::MAX,
        ensures
            r.0 == taken(self.compiled.slots@),
            r.1 == reloc_count(self.compiled.slots@),
    {
        let ghost all = self.compiled.slots@;
        let mut n: usize = 0;
        let mut i: usize = 0;
        while i < self.compiled.slots.len()
            invariant
                i <= self.compiled.slots.len(),
                all == self.compiled.slots@,
                reloc_count(all) <= usize::MAX,
                n == reloc_count(all.subrange(0, i as int)),
            decreases self.compiled.slots.len() - i,
        {
            proof {
                assert(all.subrange(0, i + 1).drop_last() =~= all.subrange(0, i as int));
                lemma_reloc_count_monotone(all, i + 1);
            }
            match &self.compiled.slots[i] {
                Some(CacheEntry::Compiled(leaf)) => {
                    n = n + leaf.reloc_values.len();
                },
                _ => {},
            }
            i += 1;
        }
        proof {
            assert(all.subrange(0, all.len() as int) =~= all);
        }
        (self.compiled.len(), n)
    }

    /// Keeps loaded leaves, each for an id that nothing is known of; says which.
    pub fn prepopulate_aot_leaves(
        &mut self,
        leaves: Vec<(u64, CompiledLeaf)>,
        heap: Option<u64>,
    ) -> (inserted: Vec<u64>)
        requires
            forall|i: int| 0 <= i < leaves@.len() ==> (#[trigger] leaves@[i]).0 < usize::MAX,
        ensures
            old(self).wf() && heap is Some ==> final(self).wf(),
            final(self).compiled_heap == heap,
            inserted@ == kept_ids(old(self).compiled, leaves@),
            forall|id: u64|
                if inserted@.contains(id) {
                    &&& #[trigger] old(self).compiled.at(id) is None
                    &&& first_leaf(leaves@, id) is Some
                    &&& final(self).compiled.leaf_at(id) == first_leaf(leaves@, id)
                } else {
                    final(self).compiled.at(id) == old(self).compiled.at(id)
                },
            final(self).compiled.retired@ == old(self).compiled.retired@,
            final(self).inline_deps == old(self).inline_deps,
            final(self).osr == old(self).osr,
            final(self).native_depth == old(self).native_depth,
    {
        let ghost start = *self;
        let ghost all = leaves@;
        let total: usize = leaves.len();
        let mut rest: Vec<(u64, CompiledLeaf)> = leaves;
        let mut inserted: Vec<u64> = Vec::new();
        self.compiled_heap = heap;
        proof {
            assert(all.subrange(0, 0) =~= Seq::empty());
            assert(all.subrange(0, all.len() as int) =~= all);
        }
        let mut done: usize = 0;
        while rest.len() > 0
            invariant
                done + rest@.len() == all.len() == total,
                rest@ == all.subrange(done as int, all.len() as int),
                self.compiled_heap == heap,
                forall|i: int| 0 <= i < all.len() ==> (#[trigger] all[i]).0 < usize::MAX,
                forall|id: u64|
                    #[trigger] start.compiled.at(id) is Some ==> self.compiled.at(id)
                        == start.compiled.at(id),
                forall|id: u64|
                    start.compiled.at(id) is None ==> (#[trigger] self.compiled.at(
                        id,
                    ) is None && first_leaf(all.subrange(0, done as int), id) is None) || (
                    self.compiled.leaf_at(id) is Some && self.compiled.leaf_at(id) == first_leaf(
                        all.subrange(0, done as int),
                        id,
                    )),
                forall|id: u64|
                    #[trigger] inserted@.contains(id) <==> start.compiled.at(id) is None
                        && first_leaf(all.subrange(0, done as int), id) is Some,
                inserted@ == kept_ids(start.compiled, all.subrange(0, done as int)),
                self.compiled.retired@ == start.compiled.retired@,
                self.inline_deps == start.inline_deps,
                self.osr == start.osr,
                self.native_depth == start.native_depth,
            decreases rest@.len(),
        {
            let ghost before = self.compiled;
            let ghost listed = inserted@;
            let ghost prefix = all.subrange(0, done as int);
            let (id, leaf): (u64, CompiledLeaf) = rest.remove(0);
            let ghost item = (id, leaf);
            proof {
                assert(all[done as int] == item);
                assert(rest@ =~= all.subrange(done + 1, all.len() as int));
                assert(all.subrange(0, done + 1) =~= prefix.push(item));
            }
            if self.compiled.get(id).is_none() {
                self.compiled.insert(id, CacheEntry::Compiled(Rc::new(leaf)));
                inserted.push(id);
            }
            proof {
                let next = all.subrange(0, done + 1);
                assert(next.drop_last() =~= prefix);
                assert(before.at(id) is None <==> start.compiled.at(id) is None && first_leaf(
                    prefix,
                    id,
                ) is None);
                assert forall|k: u64| #[trigger] first_leaf(next, k) == if first_leaf(
                    prefix,
                    k,
                ) is Some {
                    first_leaf(prefix, k)
                } else if k == id {
                    Some(leaf)
                } else {
                    None
                } by {
                    lemma_first_leaf_push(prefix, item, k);
                }
                assert forall|k: u64| start.compiled.at(k) is None implies (#[trigger] self.compiled.at(
                    k,
                ) is None && first_leaf(next, k) is None) || (self.compiled.leaf_at(k) is Some
                    && self.compiled.leaf_at(k) == first_leaf(next, k)) by {
                    assert(k != id ==> self.compiled.at(k) == before.at(k));
                    assert(before.at(k) is None ==> first_leaf(prefix, k) is None);
                }
                assert forall|k: u64|
                    #[trigger] inserted@.contains(k) <==> start.compiled.at(k) is None
                        && first_leaf(next, k) is Some by {
                    if listed.contains(k) {
                        let x = choose|x: int| 0 <= x < listed.len() && listed[x] == k;
                        assert(inserted@[x] == k);
                    }
                    if inserted@.contains(k) && !listed.contains(k) {
                        let x = choose|x: int| 0 <= x < inserted@.len() && inserted@[x] == k;
                        if x < listed.len() {
                            assert(listed[x] == k);
                        }
                        assert(k == id);
                        assert(before.at(id) is None);
                    }
                    if k == id && before.at(id) is None {
                        assert(inserted@[listed.len() as int] == k);
                    }
                    if k == id && before.at(id) is Some && start.compiled.at(k) is None {
                        assert(first_leaf(prefix, k) is Some);
                    }
                    assert(start.compiled.at(id) is Some ==> before.at(id) is Some);
                }
            }
            done = done + 1;
        }
        proof {
            assert(all.subrange(0, done as int) =~= all);
            assert forall|id: u64|
                if inserted@.contains(id) {
                    &&& #[trigger] start.compiled.at(id) is None
                    &&& first_leaf(all, id) is Some
                    &&& self.compiled.leaf_at(id) == first_leaf(all, id)
                } else {
                    self.compiled.at(id) == start.compiled.at(id)
                } by {
                assert(self.compiled.at(id) is None || self.compiled.at(id) is Some);
            }
        }
        inserted
    }

    /// Forgets the leaf of `id` if it inlined functions that may have changed since:
    /// `epoch` is the state of the function table now.
    pub fn evict_stale_inline_leaf(&mut self, id: u64, epoch: Option<u64>)
        ensures
            old(self).wf() ==> final(self).wf(),
            same_but(*final(self), *old(self), id),
            final(self).inline_deps == old(self).inline_deps,
            final(self).compiled_heap == old(self).compiled_heap,
            final(self).compiled.at(id) == if stale_inline(old(self).compiled.at(id), epoch) {
                None
            } else {
                old(self).compiled.at(id)
            },
            final(self).compiled.retired@ == retiring(
                old(self).compiled.retired@,
                old(self).compiled.at(id),
                stale_inline(old(self).compiled.at(id), epoch),
            ),
    {
        let stale: bool = match self.compiled.get(id) {
            Some(CacheEntry::Compiled(leaf)) => match (leaf.inline_epoch, epoch) {
                (None, _) => false,
                (Some(a), Some(b)) => a != b,
                (Some(_), None) => true,
            },
            _ => false,
        };
        if stale {
            self.compiled.remove(id);
        }
    }

    /// The leaf of `id` where a call may keep pointing at it: one that inlined
    /// nothing. Its validity cannot depend on another function's definition.
    pub fn resolve_compiled_leaf(&self, id: u64, max_id: u64) -> (r: Option<Rc<CompiledLeaf>>)
        ensures
            match self.compiled.leaf_at(id) {
                Some(leaf) if id <= max_id && leaf.inline_epoch is None => r matches Some(l) && *l
                    == leaf,
                _ => r is None,
            },
    {
        if id > max_id {
            return None;
        }
        match self.compiled.get(id) {
            Some(CacheEntry::Compiled(leaf)) => if leaf.inline_epoch.is_none() {
                Some(Rc::clone(leaf))
            } else {
                None
            },
            _ => None,
        }
    }
}

/// A leaf that inlined functions of another state of the function table.
pub open spec fn stale_inline(e: Option<CacheEntry>, epoch: Option<u64>) -> bool {
    match e {
        Some(CacheEntry::Compiled(leaf)) => leaf.inline_epoch is Some && leaf.inline_epoch != epoch,
        _ => false,
    }
}

/// The first leaf for `id` in the list.
pub open spec fn first_leaf(v: Seq<(u64, CompiledLeaf)>, id: u64) -> Option<CompiledLeaf>
    decreases v.len(),
{
    if v.len() == 0 {
        None
    } else {
        match first_leaf(v.drop_last(), id) {
            Some(l) => Some(l),
            None => if v.last().0 == id {
                Some(v.last().1)
            } else {
                None
            },
        }
    }
}

/// The ids that leaves are kept for, in order: each that nothing was known of, once.
pub open spec fn kept_ids(c: DenseCache, v: Seq<(u64, CompiledLeaf)>) -> Seq<u64>
    decreases v.len(),
{
    if v.len() == 0 {
        Seq::empty()
    } else {
        let rest = kept_ids(c, v.drop_last());
        let id = v.last().0;
        if c.at(id) is None && first_leaf(v.drop_last(), id) is None {
            rest.push(id)
        } else {
            rest
        }
    }
}

/// `ids` are the callers, each once, in some order.
pub open spec fn lists_callers(ids: Seq<u64>, all: Set<u64>) -> bool {
    ids.no_duplicates() && forall|id: u64| ids.contains(id) <==> all.contains(id)
}

/// The leaves that are kept for `ids`, in their order.
pub open spec fn leaves_of(c: DenseCache, ids: Seq<u64>) -> Seq<Rc<CompiledLeaf>>
    decreases ids.len(),
{
    if ids.len() == 0 {
        Seq::empty()
    } else {
        retiring(leaves_of(c, ids.drop_last()), c.at(ids.last()), true)
    }
}

/// What is left once the callers that inlined `sym` were forgotten: their leaves, and no
/// others, are retired, each once.
pub open spec fn dependents_evicted(a: JitCache, b: JitCache, sym: u32) -> bool {
    let gone = callers(a.inline_deps@, sym);
    &&& forall|id: u64|
        #[trigger] b.compiled.at(id) == if gone.contains(id) {
            None
        } else {
            a.compiled.at(id)
        }
    &&& exists|ids: Seq<u64>| #[trigger]
        lists_callers(ids, gone) && b.compiled.retired@ == a.compiled.retired@ + leaves_of(
            a.compiled,
            ids,
        )
    &&& gone == Set::<u64>::empty() ==> b.compiled == a.compiled
    &&& b.inline_deps@ == a.inline_deps@.remove(sym)
    &&& callers(b.inline_deps@, sym) == Set::<u64>::empty()
    &&& forall|s: u32| s != sym ==> callers(b.inline_deps@, s) == #[trigger] callers(
        a.inline_deps@,
        s,
    )
    &&& b.osr == a.osr
    &&& b.compiled_heap == a.compiled_heap
    &&& b.native_depth == a.native_depth
}

/// Forgetting the callers that inlined a function a second time changes nothing.
pub proof fn law_evicting_again_changes_nothing(a: JitCache, b: JitCache, c: JitCache, sym: u32)
    requires
        dependents_evicted(a, b, sym),
        dependents_evicted(b, c, sym),
    ensures
        c.compiled == b.compiled,
        c.inline_deps@ == b.inline_deps@,
        c.osr == b.osr,
        c.compiled_heap == b.compiled_heap,
        c.native_depth == b.native_depth,
{
    assert(c.inline_deps@ =~= b.inline_deps@);
}

proof fn lemma_first_leaf_push(v: Seq<(u64, CompiledLeaf)>, item: (u64, CompiledLeaf), id: u64)
    ensures
        first_leaf(v.push(item), id) == if first_leaf(v, id) is Some {
            first_leaf(v, id)
        } else if item.0 == id {
            Some(item.1)
        } else {
            None
        },
{
    assert(v.push(item).drop_last() =~= v);
}

proof fn lemma_reloc_count_monotone(v: Seq<Option<CacheEntry>>, n: int)
    requires
        0 <= n <= v.len(),
    ensures
        reloc_count(v.subrange(0, n)) <= reloc_count(v),
    decreases v.len() - n,
{
    if n < v.len() {
        assert(v.subrange(0, n + 1).drop_last() =~= v.subrange(0, n));
        lemma_reloc_count_monotone(v, n + 1);
    } else {
        assert(v.subrange(0, n) =~= v);
    }
}

} // verus!
