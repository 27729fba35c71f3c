//! The native hooking engine, seen through its status-code call interface.
//!
//! The engine owns one process-wide hook table keyed by target address: for
//! each hooked target it records the detour address, the address of the
//! trampoline it synthesized, whether the hook is currently enabled, and any
//! queued enable/disable request. This module carries that table as an
//! explicit [`Engine`] value whose operations return an [`MH_STATUS`] from the
//! closed set below, exactly as the native call interface does. Every
//! operation is specified by a transition function on the abstract
//! [`EngineModel`] view, so the rest of the crate is verified against the
//! engine's documented contract, and the behavioral laws of hooking (what a
//! call of a hooked address reaches) are proved here once and for all.

use vstd::prelude::*;

verus! {

/// Status codes of the native engine's call interface.
#[allow(non_camel_case_types)]
#[derive(Debug, Clone, Copy, PartialEq, Eq, Structural)]
pub enum MH_STATUS {
    /// Unknown error. Should not be returned.
    MH_UNKNOWN,
    /// Successful.
    MH_OK,
    /// The engine is already initialized.
    MH_ERROR_ALREADY_INITIALIZED,
    /// The engine is not initialized yet, or already uninitialized.
    MH_ERROR_NOT_INITIALIZED,
    /// The hook for the specified target function is already created.
    MH_ERROR_ALREADY_CREATED,
    /// The hook for the specified target function is not created yet.
    MH_ERROR_NOT_CREATED,
    /// The hook for the specified target function is already enabled.
    MH_ERROR_ENABLED,
    /// The hook for the specified target function is not enabled yet, or
    /// already disabled.
    MH_ERROR_DISABLED,
    /// The specified pointer is invalid. It points the address of non-allocated
    /// and/or non-executable region.
    MH_ERROR_NOT_EXECUTABLE,
    /// The specified target function cannot be hooked.
    MH_ERROR_UNSUPPORTED_FUNCTION,
    /// Failed to allocate memory.
    MH_ERROR_MEMORY_ALLOC,
    /// Failed to change the memory protection.
    MH_ERROR_MEMORY_PROTECT,
    /// The specified module is not loaded.
    MH_ERROR_MODULE_NOT_FOUND,
    /// The specified function is not found.
    MH_ERROR_FUNCTION_NOT_FOUND,
}

/// One entry of the engine's hook table, as the abstract model sees it.
pub ghost struct HookSlot {
    /// Address of the detour function that an enabled hook redirects to.
    pub detour: u64,
    /// Address of the trampoline the engine synthesized for this hook.
    pub trampoline: u64,
    /// Whether calls of the target are currently redirected.
    pub enabled: bool,
    /// A pending enable (`Some(true)`) or disable (`Some(false)`) request,
    /// recorded by the queue operations and committed by apply.
    pub queued: Option<bool>,
}

/// One function symbol that a loaded module exposes, as the model sees it.
pub ghost struct ExportModel {
    /// The module's name, in wide (16-bit) code units, without terminator.
    pub module: Seq<u16>,
    /// The symbol's name, in 8-bit code units, without terminator.
    pub name: Seq<u8>,
    /// The symbol's ordinal value.
    pub ordinal: u16,
    /// The code address the symbol resolves to.
    pub addr: u64,
}

/// The abstract state of the native engine.
#[verifier::ext_equal]
pub ghost struct EngineModel {
    /// Whether the engine has been initialized and not yet uninitialized.
    pub initialized: bool,
    /// The process-wide hook table, keyed by target address.
    pub table: Map<u64, HookSlot>,
    /// The lowest address at which the engine will place its next trampoline;
    /// every address the table mentions lies below it.
    pub next: u64,
    /// The function symbols that loaded modules expose to address resolution.
    pub exports: Seq<ExportModel>,
}

/// A function identifier used for dynamically looking up a function,
/// as the abstract model sees it.
pub ghost enum FunctionIdView {
    /// The function's ordinal value.
    Ordinal(u16),
    /// The function's name, in 8-bit code units.
    Name(Seq<u8>),
}

/// The greatest of three integers.
pub open spec fn max3(a: int, b: int, c: int) -> int {
    if a >= b && a >= c {
        a
    } else if b >= c {
        b
    } else {
        c
    }
}

/// How a hook slot changes when queued requests are committed: a pending
/// request becomes the enabled state and is cleared; a slot without one is
/// untouched.
pub open spec fn apply_slot(s: HookSlot) -> HookSlot {
    match s.queued {
        Some(b) => HookSlot { enabled: b, queued: None, ..s },
        None => s,
    }
}

/// Whether an export matches a function identifier.
pub open spec fn id_matches(e: ExportModel, id: FunctionIdView) -> bool {
    match id {
        FunctionIdView::Ordinal(o) => e.ordinal == o,
        FunctionIdView::Name(n) => e.name == n,
    }
}

/// The address the first export of the given module matching the identifier
/// resolves to, if any.
pub open spec fn resolve_export(
    exports: Seq<ExportModel>,
    module: Seq<u16>,
    id: FunctionIdView,
) -> Option<u64>
    decreases exports.len(),
{
    if exports.len() == 0 {
        None
    } else if exports[0].module == module && id_matches(exports[0], id) {
        Some(exports[0].addr)
    } else {
        resolve_export(exports.drop_first(), module, id)
    }
}

impl EngineModel {
    /// The state of a freshly loaded engine: uninitialized, empty table.
    pub open spec fn fresh() -> EngineModel {
        EngineModel { initialized: false, table: Map::empty(), next: 1, exports: Seq::empty() }
    }

    /// `a` is a hooked target whose trampoline sits at `addr`.
    pub open spec fn owns_trampoline(self, a: u64, addr: u64) -> bool {
        self.table.contains_key(a) && self.table[a].trampoline == addr
    }

    /// `addr` is the trampoline of some hook in the table.
    pub open spec fn is_trampoline(self, addr: u64) -> bool {
        exists|a: u64| self.owns_trampoline(a, addr)
    }

    /// The target whose hook owns the trampoline at `addr`; meaningful only
    /// when [`Self::is_trampoline`] holds (and then unique under [`Self::wf`]).
    pub open spec fn trampoline_owner(self, addr: u64) -> u64 {
        choose|a: u64| self.owns_trampoline(a, addr)
    }

    /// Every address the table mentions is nonzero and lies below `next`.
    pub open spec fn bounds_ok(self) -> bool {
        forall|a: u64| #[trigger] self.table.contains_key(a) ==> {
            &&& a != 0
            &&& a < self.next
            &&& 0 < self.table[a].trampoline < self.next
            &&& 0 < self.table[a].detour < self.next
        }
    }

    /// Distinct hooks own distinct trampolines.
    pub open spec fn trampolines_injective(self) -> bool {
        forall|a: u64, b: u64|
            #![trigger self.table[a], self.table[b]]
            self.table.contains_key(a) && self.table.contains_key(b)
                && self.table[a].trampoline == self.table[b].trampoline ==> a == b
    }

    /// No trampoline address is itself a hooked target.
    pub open spec fn trampolines_not_keys(self) -> bool {
        forall|a: u64| #[trigger] self.table.contains_key(a)
            ==> !self.table.contains_key(self.table[a].trampoline)
    }

    /// Well-formedness of an engine state: the table is empty while the
    /// engine is uninitialized, and the trampoline region is disjoint from
    /// and unambiguous about the hooked targets.
    pub open spec fn wf(self) -> bool {
        &&& self.next >= 1
        &&& (!self.initialized ==> self.table == Map::<u64, HookSlot>::empty())
        &&& self.bounds_ok()
        &&& self.trampolines_injective()
        &&& self.trampolines_not_keys()
    }

    /// The code body a call of `addr` reaches under this engine state: the
    /// detour while an enabled hook patches `addr`; the original body of the
    /// hooked target when `addr` is one of the engine's trampolines; the body
    /// at `addr` itself otherwise. Detour and original bodies are assumed to
    /// be addresses the engine has not patched.
    pub open spec fn dispatch(self, addr: u64) -> u64 {
        if self.table.contains_key(addr) && self.table[addr].enabled {
            self.table[addr].detour
        } else if self.is_trampoline(addr) {
            self.trampoline_owner(addr)
        } else {
            addr
        }
    }

    /// Initializing the engine: at most once until uninitialized again.
    pub open spec fn step_initialize(self) -> (EngineModel, MH_STATUS) {
        if self.initialized {
            (self, MH_STATUS::MH_ERROR_ALREADY_INITIALIZED)
        } else {
            (EngineModel { initialized: true, ..self }, MH_STATUS::MH_OK)
        }
    }

    /// Uninitializing the engine invalidates every hook and trampoline at
    /// once: the whole table is discarded.
    pub open spec fn step_uninitialize(self) -> (EngineModel, MH_STATUS) {
        if !self.initialized {
            (self, MH_STATUS::MH_ERROR_NOT_INITIALIZED)
        } else {
            (EngineModel { initialized: false, table: Map::empty(), ..self }, MH_STATUS::MH_OK)
        }
    }

    /// Whether the engine can still place a fresh trampoline for a hook on
    /// `target` with `detour`: it allocates above every address it has seen,
    /// so it fails once the address space is exhausted.
    pub open spec fn can_allocate(self, target: u64, detour: u64) -> bool {
        target <= u64::MAX - 2 && detour <= u64::MAX - 2 && self.next <= u64::MAX - 1
    }

    /// The trampoline address the engine picks for a new hook: the lowest
    /// address above everything it has handed out or been handed so far.
    pub open spec fn fresh_trampoline(self, target: u64, detour: u64) -> u64 {
        max3(self.next as int, target as int + 1, detour as int + 1) as u64
    }

    /// Creating a hook for `target` redirecting to `detour`, in disabled
    /// state, synthesizing a fresh trampoline.
    pub open spec fn step_create(self, target: u64, detour: u64) -> (EngineModel, MH_STATUS, u64) {
        if !self.initialized {
            (self, MH_STATUS::MH_ERROR_NOT_INITIALIZED, 0)
        } else if target == 0 || detour == 0 {
            (self, MH_STATUS::MH_ERROR_NOT_EXECUTABLE, 0)
        } else if self.is_trampoline(target) {
            (self, MH_STATUS::MH_ERROR_UNSUPPORTED_FUNCTION, 0)
        } else if self.table.contains_key(target) {
            (self, MH_STATUS::MH_ERROR_ALREADY_CREATED, 0)
        } else if !self.can_allocate(target, detour) {
            (self, MH_STATUS::MH_ERROR_MEMORY_ALLOC, 0)
        } else {
            let tr = self.fresh_trampoline(target, detour);
            let slot = HookSlot { detour, trampoline: tr, enabled: false, queued: None };
            (
                EngineModel { table: self.table.insert(target, slot), next: (tr + 1) as u64, ..self },
                MH_STATUS::MH_OK,
                tr,
            )
        }
    }

    /// Removing a hook: the target reverts to its unhooked behavior and the
    /// trampoline is withdrawn.
    pub open spec fn step_remove(self, target: u64) -> (EngineModel, MH_STATUS) {
        if !self.initialized {
            (self, MH_STATUS::MH_ERROR_NOT_INITIALIZED)
        } else if !self.table.contains_key(target) {
            (self, MH_STATUS::MH_ERROR_NOT_CREATED)
        } else {
            (EngineModel { table: self.table.remove(target), ..self }, MH_STATUS::MH_OK)
        }
    }

    /// Enabling a hook; redundant enabling is reported, not repeated.
    pub open spec fn step_enable(self, target: u64) -> (EngineModel, MH_STATUS) {
        if !self.initialized {
            (self, MH_STATUS::MH_ERROR_NOT_INITIALIZED)
        } else if !self.table.contains_key(target) {
            (self, MH_STATUS::MH_ERROR_NOT_CREATED)
        } else if self.table[target].enabled {
            (self, MH_STATUS::MH_ERROR_ENABLED)
        } else {
            let slot = HookSlot { enabled: true, ..self.table[target] };
            (EngineModel { table: self.table.insert(target, slot), ..self }, MH_STATUS::MH_OK)
        }
    }

    /// Disabling a hook; redundant disabling is reported, not repeated.
    pub open spec fn step_disable(self, target: u64) -> (EngineModel, MH_STATUS) {
        if !self.initialized {
            (self, MH_STATUS::MH_ERROR_NOT_INITIALIZED)
        } else if !self.table.contains_key(target) {
            (self, MH_STATUS::MH_ERROR_NOT_CREATED)
        } else if !self.table[target].enabled {
            (self, MH_STATUS::MH_ERROR_DISABLED)
        } else {
            let slot = HookSlot { enabled: false, ..self.table[target] };
            (EngineModel { table: self.table.insert(target, slot), ..self }, MH_STATUS::MH_OK)
        }
    }

    /// Recording a pending enable/disable request for a hook; a later request
    /// for the same target overwrites an earlier one.
    pub open spec fn step_queue(self, target: u64, enabled: bool) -> (EngineModel, MH_STATUS) {
        if !self.initialized {
            (self, MH_STATUS::MH_ERROR_NOT_INITIALIZED)
        } else if !self.table.contains_key(target) {
            (self, MH_STATUS::MH_ERROR_NOT_CREATED)
        } else {
            let slot = HookSlot { queued: Some(enabled), ..self.table[target] };
            (EngineModel { table: self.table.insert(target, slot), ..self }, MH_STATUS::MH_OK)
        }
    }

    /// Committing every pending request in one step.
    pub open spec fn step_apply_queued(self) -> (EngineModel, MH_STATUS) {
        if !self.initialized {
            (self, MH_STATUS::MH_ERROR_NOT_INITIALIZED)
        } else {
            let table = Map::new(
                |a: u64| self.table.contains_key(a),
                |a: u64| apply_slot(self.table[a]),
            );
            (EngineModel { table, ..self }, MH_STATUS::MH_OK)
        }
    }

    /// Whether some loaded module bears this name.
    pub open spec fn module_known(self, module: Seq<u16>) -> bool {
        exists|i: int| 0 <= i < self.exports.len() && #[trigger] self.exports[i].module == module
    }

    /// Creating a hook on a function resolved by module and symbol name or
    /// ordinal; the module is looked up first, then the symbol, then the hook
    /// is created on the resolved address.
    pub open spec fn step_create_api(
        self,
        module: Seq<u16>,
        id: FunctionIdView,
        detour: u64,
    ) -> (EngineModel, MH_STATUS, u64, u64) {
        if !self.module_known(module) {
            (self, MH_STATUS::MH_ERROR_MODULE_NOT_FOUND, 0, 0)
        } else {
            match resolve_export(self.exports, module, id) {
                None => (self, MH_STATUS::MH_ERROR_FUNCTION_NOT_FOUND, 0, 0),
                Some(target) => {
                    let (m, status, tr) = self.step_create(target, detour);
                    (m, status, target, tr)
                },
            }
        }
    }

    /// Queuing a sequence of requests in order, ignoring the statuses.
    pub open spec fn step_queue_all(self, entries: Seq<(u64, bool)>) -> EngineModel
        decreases entries.len(),
    {
        if entries.len() == 0 {
            self
        } else {
            self.step_queue_all(entries.drop_last()).step_queue(
                entries.last().0,
                entries.last().1,
            ).0
        }
    }

    /// Queuing a sequence of requests in order, then committing them all.
    pub open spec fn step_apply(self, entries: Seq<(u64, bool)>) -> EngineModel {
        self.step_queue_all(entries).step_apply_queued().0
    }
}

/// The latest requested state for `target` among the queued entries, if any:
/// the request that wins when the queue is committed.
pub open spec fn last_request(entries: Seq<(u64, bool)>, target: u64) -> Option<bool>
    decreases entries.len(),
{
    if entries.len() == 0 {
        None
    } else if entries.last().0 == target {
        Some(entries.last().1)
    } else {
        last_request(entries.drop_last(), target)
    }
}

/// One entry of the concrete hook table.
#[derive(Debug, Clone, Copy)]
struct HookRecord {
    target: u64,
    detour: u64,
    trampoline: u64,
    enabled: bool,
    queued: Option<bool>,
}

/// One function symbol that a loaded module exposes.
#[derive(Debug)]
struct Export {
    module: Vec<u16>,
    name: Vec<u8>,
    ordinal: u16,
    addr: u64,
}

impl View for Export {
    type V = ExportModel;

    closed spec fn view(&self) -> ExportModel {
        ExportModel {
            module: self.module@,
            name: self.name@,
            ordinal: self.ordinal,
            addr: self.addr,
        }
    }
}

/// The slot a concrete record stands for.
spec fn slot_of(r: HookRecord) -> HookSlot {
    HookSlot { detour: r.detour, trampoline: r.trampoline, enabled: r.enabled, queued: r.queued }
}

/// The hook table a sequence of records stands for; a later record for the
/// same target would shadow an earlier one, though the engine keeps targets
/// unique.
spec fn as_map(s: Seq<HookRecord>) -> Map<u64, HookSlot>
    decreases s.len(),
{
    if s.len() == 0 {
        Map::empty()
    } else {
        as_map(s.drop_last()).insert(s.last().target, slot_of(s.last()))
    }
}

/// No two records hook the same target.
spec fn targets_unique(s: Seq<HookRecord>) -> bool {
    forall|i: int, j: int| 0 <= i < j < s.len() ==> s[i].target != s[j].target
}

/// A target is in the table exactly when some record bears it.
proof fn lemma_as_map_dom(s: Seq<HookRecord>, t: u64)
    ensures
        as_map(s).contains_key(t) <==> (exists|i: int| 0 <= i < s.len() && s[i].target == t),
    decreases s.len(),
{
    if s.len() > 0 {
        lemma_as_map_dom(s.drop_last(), t);
        if s.last().target == t {
            assert(s[s.len() - 1].target == t);
        } else {
            if exists|i: int| 0 <= i < s.len() && s[i].target == t {
                let i = choose|i: int| 0 <= i < s.len() && s[i].target == t;
                assert(s.drop_last()[i] == s[i]);
            }
            if exists|i: int| 0 <= i < s.drop_last().len() && s.drop_last()[i].target == t {
                let i = choose|i: int| 0 <= i < s.drop_last().len() && s.drop_last()[i].target == t;
                assert(s[i].target == t);
            }
        }
    }
}

/// Under unique targets, the table's slot for a record's target is that record.
proof fn lemma_as_map_index(s: Seq<HookRecord>, i: int)
    requires
        targets_unique(s),
        0 <= i < s.len(),
    ensures
        as_map(s).contains_key(s[i].target),
        as_map(s)[s[i].target] == slot_of(s[i]),
    decreases s.len(),
{
    if i == s.len() - 1 {
    } else {
        lemma_as_map_index(s.drop_last(), i);
        assert(s.drop_last()[i] == s[i]);
        assert(s[i].target != s.last().target);
    }
}

/// Replacing the record at `i` by one for the same target updates exactly
/// that slot of the table.
proof fn lemma_as_map_update(s: Seq<HookRecord>, i: int, r: HookRecord)
    requires
        targets_unique(s),
        0 <= i < s.len(),
        r.target == s[i].target,
    ensures
        as_map(s.update(i, r)) == as_map(s).insert(r.target, slot_of(r)),
        targets_unique(s.update(i, r)),
    decreases s.len(),
{
    let t = r.target;
    let s2 = s.update(i, r);
    assert(targets_unique(s2)) by {
        assert forall|p: int, q: int| 0 <= p < q < s2.len() implies s2[p].target != s2[q].target by {
            assert(s2[p].target == if p == i { r.target } else { s[p].target });
            assert(s2[q].target == if q == i { r.target } else { s[q].target });
        }
    }
    if i == s.len() - 1 {
        assert(s2.drop_last() =~= s.drop_last());
        assert(s2.last() == r);
        assert(as_map(s2) == as_map(s.drop_last()).insert(t, slot_of(r)));
        assert(as_map(s).insert(t, slot_of(r)) =~= as_map(s.drop_last()).insert(t, slot_of(r)));
    } else {
        lemma_as_map_update(s.drop_last(), i, r);
        assert(s2.drop_last() =~= s.drop_last().update(i, r));
        assert(s2.last() == s.last());
        assert(s[i].target != s.last().target);
        assert(as_map(s2) == as_map(s.drop_last()).insert(t, slot_of(r)).insert(
            s.last().target,
            slot_of(s.last()),
        ));
        assert(as_map(s.drop_last()).insert(t, slot_of(r)).insert(
            s.last().target,
            slot_of(s.last()),
        ) =~= as_map(s).insert(t, slot_of(r)));
    }
}

/// Removing the record at `i` removes exactly its target from the table.
proof fn lemma_as_map_remove(s: Seq<HookRecord>, i: int)
    requires
        targets_unique(s),
        0 <= i < s.len(),
    ensures
        as_map(s.remove(i)) == as_map(s).remove(s[i].target),
        targets_unique(s.remove(i)),
    decreases s.len(),
{
    let t = s[i].target;
    let s2 = s.remove(i);
    assert(targets_unique(s2)) by {
        assert forall|p: int, q: int| 0 <= p < q < s2.len() implies s2[p].target != s2[q].target by {
            assert(s2[p] == if p < i { s[p] } else { s[p + 1] });
            assert(s2[q] == if q < i { s[q] } else { s[q + 1] });
        }
    }
    if i == s.len() - 1 {
        assert(s2 =~= s.drop_last());
        lemma_as_map_dom(s.drop_last(), t);
        assert(forall|j: int| 0 <= j < s.drop_last().len() ==> s.drop_last()[j] == s[j]);
        assert(!as_map(s.drop_last()).contains_key(t));
        assert(as_map(s.drop_last()).insert(t, slot_of(s.last())).remove(t) =~= as_map(
            s.drop_last(),
        ));
    } else {
        lemma_as_map_remove(s.drop_last(), i);
        assert(s2.drop_last() =~= s.drop_last().remove(i));
        assert(s2.last() == s.last());
        assert(s.drop_last()[i] == s[i]);
        assert(t != s.last().target);
        assert(as_map(s2) == as_map(s.drop_last()).remove(t).insert(
            s.last().target,
            slot_of(s.last()),
        ));
        assert(as_map(s.drop_last()).remove(t).insert(s.last().target, slot_of(s.last())) =~= as_map(
            s,
        ).remove(t));
    }
}

/// The native hooking engine, addressed through its call interface.
///
/// One value of this type stands for the engine's process-wide state: its
/// initialized flag, its hook table, and the symbols that loaded modules
/// expose. The abstract state is the [`EngineModel`] view, and every
/// operation's contract says exactly which transition it performs.
#[derive(Debug)]
pub struct Engine {
    initialized: bool,
    hooks: Vec<HookRecord>,
    next_alloc: u64,
    exports: Vec<Export>,
}

impl View for Engine {
    type V = EngineModel;

    closed spec fn view(&self) -> EngineModel {
        EngineModel {
            initialized: self.initialized,
            table: as_map(self.hooks@),
            next: self.next_alloc,
            exports: self.exports@.map_values(|e: Export| e@),
        }
    }
}

impl Engine {
    /// Well-formedness of the concrete engine state; established by
    /// [`Engine::new`] and preserved by every operation.
    pub closed spec fn wf(&self) -> bool {
        targets_unique(self.hooks@) && self@.wf()
    }

    /// A well-formed engine's abstract state is well-formed.
    pub proof fn lemma_wf_view(&self)
        requires
            self.wf(),
        ensures
            self@.wf(),
    {
    }

    /// A freshly loaded engine: uninitialized, no hooks, no exports.
    pub fn new() -> (r: Engine)
        ensures
            r.wf(),
            r@ == EngineModel::fresh(),
    {
        let r = Engine { initialized: false, hooks: Vec::new(), next_alloc: 1, exports: Vec::new() };
        proof {
            assert(r@ =~= EngineModel::fresh());
            assert(r@.table =~= Map::<u64, HookSlot>::empty());
        }
        r
    }

    /// Makes a function symbol of a loaded module visible to address
    /// resolution, as the process loader would.
    pub fn load_export(&mut self, module: Vec<u16>, name: Vec<u8>, ordinal: u16, addr: u64)
        requires
            old(self).wf(),
        ensures
            final(self).wf(),
            final(self)@ == (EngineModel {
                exports: old(self)@.exports.push(
                    ExportModel { module: module@, name: name@, ordinal, addr },
                ),
                ..old(self)@
            }),
    {
        let e = Export { module, name, ordinal, addr };
        let ghost ev = e@;
        self.exports.push(e);
        proof {
            assert(self.exports@.map_values(|x: Export| x@) =~= old(self).exports@.map_values(
                |x: Export| x@,
            ).push(ev));
            assert(self@ =~= (EngineModel { exports: old(self)@.exports.push(ev), ..old(self)@ }));
        }
    }

    /// The index of the record hooking `target`, if any.
    fn find_index(&self, target: u64) -> (r: Option<usize>)
        ensures
            match r {
                Some(i) => i < self.hooks@.len() && self.hooks@[i as int].target == target,
                None => forall|j: int| 0 <= j < self.hooks@.len() ==> self.hooks@[j].target != target,
            },
    {
        let mut i: usize = 0;
        while i < self.hooks.len()
            invariant
                i <= self.hooks@.len(),
                forall|j: int| 0 <= j < i ==> self.hooks@[j].target != target,
            decreases self.hooks@.len() - i,
        {
            if self.hooks[i].target == target {
                return Some(i);
            }
            i = i + 1;
        }
        None
    }

    /// Initializes the engine. Relied on to be called exactly once before any
    /// other operation; a repeated call is reported.
    pub fn initialize(&mut self) -> (status: MH_STATUS)
        requires
            old(self).wf(),
        ensures
            final(self).wf(),
            final(self)@ == old(self)@.step_initialize().0,
            status == old(self)@.step_initialize().1,
    {
        if self.initialized {
            MH_STATUS::MH_ERROR_ALREADY_INITIALIZED
        } else {
            self.initialized = true;
            proof {
                assert(self@ =~= old(self)@.step_initialize().0);
            }
            MH_STATUS::MH_OK
        }
    }

    /// Uninitializes the engine, discarding every hook and trampoline
    /// process-wide.
    pub fn uninitialize(&mut self) -> (status: MH_STATUS)
        requires
            old(self).wf(),
        ensures
            final(self).wf(),
            final(self)@ == old(self)@.step_uninitialize().0,
            status == old(self)@.step_uninitialize().1,
    {
        if !self.initialized {
            MH_STATUS::MH_ERROR_NOT_INITIALIZED
        } else {
            self.initialized = false;
            self.hooks.clear();
            proof {
                assert(self@.table =~= Map::<u64, HookSlot>::empty());
                assert(self@ =~= old(self)@.step_uninitialize().0);
            }
            MH_STATUS::MH_OK
        }
    }
}

/// A slot whose pending request is committed keeps its addresses.
spec fn reflagged(s1: HookSlot, s2: HookSlot) -> bool {
    s2.trampoline == s1.trampoline && s2.detour == s1.detour
}

/// Replacing one slot by another with the same addresses preserves
/// well-formedness.
proof fn lemma_wf_reflag(m: EngineModel, t: u64, s2: HookSlot)
    requires
        m.wf(),
        m.initialized,
        m.table.contains_key(t),
        reflagged(m.table[t], s2),
    ensures
        (EngineModel { table: m.table.insert(t, s2), ..m }).wf(),
{
    let m2 = EngineModel { table: m.table.insert(t, s2), ..m };
    assert forall|a: u64| #[trigger] m2.table.contains_key(a) implies m.table.contains_key(a)
        && m2.table[a].trampoline == m.table[a].trampoline
        && m2.table[a].detour == m.table[a].detour by {
        if a != t {
            assert(m.table.contains_key(a));
        }
    }
    assert(m2.bounds_ok()) by {
        assert forall|a: u64| #[trigger] m2.table.contains_key(a) implies {
            &&& a != 0
            &&& a < m2.next
            &&& 0 < m2.table[a].trampoline < m2.next
            &&& 0 < m2.table[a].detour < m2.next
        } by {
            assert(m.table.contains_key(a));
            assert(m.table[a].trampoline == m2.table[a].trampoline);
        }
    }
    assert(m2.trampolines_injective()) by {
        assert forall|a: u64, b: u64|
            #![trigger m2.table[a], m2.table[b]]
            m2.table.contains_key(a) && m2.table.contains_key(b) && m2.table[a].trampoline
                == m2.table[b].trampoline implies a == b by {
            assert(m.table[a].trampoline == m.table[b].trampoline);
        }
    }
    assert(m2.trampolines_not_keys()) by {
        assert forall|a: u64| #[trigger] m2.table.contains_key(a) implies !m2.table.contains_key(
            m2.table[a].trampoline,
        ) by {
            assert(!m.table.contains_key(m.table[a].trampoline));
            assert(m2.table[a].trampoline == m.table[a].trampoline);
        }
    }
}

/// Creating a hook preserves well-formedness, and on success the fresh
/// trampoline is a new, unambiguous address.
pub proof fn lemma_step_create_wf(m: EngineModel, target: u64, detour: u64)
    requires
        m.wf(),
    ensures
        m.step_create(target, detour).0.wf(),
{
    let (m2, status, tr) = m.step_create(target, detour);
    if status == MH_STATUS::MH_OK {
        assert(tr as int == max3(m.next as int, target as int + 1, detour as int + 1));
        assert(m2.next == tr as int + 1);
        assert forall|a: u64| #[trigger] m2.table.contains_key(a) implies {
            &&& a != 0
            &&& a < m2.next
            &&& 0 < m2.table[a].trampoline < m2.next
            &&& 0 < m2.table[a].detour < m2.next
        } by {
            if a == target {
            } else {
                assert(m.table.contains_key(a));
            }
        }
        assert(m2.trampolines_injective()) by {
            assert forall|a: u64, b: u64|
                #![trigger m2.table[a], m2.table[b]]
                m2.table.contains_key(a) && m2.table.contains_key(b) && m2.table[a].trampoline
                    == m2.table[b].trampoline implies a == b by {
                if a == target && b != target {
                    assert(m.table.contains_key(b));
                    assert(m.table[b].trampoline < m.next);
                } else if a != target && b == target {
                    assert(m.table.contains_key(a));
                    assert(m.table[a].trampoline < m.next);
                } else if a != target && b != target {
                    assert(m.table.contains_key(a));
                    assert(m.table.contains_key(b));
                    assert(m.table[a].trampoline == m.table[b].trampoline);
                }
            }
        }
        assert(m2.trampolines_not_keys()) by {
            assert forall|a: u64| #[trigger] m2.table.contains_key(a) implies !m2.table.contains_key(
                m2.table[a].trampoline,
            ) by {
                if a == target {
                    // the fresh trampoline lies above every table address and
                    // above the new target itself
                    assert(!m.table.contains_key(tr)) by {
                        if m.table.contains_key(tr) {
                            assert(tr < m.next);
                        }
                    }
                } else {
                    assert(m.table.contains_key(a));
                    assert(!m.table.contains_key(m.table[a].trampoline));
                    // the old trampoline is not the new target either: the
                    // create step refused a target inside the trampoline region
                    assert(m.table[a].trampoline != target) by {
                        if m.table[a].trampoline == target {
                            assert(m.owns_trampoline(a, target));
                        }
                    }
                }
            }
        }
    }
}

/// Removing a hook preserves well-formedness.
pub proof fn lemma_step_remove_wf(m: EngineModel, target: u64)
    requires
        m.wf(),
    ensures
        m.step_remove(target).0.wf(),
{
    let m2 = m.step_remove(target).0;
    assert forall|a: u64| #[trigger] m2.table.contains_key(a) implies m.table.contains_key(a)
        && m2.table[a] == m.table[a] by {}
    assert(m2.bounds_ok()) by {
        assert forall|a: u64| #[trigger] m2.table.contains_key(a) implies {
            &&& a != 0
            &&& a < m2.next
            &&& 0 < m2.table[a].trampoline < m2.next
            &&& 0 < m2.table[a].detour < m2.next
        } by {
            assert(m.table.contains_key(a));
        }
    }
    assert(m2.trampolines_injective()) by {
        assert forall|a: u64, b: u64|
            #![trigger m2.table[a], m2.table[b]]
            m2.table.contains_key(a) && m2.table.contains_key(b) && m2.table[a].trampoline
                == m2.table[b].trampoline implies a == b by {
            assert(m.table[a].trampoline == m.table[b].trampoline);
        }
    }
    assert(m2.trampolines_not_keys()) by {
        assert forall|a: u64| #[trigger] m2.table.contains_key(a) implies !m2.table.contains_key(
            m2.table[a].trampoline,
        ) by {
            assert(m.table.contains_key(a));
            assert(!m.table.contains_key(m.table[a].trampoline));
        }
    }
}

/// Enabling preserves well-formedness.
pub proof fn lemma_step_enable_wf(m: EngineModel, target: u64)
    requires
        m.wf(),
    ensures
        m.step_enable(target).0.wf(),
{
    if m.initialized && m.table.contains_key(target) && !m.table[target].enabled {
        lemma_wf_reflag(m, target, HookSlot { enabled: true, ..m.table[target] });
    }
}

/// Disabling preserves well-formedness.
pub proof fn lemma_step_disable_wf(m: EngineModel, target: u64)
    requires
        m.wf(),
    ensures
        m.step_disable(target).0.wf(),
{
    if m.initialized && m.table.contains_key(target) && m.table[target].enabled {
        lemma_wf_reflag(m, target, HookSlot { enabled: false, ..m.table[target] });
    }
}

/// Queuing a request preserves well-formedness.
pub proof fn lemma_step_queue_wf(m: EngineModel, target: u64, enabled: bool)
    requires
        m.wf(),
    ensures
        m.step_queue(target, enabled).0.wf(),
{
    if m.initialized && m.table.contains_key(target) {
        lemma_wf_reflag(m, target, HookSlot { queued: Some(enabled), ..m.table[target] });
    }
}

/// Committing queued requests preserves well-formedness; no slot is added,
/// dropped, or moved.
pub proof fn lemma_step_apply_queued_wf(m: EngineModel)
    requires
        m.wf(),
    ensures
        m.step_apply_queued().0.wf(),
{
    let m2 = m.step_apply_queued().0;
    if m.initialized {
        assert forall|a: u64| #[trigger] m2.table.contains_key(a) implies m.table.contains_key(a)
            && m2.table[a].trampoline == m.table[a].trampoline
            && m2.table[a].detour == m.table[a].detour by {}
        assert(m2.bounds_ok()) by {
            assert forall|a: u64| #[trigger] m2.table.contains_key(a) implies {
                &&& a != 0
                &&& a < m2.next
                &&& 0 < m2.table[a].trampoline < m2.next
                &&& 0 < m2.table[a].detour < m2.next
            } by {
                assert(m.table.contains_key(a));
                assert(m2.table[a].trampoline == m.table[a].trampoline);
            }
        }
        assert(m2.trampolines_injective()) by {
            assert forall|a: u64, b: u64|
                #![trigger m2.table[a], m2.table[b]]
                m2.table.contains_key(a) && m2.table.contains_key(b) && m2.table[a].trampoline
                    == m2.table[b].trampoline implies a == b by {
                assert(m.table[a].trampoline == m.table[b].trampoline);
            }
        }
        assert(m2.trampolines_not_keys()) by {
            assert forall|a: u64| #[trigger] m2.table.contains_key(a)
                implies !m2.table.contains_key(m2.table[a].trampoline) by {
                assert(!m.table.contains_key(m.table[a].trampoline));
                assert(m2.table[a].trampoline == m.table[a].trampoline);
            }
        }
    }
}

impl Engine {
    /// Creates a hook for `target` redirecting to `detour`, disabled, and
    /// returns the status and the fresh trampoline's address.
    pub fn create_hook(&mut self, target: u64, detour: u64) -> (r: (MH_STATUS, u64))
        requires
            old(self).wf(),
        ensures
            final(self).wf(),
            final(self)@ == old(self)@.step_create(target, detour).0,
            r.0 == old(self)@.step_create(target, detour).1,
            r.1 == old(self)@.step_create(target, detour).2,
    {
        if !self.initialized {
            return (MH_STATUS::MH_ERROR_NOT_INITIALIZED, 0);
        }
        if target == 0 || detour == 0 {
            return (MH_STATUS::MH_ERROR_NOT_EXECUTABLE, 0);
        }
        let mut i: usize = 0;
        while i < self.hooks.len()
            invariant
                self == old(self),
                self.wf(),
                self.initialized,
                target != 0,
                detour != 0,
                i <= self.hooks@.len(),
                forall|j: int| 0 <= j < i ==> self.hooks@[j].trampoline != target,
            decreases self.hooks@.len() - i,
        {
            if self.hooks[i].trampoline == target {
                proof {
                    lemma_as_map_index(self.hooks@, i as int);
                    assert(self@.owns_trampoline(self.hooks@[i as int].target, target));
                }
                return (MH_STATUS::MH_ERROR_UNSUPPORTED_FUNCTION, 0);
            }
            i = i + 1;
        }
        proof {
            assert(!self@.is_trampoline(target)) by {
                if self@.is_trampoline(target) {
                    let a = choose|a: u64| self@.owns_trampoline(a, target);
                    lemma_as_map_dom(self.hooks@, a);
                    let j = choose|j: int| 0 <= j < self.hooks@.len() && self.hooks@[j].target == a;
                    lemma_as_map_index(self.hooks@, j);
                    assert(self.hooks@[j].trampoline == target);
                }
            }
        }
        match self.find_index(target) {
            Some(_) => {
                proof {
                    lemma_as_map_dom(self.hooks@, target);
                }
                (MH_STATUS::MH_ERROR_ALREADY_CREATED, 0)
            },
            None => {
                proof {
                    lemma_as_map_dom(self.hooks@, target);
                }
                if target > u64::MAX - 2 || detour > u64::MAX - 2 || self.next_alloc > u64::MAX
                    - 1 {
                    return (MH_STATUS::MH_ERROR_MEMORY_ALLOC, 0);
                }
                let mut tr = self.next_alloc;
                if target + 1 > tr {
                    tr = target + 1;
                }
                if detour + 1 > tr {
                    tr = detour + 1;
                }
                proof {
                    assert(tr as int == max3(
                        self.next_alloc as int,
                        target as int + 1,
                        detour as int + 1,
                    ));
                }
                let rec = HookRecord { target, detour, trampoline: tr, enabled: false, queued: None };
                self.hooks.push(rec);
                self.next_alloc = tr + 1;
                proof {
                    assert(self.hooks@.drop_last() =~= old(self).hooks@);
                    assert(self.hooks@.last() == rec);
                    assert(as_map(self.hooks@) == as_map(old(self).hooks@).insert(
                        target,
                        slot_of(rec),
                    ));
                    assert(targets_unique(self.hooks@)) by {
                        assert forall|p: int, q: int| 0 <= p < q < self.hooks@.len() implies self
                            .hooks@[p].target != self.hooks@[q].target by {
                            if q == self.hooks@.len() - 1 {
                                assert(old(self).hooks@[p].target != target);
                            } else {
                                assert(old(self).hooks@[p] == self.hooks@[p]);
                                assert(old(self).hooks@[q] == self.hooks@[q]);
                            }
                        }
                    }
                    assert(self@ =~= old(self)@.step_create(target, detour).0);
                    lemma_step_create_wf(old(self)@, target, detour);
                }
                (MH_STATUS::MH_OK, tr)
            },
        }
    }

    /// Enables a created hook; calls of the target then reach the detour.
    pub fn enable_hook(&mut self, target: u64) -> (status: MH_STATUS)
        requires
            old(self).wf(),
        ensures
            final(self).wf(),
            final(self)@ == old(self)@.step_enable(target).0,
            status == old(self)@.step_enable(target).1,
    {
        if !self.initialized {
            return MH_STATUS::MH_ERROR_NOT_INITIALIZED;
        }
        match self.find_index(target) {
            None => {
                proof {
                    lemma_as_map_dom(self.hooks@, target);
                }
                MH_STATUS::MH_ERROR_NOT_CREATED
            },
            Some(i) => {
                proof {
                    lemma_as_map_dom(self.hooks@, target);
                    lemma_as_map_index(self.hooks@, i as int);
                }
                let rec = self.hooks[i];
                if rec.enabled {
                    MH_STATUS::MH_ERROR_ENABLED
                } else {
                    let nr = HookRecord { enabled: true, ..rec };
                    self.hooks[i] = nr;
                    proof {
                        lemma_as_map_update(old(self).hooks@, i as int, nr);
                        assert(slot_of(nr) == (HookSlot {
                            enabled: true,
                            ..old(self)@.table[target]
                        }));
                        assert(self@ =~= old(self)@.step_enable(target).0);
                        lemma_step_enable_wf(old(self)@, target);
                    }
                    MH_STATUS::MH_OK
                }
            },
        }
    }

    /// Disables an enabled hook; calls of the target then reach the original
    /// body again.
    pub fn disable_hook(&mut self, target: u64) -> (status: MH_STATUS)
        requires
            old(self).wf(),
        ensures
            final(self).wf(),
            final(self)@ == old(self)@.step_disable(target).0,
            status == old(self)@.step_disable(target).1,
    {
        if !self.initialized {
            return MH_STATUS::MH_ERROR_NOT_INITIALIZED;
        }
        match self.find_index(target) {
            None => {
                proof {
                    lemma_as_map_dom(self.hooks@, target);
                }
                MH_STATUS::MH_ERROR_NOT_CREATED
            },
            Some(i) => {
                proof {
                    lemma_as_map_dom(self.hooks@, target);
                    lemma_as_map_index(self.hooks@, i as int);
                }
                let rec = self.hooks[i];
                if !rec.enabled {
                    MH_STATUS::MH_ERROR_DISABLED
                } else {
                    let nr = HookRecord { enabled: false, ..rec };
                    self.hooks[i] = nr;
                    proof {
                        lemma_as_map_update(old(self).hooks@, i as int, nr);
                        assert(slot_of(nr) == (HookSlot {
                            enabled: false,
                            ..old(self)@.table[target]
                        }));
                        assert(self@ =~= old(self)@.step_disable(target).0);
                        lemma_step_disable_wf(old(self)@, target);
                    }
                    MH_STATUS::MH_OK
                }
            },
        }
    }

    /// Removes a created hook; the target reverts to its unhooked behavior.
    pub fn remove_hook(&mut self, target: u64) -> (status: MH_STATUS)
        requires
            old(self).wf(),
        ensures
            final(self).wf(),
            final(self)@ == old(self)@.step_remove(target).0,
            status == old(self)@.step_remove(target).1,
    {
        if !self.initialized {
            return MH_STATUS::MH_ERROR_NOT_INITIALIZED;
        }
        match self.find_index(target) {
            None => {
                proof {
                    lemma_as_map_dom(self.hooks@, target);
                }
                MH_STATUS::MH_ERROR_NOT_CREATED
            },
            Some(i) => {
                proof {
                    lemma_as_map_dom(self.hooks@, target);
                    lemma_as_map_remove(self.hooks@, i as int);
                }
                self.hooks.remove(i);
                proof {
                    assert(self@ =~= old(self)@.step_remove(target).0);
                    lemma_step_remove_wf(old(self)@, target);
                }
                MH_STATUS::MH_OK
            },
        }
    }

    /// Records a pending request to enable or disable a created hook; nothing
    /// changes until the queued requests are committed.
    pub fn queue_hook(&mut self, target: u64, enabled: bool) -> (status: MH_STATUS)
        requires
            old(self).wf(),
        ensures
            final(self).wf(),
            final(self)@ == old(self)@.step_queue(target, enabled).0,
            status == old(self)@.step_queue(target, enabled).1,
    {
        if !self.initialized {
            return MH_STATUS::MH_ERROR_NOT_INITIALIZED;
        }
        match self.find_index(target) {
            None => {
                proof {
                    lemma_as_map_dom(self.hooks@, target);
                }
                MH_STATUS::MH_ERROR_NOT_CREATED
            },
            Some(i) => {
                proof {
                    lemma_as_map_dom(self.hooks@, target);
                    lemma_as_map_index(self.hooks@, i as int);
                }
                let rec = self.hooks[i];
                let nr = HookRecord { queued: Some(enabled), ..rec };
                self.hooks[i] = nr;
                proof {
                    lemma_as_map_update(old(self).hooks@, i as int, nr);
                    assert(slot_of(nr) == (HookSlot {
                        queued: Some(enabled),
                        ..old(self)@.table[target]
                    }));
                    assert(self@ =~= old(self)@.step_queue(target, enabled).0);
                    lemma_step_queue_wf(old(self)@, target, enabled);
                }
                MH_STATUS::MH_OK
            },
        }
    }

    /// Queues a pending enable request for a created hook.
    pub fn queue_enable_hook(&mut self, target: u64) -> (status: MH_STATUS)
        requires
            old(self).wf(),
        ensures
            final(self).wf(),
            final(self)@ == old(self)@.step_queue(target, true).0,
            status == old(self)@.step_queue(target, true).1,
    {
        self.queue_hook(target, true)
    }

    /// Queues a pending disable request for a created hook.
    pub fn queue_disable_hook(&mut self, target: u64) -> (status: MH_STATUS)
        requires
            old(self).wf(),
        ensures
            final(self).wf(),
            final(self)@ == old(self)@.step_queue(target, false).0,
            status == old(self)@.step_queue(target, false).1,
    {
        self.queue_hook(target, false)
    }
}

/// How a concrete record changes when queued requests are committed.
spec fn apply_rec(r: HookRecord) -> HookRecord {
    match r.queued {
        Some(b) => HookRecord { enabled: b, queued: None, ..r },
        None => r,
    }
}

/// Committing the pending request of every record commits it on the table.
proof fn lemma_as_map_apply_all(s1: Seq<HookRecord>, s2: Seq<HookRecord>)
    requires
        s1.len() == s2.len(),
        forall|j: int| 0 <= j < s1.len() ==> s2[j] == apply_rec(#[trigger] s1[j]),
    ensures
        as_map(s2) == Map::new(
            |a: u64| as_map(s1).contains_key(a),
            |a: u64| apply_slot(as_map(s1)[a]),
        ),
    decreases s1.len(),
{
    let goal = Map::new(|a: u64| as_map(s1).contains_key(a), |a: u64| apply_slot(as_map(s1)[a]));
    if s1.len() == 0 {
        assert(as_map(s2) =~= goal);
    } else {
        lemma_as_map_apply_all(s1.drop_last(), s2.drop_last());
        let t = s1.last().target;
        assert(s2.last() == apply_rec(s1.last()));
        assert(s2.last().target == t);
        assert(slot_of(apply_rec(s1.last())) == apply_slot(slot_of(s1.last())));
        let prev = Map::new(
            |a: u64| as_map(s1.drop_last()).contains_key(a),
            |a: u64| apply_slot(as_map(s1.drop_last())[a]),
        );
        assert(as_map(s2) == prev.insert(t, apply_slot(slot_of(s1.last()))));
        assert(prev.insert(t, apply_slot(slot_of(s1.last()))) =~= goal);
    }
}

impl Engine {
    /// Commits every pending enable/disable request in one step; the latest
    /// request per target wins, and no other hook state changes.
    pub fn apply_queued(&mut self) -> (status: MH_STATUS)
        requires
            old(self).wf(),
        ensures
            final(self).wf(),
            final(self)@ == old(self)@.step_apply_queued().0,
            status == old(self)@.step_apply_queued().1,
    {
        if !self.initialized {
            return MH_STATUS::MH_ERROR_NOT_INITIALIZED;
        }
        let n = self.hooks.len();
        let mut i: usize = 0;
        while i < n
            invariant
                n == self.hooks@.len(),
                self.hooks@.len() == old(self).hooks@.len(),
                i <= n,
                self.initialized == old(self).initialized,
                self.next_alloc == old(self).next_alloc,
                self.exports == old(self).exports,
                forall|j: int| 0 <= j < i ==> self.hooks@[j] == apply_rec(
                    #[trigger] old(self).hooks@[j],
                ),
                forall|j: int| i <= j < n ==> self.hooks@[j] == old(self).hooks@[j],
            decreases n - i,
        {
            let rec = self.hooks[i];
            let nr = match rec.queued {
                Some(b) => HookRecord { enabled: b, queued: None, ..rec },
                None => rec,
            };
            self.hooks[i] = nr;
            i = i + 1;
        }
        proof {
            lemma_as_map_apply_all(old(self).hooks@, self.hooks@);
            assert(targets_unique(self.hooks@)) by {
                assert forall|p: int, q: int| 0 <= p < q < self.hooks@.len() implies
                    self.hooks@[p].target != self.hooks@[q].target by {
                    assert(self.hooks@[p].target == old(self).hooks@[p].target);
                    assert(self.hooks@[q].target == old(self).hooks@[q].target);
                }
            }
            assert(self.exports@.map_values(|e: Export| e@) == old(self).exports@.map_values(
                |e: Export| e@,
            ));
            assert(self@ =~= old(self)@.step_apply_queued().0);
            lemma_step_apply_queued_wf(old(self)@);
        }
        MH_STATUS::MH_OK
    }

    /// The code body a call of `addr` reaches under the current engine state:
    /// the detour while an enabled hook patches `addr`, the hooked target's
    /// original body when `addr` is one of the engine's trampolines, and the
    /// body at `addr` itself otherwise.
    pub fn dispatch(&self, addr: u64) -> (r: u64)
        requires
            self.wf(),
        ensures
            r == self@.dispatch(addr),
    {
        match self.find_index(addr) {
            Some(i) => {
                proof {
                    lemma_as_map_dom(self.hooks@, addr);
                    lemma_as_map_index(self.hooks@, i as int);
                }
                let rec = self.hooks[i];
                if rec.enabled {
                    rec.detour
                } else {
                    proof {
                        assert(!self@.is_trampoline(addr)) by {
                            if self@.is_trampoline(addr) {
                                let a = choose|a: u64| self@.owns_trampoline(a, addr);
                                assert(!self@.table.contains_key(self@.table[a].trampoline));
                            }
                        }
                    }
                    addr
                }
            },
            None => {
                proof {
                    lemma_as_map_dom(self.hooks@, addr);
                }
                let mut i: usize = 0;
                while i < self.hooks.len()
                    invariant
                        self.wf(),
                        i <= self.hooks@.len(),
                        forall|j: int| 0 <= j < i ==> self.hooks@[j].trampoline != addr,
                    decreases self.hooks@.len() - i,
                {
                    if self.hooks[i].trampoline == addr {
                        proof {
                            lemma_as_map_index(self.hooks@, i as int);
                            let t = self.hooks@[i as int].target;
                            assert(self@.owns_trampoline(t, addr));
                            let c = self@.trampoline_owner(addr);
                            assert(self@.owns_trampoline(c, addr));
                            assert(self@.table[c].trampoline == self@.table[t].trampoline);
                        }
                        return self.hooks[i].target;
                    }
                    i = i + 1;
                }
                proof {
                    assert(!self@.is_trampoline(addr)) by {
                        if self@.is_trampoline(addr) {
                            let a = choose|a: u64| self@.owns_trampoline(a, addr);
                            lemma_as_map_dom(self.hooks@, a);
                            let j = choose|j: int|
                                0 <= j < self.hooks@.len() && self.hooks@[j].target == a;
                            lemma_as_map_index(self.hooks@, j);
                            assert(self.hooks@[j].trampoline == addr);
                        }
                    }
                }
                addr
            },
        }
    }

}

/// Element-wise equality of two wide-character strings.
fn wide_eq(a: &Vec<u16>, b: &Vec<u16>) -> (r: bool)
    ensures
        r == (a@ == b@),
{
    if a.len() != b.len() {
        proof {
            assert(a@.len() != b@.len());
        }
        return false;
    }
    let mut i: usize = 0;
    while i < a.len()
        invariant
            a@.len() == b@.len(),
            i <= a@.len(),
            forall|j: int| 0 <= j < i ==> a@[j] == b@[j],
        decreases a@.len() - i,
    {
        if a[i] != b[i] {
            proof {
                assert(a@[i as int] != b@[i as int]);
            }
            return false;
        }
        i = i + 1;
    }
    proof {
        assert(a@ =~= b@);
    }
    true
}

/// Element-wise equality of two byte strings.
fn bytes_eq(a: &Vec<u8>, b: &Vec<u8>) -> (r: bool)
    ensures
        r == (a@ == b@),
{
    if a.len() != b.len() {
        proof {
            assert(a@.len() != b@.len());
        }
        return false;
    }
    let mut i: usize = 0;
    while i < a.len()
        invariant
            a@.len() == b@.len(),
            i <= a@.len(),
            forall|j: int| 0 <= j < i ==> a@[j] == b@[j],
        decreases a@.len() - i,
    {
        if a[i] != b[i] {
            proof {
                assert(a@[i as int] != b@[i as int]);
            }
            return false;
        }
        i = i + 1;
    }
    proof {
        assert(a@ =~= b@);
    }
    true
}

/// Whether an export belongs to the given module and matches the identifier.
fn export_matches(e: &Export, module: &Vec<u16>, id: &crate::FunctionId) -> (r: bool)
    ensures
        r == (e@.module == module@ && id_matches(e@, id@)),
{
    if !wide_eq(&e.module, module) {
        return false;
    }
    match id {
        crate::FunctionId::Ordinal(o) => e.ordinal == *o,
        crate::FunctionId::Name(n) => bytes_eq(&e.name, n),
    }
}

impl Engine {
    /// Whether some loaded module bears this name.
    fn module_known(&self, module: &Vec<u16>) -> (r: bool)
        ensures
            r == self@.module_known(module@),
    {
        let mut i: usize = 0;
        while i < self.exports.len()
            invariant
                i <= self.exports@.len(),
                forall|j: int| 0 <= j < i ==> #[trigger] self.exports@[j]@.module != module@,
            decreases self.exports@.len() - i,
        {
            if wide_eq(&self.exports[i].module, module) {
                proof {
                    assert(self@.exports[i as int] == self.exports@[i as int]@);
                    assert((i as int) < self@.exports.len());
                    assert(self@.exports[i as int].module == module@);
                    assert(self@.module_known(module@));
                }
                return true;
            }
            i = i + 1;
        }
        proof {
            assert(!self@.module_known(module@)) by {
                if self@.module_known(module@) {
                    let j = choose|j: int|
                        0 <= j < self@.exports.len() && #[trigger] self@.exports[j].module
                            == module@;
                    assert(self.exports@[j]@.module == module@);
                }
            }
        }
        false
    }

    /// The address of the first export of the module matching the identifier.
    fn resolve(&self, module: &Vec<u16>, id: &crate::FunctionId) -> (r: Option<u64>)
        ensures
            r == resolve_export(self@.exports, module@, id@),
    {
        let ghost exps = self@.exports;
        proof {
            assert(exps.skip(0) =~= exps);
        }
        let mut i: usize = 0;
        while i < self.exports.len()
            invariant
                exps == self@.exports,
                i <= self.exports@.len(),
                exps.len() == self.exports@.len(),
                resolve_export(exps, module@, id@) == resolve_export(
                    exps.skip(i as int),
                    module@,
                    id@,
                ),
            decreases self.exports@.len() - i,
        {
            proof {
                assert(exps.skip(i as int)[0] == exps[i as int]);
                assert(exps[i as int] == self.exports@[i as int]@);
            }
            if export_matches(&self.exports[i], module, id) {
                return Some(self.exports[i].addr);
            }
            proof {
                assert(exps.skip(i as int).drop_first() =~= exps.skip(i as int + 1));
            }
            i = i + 1;
        }
        proof {
            assert(exps.skip(i as int).len() == 0);
        }
        None
    }

    /// Creates a hook, in disabled state, on the function that the given
    /// loaded module exposes under the given identifier; the module is looked
    /// up first, then the symbol, then the hook is created on the resolved
    /// address. Returns the status, the resolved target address, and the
    /// fresh trampoline's address.
    pub fn create_hook_api(
        &mut self,
        module: &Vec<u16>,
        function: &crate::FunctionId,
        detour: u64,
    ) -> (r: (MH_STATUS, u64, u64))
        requires
            old(self).wf(),
        ensures
            final(self).wf(),
            final(self)@ == old(self)@.step_create_api(module@, function@, detour).0,
            r.0 == old(self)@.step_create_api(module@, function@, detour).1,
            r.1 == old(self)@.step_create_api(module@, function@, detour).2,
            r.2 == old(self)@.step_create_api(module@, function@, detour).3,
    {
        if !self.module_known(module) {
            return (MH_STATUS::MH_ERROR_MODULE_NOT_FOUND, 0, 0);
        }
        match self.resolve(module, function) {
            None => (MH_STATUS::MH_ERROR_FUNCTION_NOT_FOUND, 0, 0),
            Some(target) => {
                let (status, trampoline) = self.create_hook(target, detour);
                (status, target, trampoline)
            },
        }
    }
}

/// Queuing requests leaves every slot's addresses and enabled state alone and
/// records, per target, exactly the latest request queued for it.
pub proof fn lemma_queue_all_props(m: EngineModel, entries: Seq<(u64, bool)>)
    requires
        m.wf(),
        m.initialized,
        forall|i: int| 0 <= i < entries.len() ==> m.table.contains_key(#[trigger] entries[i].0),
    ensures
        ({
            let mq = m.step_queue_all(entries);
            &&& mq.wf()
            &&& mq.initialized
            &&& (forall|t: u64| #[trigger] mq.table.contains_key(t) <==> m.table.contains_key(t))
            &&& (forall|t: u64| #[trigger] m.table.contains_key(t) ==> {
                &&& mq.table[t].enabled == m.table[t].enabled
                &&& mq.table[t].trampoline == m.table[t].trampoline
                &&& mq.table[t].detour == m.table[t].detour
                &&& mq.table[t].queued == (match last_request(entries, t) {
                    Some(b) => Some(b),
                    None => m.table[t].queued,
                })
            })
        }),
    decreases entries.len(),
{
    if entries.len() > 0 {
        let prefix = entries.drop_last();
        assert(forall|i: int| 0 <= i < prefix.len() ==> prefix[i] == #[trigger] entries[i]);
        lemma_queue_all_props(m, prefix);
        let mq1 = m.step_queue_all(prefix);
        let e = entries.last();
        assert(m.table.contains_key(e.0));
        assert(mq1.table.contains_key(e.0));
        lemma_step_queue_wf(mq1, e.0, e.1);
        let mq = mq1.step_queue(e.0, e.1).0;
        assert forall|t: u64| #[trigger] m.table.contains_key(t) implies {
            &&& mq.table[t].enabled == m.table[t].enabled
            &&& mq.table[t].trampoline == m.table[t].trampoline
            &&& mq.table[t].detour == m.table[t].detour
            &&& mq.table[t].queued == (match last_request(entries, t) {
                Some(b) => Some(b),
                None => m.table[t].queued,
            })
        } by {
            if t == e.0 {
                assert(last_request(entries, t) == Some(e.1));
            } else {
                assert(mq.table[t] == mq1.table[t]);
                assert(last_request(entries, t) == last_request(prefix, t));
            }
        }
    }
}

/// Law: a created hook starts disabled, so the target's behavior is the
/// pre-hook behavior both before the hook exists and right after creation;
/// enabling redirects every call of the target to the detour until it is
/// disabled again, which restores the original behavior.
pub proof fn lemma_hook_redirection(m: EngineModel, target: u64, detour: u64)
    requires
        m.wf(),
        m.step_create(target, detour).1 == MH_STATUS::MH_OK,
    ensures
        ({
            let m1 = m.step_create(target, detour).0;
            let m2 = m1.step_enable(target).0;
            let m3 = m2.step_disable(target).0;
            &&& m.dispatch(target) == target
            &&& m1.dispatch(target) == target
            &&& m1.step_enable(target).1 == MH_STATUS::MH_OK
            &&& m2.dispatch(target) == detour
            &&& m2.step_disable(target).1 == MH_STATUS::MH_OK
            &&& m3.dispatch(target) == target
        }),
{
    let r = m.step_create(target, detour);
    let m1 = r.0;
    let tr = r.2;
    let m2 = m1.step_enable(target).0;
    let m3 = m2.step_disable(target).0;
    lemma_step_create_wf(m, target, detour);
    lemma_step_enable_wf(m1, target);
    assert(tr as int == max3(m.next as int, target as int + 1, detour as int + 1));
    assert(tr != target);
    assert(!m1.is_trampoline(target)) by {
        if m1.is_trampoline(target) {
            let a = choose|a: u64| m1.owns_trampoline(a, target);
            if a != target {
                assert(m.owns_trampoline(a, target));
            }
        }
    }
    assert(!m3.is_trampoline(target)) by {
        if m3.is_trampoline(target) {
            let a = choose|a: u64| m3.owns_trampoline(a, target);
            assert(m1.owns_trampoline(a, target));
        }
    }
}

/// Law: in every well-formed engine state, a target with an enabled hook
/// dispatches to its detour, and one with a disabled hook dispatches to its
/// own body — so enabling redirects every call of the target until it is
/// disabled again, whatever else happens to other hooks in between.
pub proof fn lemma_dispatch_of_hooked_target(m: EngineModel, target: u64)
    requires
        m.wf(),
        m.table.contains_key(target),
    ensures
        m.table[target].enabled ==> m.dispatch(target) == m.table[target].detour,
        !m.table[target].enabled ==> m.dispatch(target) == target,
{
    if !m.table[target].enabled {
        assert(!m.is_trampoline(target)) by {
            if m.is_trampoline(target) {
                let a = choose|a: u64| m.owns_trampoline(a, target);
                assert(!m.table.contains_key(m.table[a].trampoline));
            }
        }
    }
}

/// Law: calling through a hook's trampoline always reaches the hooked
/// target's original behavior, whether the hook is enabled or disabled.
pub proof fn lemma_trampoline_reaches_original(m: EngineModel, target: u64)
    requires
        m.wf(),
        m.table.contains_key(target),
    ensures
        m.dispatch(m.table[target].trampoline) == target,
{
    let tr = m.table[target].trampoline;
    assert(!m.table.contains_key(tr));
    assert(m.owns_trampoline(target, tr));
    let c = m.trampoline_owner(tr);
    assert(m.owns_trampoline(c, tr));
    assert(m.table[c].trampoline == m.table[target].trampoline);
}

/// Law: removing a hook restores the target's original behavior, even if the
/// hook was enabled at removal time.
pub proof fn lemma_remove_restores(m: EngineModel, target: u64)
    requires
        m.wf(),
        m.initialized,
        m.table.contains_key(target),
    ensures
        m.step_remove(target).1 == MH_STATUS::MH_OK,
        m.step_remove(target).0.dispatch(target) == target,
{
    let m2 = m.step_remove(target).0;
    assert(!m2.table.contains_key(target));
    assert(!m2.is_trampoline(target)) by {
        if m2.is_trampoline(target) {
            let a = choose|a: u64| m2.owns_trampoline(a, target);
            assert(m.owns_trampoline(a, target));
            assert(!m.table.contains_key(m.table[a].trampoline));
        }
    }
}

/// Law: enabling an already-enabled hook reports the redundancy and changes
/// no state at all.
pub proof fn lemma_redundant_enable(m: EngineModel, target: u64)
    requires
        m.wf(),
        m.initialized,
        m.table.contains_key(target),
        m.table[target].enabled,
    ensures
        m.step_enable(target) == (m, MH_STATUS::MH_ERROR_ENABLED),
{
}

/// Law: disabling an already-disabled hook reports the redundancy and changes
/// no state at all.
pub proof fn lemma_redundant_disable(m: EngineModel, target: u64)
    requires
        m.wf(),
        m.initialized,
        m.table.contains_key(target),
        !m.table[target].enabled,
    ensures
        m.step_disable(target) == (m, MH_STATUS::MH_ERROR_DISABLED),
{
}

/// Law: queuing any number of enable/disable requests and committing them
/// leaves each target exactly in the latest state requested for it; a target
/// without a request keeps its state; nothing stays pending, and no hook's
/// addresses move.
pub proof fn lemma_queue_last_request_wins(m: EngineModel, entries: Seq<(u64, bool)>, target: u64)
    requires
        m.wf(),
        m.initialized,
        forall|i: int| 0 <= i < entries.len() ==> m.table.contains_key(#[trigger] entries[i].0),
        m.table.contains_key(target),
        m.table[target].queued is None,
    ensures
        ({
            let mf = m.step_apply(entries);
            &&& mf.table.contains_key(target)
            &&& mf.table[target].enabled == (match last_request(entries, target) {
                Some(b) => b,
                None => m.table[target].enabled,
            })
            &&& mf.table[target].queued is None
            &&& mf.table[target].trampoline == m.table[target].trampoline
            &&& mf.table[target].detour == m.table[target].detour
        }),
{
    lemma_queue_all_props(m, entries);
    let mq = m.step_queue_all(entries);
    assert(mq.table.contains_key(target));
    let mf = mq.step_apply_queued().0;
    assert(mf.table[target] == apply_slot(mq.table[target]));
}

} // verus!
