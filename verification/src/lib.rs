//! A type-safe layer over a native function-hooking engine.
//!
//! The engine redirects calls from a target function to a detour function at
//! runtime and synthesizes a trampoline through which the original behavior
//! stays reachable. This crate holds the safe layer around that engine: typed
//! function handles, the hook lifecycle, batched enable/disable queues,
//! once-only initialization cells for process-lifetime hooks, and the registry
//! for the detour panic handler. The engine is reached through a narrow
//! status-code interface, and its process-wide hook table is carried here as
//! an explicit [`engine::Engine`] value against which every operation is
//! specified and verified.

use vstd::prelude::*;

pub mod engine;
pub mod error;
pub mod cell;
pub mod function;
pub mod panics;
pub mod sync;

use engine::{Engine, EngineModel, FunctionIdView, MH_STATUS};
use error::{spec_error_of, Error};
use function::{FnPointer, Function, HookableWith, UnsafeFnHandle};

verus! {

/// A function identifier used for dynamically looking up a function.
#[derive(Clone, Debug, Eq, PartialEq)]
pub enum FunctionId {
    /// The function's ordinal value.
    Ordinal(u16),
    /// The function's name, in 8-bit code units, without terminator.
    Name(Vec<u8>),
}

impl View for FunctionId {
    type V = FunctionIdView;

    open spec fn view(&self) -> FunctionIdView {
        match self {
            FunctionId::Ordinal(o) => FunctionIdView::Ordinal(*o),
            FunctionId::Name(n) => FunctionIdView::Name(n@),
        }
    }
}

impl FunctionId {
    /// Create a function identifier given its ordinal value.
    pub fn ordinal(value: u16) -> (r: FunctionId)
        ensures
            r@ == FunctionIdView::Ordinal(value),
    {
        FunctionId::Ordinal(value)
    }

    /// Create a function identifier given its name, in 8-bit code units
    /// without terminator.
    pub fn name(name: Vec<u8>) -> (r: FunctionId)
        ensures
            r@ == FunctionIdView::Name(name@),
    {
        FunctionId::Name(name)
    }
}

/// The result a given engine status stands for: success for `MH_OK`, the
/// corresponding typed error otherwise.
pub open spec fn spec_s2r(status: MH_STATUS) -> Result<(), Error> {
    match spec_error_of(status) {
        None => Ok(()),
        Some(e) => Err(e),
    }
}

/// Turns an engine status into a result, proxying the status one-to-one.
pub fn s2r(status: MH_STATUS) -> (r: Result<(), Error>)
    requires
        status != MH_STATUS::MH_UNKNOWN,
    ensures
        r == spec_s2r(status),
{
    match Error::from(status) {
        None => Ok(()),
        Some(e) => Err(e),
    }
}

/// The engine state after the layer has made sure the engine is initialized:
/// an already-initialized engine is left exactly as it is.
pub open spec fn spec_ensure_initialized(m: EngineModel) -> EngineModel {
    EngineModel { initialized: true, ..m }
}

/// Makes sure the underlying engine is initialized before any other
/// operation, tolerating the already-initialized report, so that repeated
/// calls are free after the first. Never fails.
fn initialize(engine: &mut Engine) -> (r: Result<(), Error>)
    requires
        old(engine).wf(),
    ensures
        final(engine).wf(),
        final(engine)@ == spec_ensure_initialized(old(engine)@),
        r is Ok,
{
    let status = engine.initialize();
    proof {
        assert(engine@ =~= spec_ensure_initialized(old(engine)@));
    }
    match s2r(status) {
        Ok(u) => Ok(u),
        Err(e) => match e {
            Error::AlreadyInitialized => Ok(()),
            other => Err(other),
        },
    }
}

/// Whether a sequence of wide code units holds an interior terminator.
pub open spec fn has_nul_u16(s: Seq<u16>) -> bool {
    exists|i: int| 0 <= i < s.len() && s[i] == 0
}

/// Whether a sequence of 8-bit code units holds an interior terminator.
pub open spec fn has_nul_u8(s: Seq<u8>) -> bool {
    exists|i: int| 0 <= i < s.len() && s[i] == 0
}

/// Whether a function identifier holds an interior terminator in its name;
/// an ordinal never does.
pub open spec fn id_has_nul(id: FunctionIdView) -> bool {
    match id {
        FunctionIdView::Ordinal(_) => false,
        FunctionIdView::Name(n) => has_nul_u8(n),
    }
}

/// Whether a wide string holds an interior terminator.
fn contains_nul_u16(v: &Vec<u16>) -> (r: bool)
    ensures
        r == has_nul_u16(v@),
{
    let mut i: usize = 0;
    while i < v.len()
        invariant
            i <= v@.len(),
            forall|j: int| 0 <= j < i ==> v@[j] != 0,
        decreases v@.len() - i,
    {
        if v[i] == 0 {
            return true;
        }
        i = i + 1;
    }
    false
}

/// Whether a byte string holds an interior terminator.
fn contains_nul_u8(v: &Vec<u8>) -> (r: bool)
    ensures
        r == has_nul_u8(v@),
{
    let mut i: usize = 0;
    while i < v.len()
        invariant
            i <= v@.len(),
            forall|j: int| 0 <= j < i ==> v@[j] != 0,
        decreases v@.len() - i,
    {
        if v[i] == 0 {
            return true;
        }
        i = i + 1;
    }
    false
}

/// A hook that redirects calls of one target function to a detour function.
///
/// Installation is tied to construction: a successfully constructed hook is
/// installed, disabled, in the engine. Removal is tied to explicit
/// destruction, which consumes the hook. Enable/disable state is never
/// cached here: every toggle is a round trip, and the engine's table stays
/// the single source of truth.
#[derive(Debug)]
pub struct Hook<T: Function> {
    target: FnPointer,
    trampoline: T,
}

impl<T: Function> Hook<T> {
    /// The hooked target's address.
    pub closed spec fn target_addr(&self) -> u64 {
        self.target.addr()
    }

    /// The typed trampoline value this hook carries.
    pub closed spec fn trampoline_value(&self) -> T {
        self.trampoline
    }

    /// Create a new hook given a target function and a compatible detour
    /// function.
    ///
    /// The hook is disabled by default. The engine is initialized first if it
    /// was not yet. The given target type must match the actual target
    /// function: nothing can check that an address really holds code of the
    /// declared signature, so the declared signatures of target and detour
    /// are demanded equal here, before anything runs.
    pub fn create<D: Function>(engine: &mut Engine, target: T, detour: D) -> (r: Result<
        Hook<T>,
        Error,
    >) where T: HookableWith<D>
        requires
            old(engine).wf(),
            target.sig() == detour.sig(),
        ensures
            final(engine).wf(),
            ({
                let m0 = spec_ensure_initialized(old(engine)@);
                let step = m0.step_create(target.addr(), detour.addr());
                &&& final(engine)@ == step.0
                &&& match r {
                    Ok(h) => {
                        &&& step.1 == MH_STATUS::MH_OK
                        &&& h.target_addr() == target.addr()
                        &&& h.trampoline_value().addr() == step.2
                        &&& h.trampoline_value().sig() == target.sig()
                    },
                    Err(e) => step.1 != MH_STATUS::MH_OK && Some(e) == spec_error_of(step.1),
                }
            }),
    {
        initialize(engine)?;
        let target_ptr = target.to_ptr();
        let detour_ptr = detour.to_ptr();
        let (status, tr) = engine.create_hook(target_ptr.to_raw(), detour_ptr.to_raw());
        match s2r(status) {
            Ok(_) => Ok(
                Hook {
                    target: target_ptr,
                    trampoline: T::from_ptr(FnPointer::from_raw(tr), target.signature()),
                },
            ),
            Err(e) => Err(e),
        }
    }

    /// Create a new hook given the name of the module, the identifier of the
    /// function symbol, and a compatible detour function.
    ///
    /// The module has to be loaded before this function is called; no attempt
    /// is made to load it. The hook is disabled by default. The module name
    /// (wide code units) and a symbol name (8-bit code units) are rejected if
    /// they hold an interior terminator. The resolved target is trusted to
    /// have the detour's declared signature; that remains the caller's
    /// guarantee, exactly as with [`Hook::create`].
    pub fn create_api<D: Function>(
        engine: &mut Engine,
        target_module: &Vec<u16>,
        target_function: &FunctionId,
        detour: D,
    ) -> (r: Result<Hook<T>, Error>) where T: HookableWith<D>
        requires
            old(engine).wf(),
        ensures
            final(engine).wf(),
            has_nul_u16(target_module@) ==> r == Err::<Hook<T>, Error>(Error::InvalidModuleName)
                && final(engine)@ == spec_ensure_initialized(old(engine)@),
            !has_nul_u16(target_module@) && id_has_nul(target_function@) ==> r == Err::<
                Hook<T>,
                Error,
            >(Error::InvalidFunctionName) && final(engine)@ == spec_ensure_initialized(
                old(engine)@,
            ),
            !has_nul_u16(target_module@) && !id_has_nul(target_function@) ==> ({
                let m0 = spec_ensure_initialized(old(engine)@);
                let step = m0.step_create_api(target_module@, target_function@, detour.addr());
                &&& final(engine)@ == step.0
                &&& match r {
                    Ok(h) => {
                        &&& step.1 == MH_STATUS::MH_OK
                        &&& h.target_addr() == step.2
                        &&& h.trampoline_value().addr() == step.3
                        &&& h.trampoline_value().sig() == detour.sig()
                    },
                    Err(e) => step.1 != MH_STATUS::MH_OK && Some(e) == spec_error_of(step.1),
                }
            }),
    {
        initialize(engine)?;
        if contains_nul_u16(target_module) {
            return Err(Error::InvalidModuleName);
        }
        match target_function {
            FunctionId::Ordinal(_) => (),
            FunctionId::Name(n) => {
                if contains_nul_u8(n) {
                    return Err(Error::InvalidFunctionName);
                }
            },
        }
        let detour_ptr = detour.to_ptr();
        let (status, target, tr) = engine.create_hook_api(
            target_module,
            target_function,
            detour_ptr.to_raw(),
        );
        match s2r(status) {
            Ok(_) => Ok(
                Hook {
                    target: FnPointer::from_raw(target),
                    trampoline: T::from_ptr(FnPointer::from_raw(tr), detour.signature()),
                },
            ),
            Err(e) => Err(e),
        }
    }

    /// Returns the trampoline, typed as the unsafe variant of the target's
    /// type. Calling it reaches the target's original behavior whether the
    /// hook is enabled or disabled — but only while the hook is installed;
    /// after destruction the address is invalid.
    pub fn trampoline(&self) -> (r: UnsafeFnHandle)
        ensures
            r.spec_addr() == self.trampoline_value().addr(),
            r.spec_sig() == self.trampoline_value().sig(),
    {
        self.trampoline.to_unsafe()
    }

    /// Enables this hook: every subsequent call of the target reaches the
    /// detour, until the hook is disabled. Enabling an already-enabled hook
    /// reports [`Error::AlreadyEnabled`] and changes nothing.
    pub fn enable(&self, engine: &mut Engine) -> (r: Result<(), Error>)
        requires
            old(engine).wf(),
        ensures
            final(engine).wf(),
            final(engine)@ == old(engine)@.step_enable(self.target_addr()).0,
            r == spec_s2r(old(engine)@.step_enable(self.target_addr()).1),
    {
        let status = engine.enable_hook(self.target.to_raw());
        s2r(status)
    }

    /// Disables this hook: every subsequent call of the target reaches the
    /// original behavior again. Disabling an already-disabled hook reports
    /// [`Error::Disabled`] and changes nothing.
    pub fn disable(&self, engine: &mut Engine) -> (r: Result<(), Error>)
        requires
            old(engine).wf(),
        ensures
            final(engine).wf(),
            final(engine)@ == old(engine)@.step_disable(self.target_addr()).0,
            r == spec_s2r(old(engine)@.step_disable(self.target_addr()).1),
    {
        let status = engine.disable_hook(self.target.to_raw());
        s2r(status)
    }

    /// Removes this hook from the engine, consuming it: the target reverts to
    /// its unhooked behavior — even if the hook was enabled — and the
    /// trampoline becomes invalid.
    pub fn destroy(self, engine: &mut Engine) -> (r: Result<(), Error>)
        requires
            old(engine).wf(),
        ensures
            final(engine).wf(),
            final(engine)@ == old(engine)@.step_remove(self.target_addr()).0,
            r == spec_s2r(old(engine)@.step_remove(self.target_addr()).1),
    {
        let status = engine.remove_hook(self.target.to_raw());
        s2r(status)
    }
}

/// A queue of hook changes to be applied at once.
///
/// Applying N changes one by one exposes N intermediate states; queuing
/// defers every effect to one committed instant, and the latest queued
/// request per target wins.
#[derive(Debug)]
pub struct HookQueue {
    entries: Vec<(FnPointer, bool)>,
}

impl HookQueue {
    /// The queued requests: each target address with its requested state, in
    /// queuing order.
    pub closed spec fn entries_view(&self) -> Seq<(u64, bool)> {
        self.entries@.map_values(|e: (FnPointer, bool)| (e.0.addr(), e.1))
    }

    /// Create a new empty queue.
    pub fn new() -> (r: HookQueue)
        ensures
            r.entries_view() == Seq::<(u64, bool)>::empty(),
    {
        let r = HookQueue { entries: Vec::new() };
        proof {
            assert(r.entries_view() =~= Seq::<(u64, bool)>::empty());
        }
        r
    }

    /// Queue the given hook to be enabled.
    pub fn enable<T: Function>(&mut self, hook: &Hook<T>)
        ensures
            final(self).entries_view() == old(self).entries_view().push(
                (hook.target_addr(), true),
            ),
    {
        self.entries.push((hook.target, true));
        proof {
            assert(self.entries_view() =~= old(self).entries_view().push(
                (hook.target_addr(), true),
            ));
        }
    }

    /// Queue the given hook to be disabled.
    pub fn disable<T: Function>(&mut self, hook: &Hook<T>)
        ensures
            final(self).entries_view() == old(self).entries_view().push(
                (hook.target_addr(), false),
            ),
    {
        self.entries.push((hook.target, false));
        proof {
            assert(self.entries_view() =~= old(self).entries_view().push(
                (hook.target_addr(), false),
            ));
        }
    }

    /// Applies all the changes in this queue at once: every queued request is
    /// handed to the engine and then committed in one step, so no caller of
    /// the same engine sees a partially applied queue. Every queued hook must
    /// still be installed — they were validated at construction time, so a
    /// failure here would be a logic bug, not an environmental one — and then
    /// the whole batch succeeds.
    pub fn apply(&mut self, engine: &mut Engine) -> (r: Result<(), Error>)
        requires
            old(engine).wf(),
            forall|i: int| 0 <= i < old(self).entries_view().len() ==> old(
                engine,
            )@.table.contains_key(#[trigger] old(self).entries_view()[i].0),
        ensures
            final(self).entries_view() == old(self).entries_view(),
            final(engine).wf(),
            final(engine)@ == spec_ensure_initialized(old(engine)@).step_apply(
                old(self).entries_view(),
            ),
            r is Ok,
    {
        initialize(engine)?;
        let ghost m0 = engine@;
        let ghost all = self.entries_view();
        proof {
            engine.lemma_wf_view();
            assert(all.take(0) =~= Seq::<(u64, bool)>::empty());
            assert(forall|i: int| 0 <= i < all.len() ==> m0.table.contains_key(
                #[trigger] all[i].0,
            ));
        }
        let n = self.entries.len();
        let mut i: usize = 0;
        while i < n
            invariant
                self == old(self),
                n == self.entries@.len(),
                all == self.entries_view(),
                all.len() == n,
                i <= n,
                m0.wf(),
                m0.initialized,
                forall|j: int| 0 <= j < all.len() ==> m0.table.contains_key(#[trigger] all[j].0),
                engine.wf(),
                engine@ == m0.step_queue_all(all.take(i as int)),
            decreases n - i,
        {
            let (ptr, enabled) = self.entries[i];
            proof {
                engine::lemma_queue_all_props(m0, all.take(i as int));
                assert(all[i as int] == (ptr.addr(), enabled));
                assert(m0.table.contains_key(all[i as int].0));
                assert(engine@.table.contains_key(ptr.addr()));
            }
            let status = if enabled {
                engine.queue_enable_hook(ptr.to_raw())
            } else {
                engine.queue_disable_hook(ptr.to_raw())
            };
            // any failure at this point would be a logic bug, and is ruled out
            match s2r(status) {
                Ok(u) => u,
                Err(_) => vstd::pervasive::unreached(),
            };
            proof {
                assert(all.take(i as int + 1).drop_last() =~= all.take(i as int));
                assert(all.take(i as int + 1).last() == all[i as int]);
                assert(engine@ == m0.step_queue_all(all.take(i as int + 1)));
            }
            i = i + 1;
        }
        proof {
            assert(all.take(n as int) =~= all);
            engine::lemma_queue_all_props(m0, all);
        }
        let status = engine.apply_queued();
        proof {
            assert(status == MH_STATUS::MH_OK);
        }
        s2r(status)
    }
}

/// Where a static hook finds its target: a typed function value known at
/// declaration time, or a module and symbol resolved at initialization time.
#[derive(Debug)]
pub enum StaticHookTarget<T: Function> {
    /// Hook the given function value.
    Static(T),
    /// Resolve the target in the named module (wide code units, no
    /// terminator) under the given symbol identifier, at the moment the hook
    /// is initialized.
    Dynamic(Vec<u16>, FunctionId),
}

/// The pair a static hook publishes on initialization: the installed hook
/// and the detour logic it serves.
#[derive(Debug)]
pub struct StaticHookInner<T: Function, F>(pub Hook<T>, pub F);

/// The engine transition of installing a static hook's target, with its
/// status, the resolved target address, and the trampoline address; the
/// names of a dynamic target must already be free of interior terminators.
pub open spec fn spec_install<T: Function>(
    m0: EngineModel,
    target: StaticHookTarget<T>,
    detour: T,
) -> (EngineModel, MH_STATUS, u64, u64) {
    match target {
        StaticHookTarget::Static(t) => {
            let step = m0.step_create(t.addr(), detour.addr());
            (step.0, step.1, t.addr(), step.2)
        },
        StaticHookTarget::Dynamic(module, id) => m0.step_create_api(module@, id@, detour.addr()),
    }
}

/// Whether a static hook target names a module with an interior terminator.
pub open spec fn target_invalid_module<T: Function>(target: StaticHookTarget<T>) -> bool {
    target matches StaticHookTarget::Dynamic(m, _) && has_nul_u16(m@)
}

/// Whether a static hook target names a symbol with an interior terminator,
/// while its module name is fine.
pub open spec fn target_invalid_function<T: Function>(target: StaticHookTarget<T>) -> bool {
    target matches StaticHookTarget::Dynamic(m, id) && !has_nul_u16(m@) && id_has_nul(id@)
}

/// A hook bound to a process-lifetime variable: installed exactly once,
/// reachable from anywhere thereafter.
///
/// Initialization must happen exactly once, before any other access; the
/// once-only discipline is demanded ahead of the run, and the publication
/// cell underneath makes any runtime violation fail fast rather than hand
/// out a half-made hook. After one successful initialization, every access
/// observes the same installed hook.
#[derive(Debug)]
pub struct StaticHook<T: Function, F> {
    cell: sync::AtomicInitCell<StaticHookInner<T, F>>,
    target: StaticHookTarget<T>,
    detour: T,
}

impl<T: Function, F> StaticHook<T, F> {
    /// Whether the hook has been initialized.
    pub closed spec fn initialized(&self) -> bool {
        self.cell.value() is Some
    }

    /// The declared target of this static hook.
    pub closed spec fn target_value(&self) -> StaticHookTarget<T> {
        self.target
    }

    /// The declared detour function of this static hook.
    pub closed spec fn detour_value(&self) -> T {
        self.detour
    }

    /// The hook published at initialization; meaningful once initialized.
    pub closed spec fn installed_hook(&self) -> Hook<T> {
        match self.cell.value() {
            Some(inner) => inner.0,
            None => vstd::pervasive::arbitrary(),
        }
    }

    /// The detour logic published at initialization; meaningful once
    /// initialized.
    pub closed spec fn installed_logic(&self) -> F {
        match self.cell.value() {
            Some(inner) => inner.1,
            None => vstd::pervasive::arbitrary(),
        }
    }

    /// Declares a static hook for the given target with the given detour
    /// function; nothing is installed until initialization.
    pub fn new(target: StaticHookTarget<T>, detour: T) -> (r: StaticHook<T, F>)
        ensures
            !r.initialized(),
            r.target_value() == target,
            r.detour_value() == detour,
    {
        StaticHook { cell: sync::AtomicInitCell::new(), target, detour }
    }

    /// Whether the hook has been initialized.
    pub fn is_initialized(&self) -> (r: bool)
        ensures
            r == self.initialized(),
    {
        match self.cell.get() {
            Some(_) => true,
            None => false,
        }
    }

    /// Installs the declared target in the engine, without touching the
    /// publication cell.
    fn install(&self, engine: &mut Engine) -> (r: Result<Hook<T>, Error>) where
        T: HookableWith<T>,

        requires
            old(engine).wf(),
            self.target_value() matches StaticHookTarget::Static(t) ==> t.sig()
                == self.detour_value().sig(),
        ensures
            final(engine).wf(),
            target_invalid_module(self.target_value()) ==> r == Err::<Hook<T>, Error>(
                Error::InvalidModuleName,
            ) && final(engine)@ == spec_ensure_initialized(old(engine)@),
            target_invalid_function(self.target_value()) ==> r == Err::<Hook<T>, Error>(
                Error::InvalidFunctionName,
            ) && final(engine)@ == spec_ensure_initialized(old(engine)@),
            !target_invalid_module(self.target_value()) && !target_invalid_function(
                self.target_value(),
            ) ==> ({
                let inst = spec_install(
                    spec_ensure_initialized(old(engine)@),
                    self.target_value(),
                    self.detour_value(),
                );
                &&& final(engine)@ == inst.0
                &&& match r {
                    Ok(h) => {
                        &&& inst.1 == MH_STATUS::MH_OK
                        &&& h.target_addr() == inst.2
                        &&& h.trampoline_value().addr() == inst.3
                        &&& h.trampoline_value().sig() == self.detour_value().sig()
                    },
                    Err(e) => inst.1 != MH_STATUS::MH_OK && Some(e) == spec_error_of(inst.1),
                }
            }),
    {
        match &self.target {
            StaticHookTarget::Static(t) => Hook::<T>::create(engine, *t, self.detour),
            StaticHookTarget::Dynamic(module, id) => Hook::<T>::create_api(
                engine,
                module,
                id,
                self.detour,
            ),
        }
    }

    /// Initialize and install the underlying hook, publishing it together
    /// with the given detour logic.
    ///
    /// Must be called exactly once, before any other access: the once-only
    /// discipline is a precondition here, and a runtime violation of it fails
    /// fast rather than install a second hook.
    pub fn initialize(&mut self, engine: &mut Engine, closure: F) -> (r: Result<(), Error>) where
        T: HookableWith<T>,

        requires
            !old(self).initialized(),
            old(engine).wf(),
            old(self).target_value() matches StaticHookTarget::Static(t) ==> t.sig() == old(self).detour_value().sig(),
        ensures
            final(engine).wf(),
            final(self).target_value() == old(self).target_value(),
            final(self).detour_value() == old(self).detour_value(),
            target_invalid_module(old(self).target_value()) ==> r == Err::<(), Error>(
                Error::InvalidModuleName,
            ) && final(engine)@ == spec_ensure_initialized(old(engine)@) && !final(self).initialized(),
            target_invalid_function(old(self).target_value()) ==> r == Err::<(), Error>(
                Error::InvalidFunctionName,
            ) && final(engine)@ == spec_ensure_initialized(old(engine)@) && !final(self).initialized(),
            !target_invalid_module(old(self).target_value()) && !target_invalid_function(
                old(self).target_value(),
            ) ==> ({
                let inst = spec_install(
                    spec_ensure_initialized(old(engine)@),
                    old(self).target_value(),
                    old(self).detour_value(),
                );
                &&& final(engine)@ == inst.0
                &&& match r {
                    Ok(_) => {
                        &&& inst.1 == MH_STATUS::MH_OK
                        &&& final(self).initialized()
                        &&& final(self).installed_hook().target_addr() == inst.2
                        &&& final(self).installed_hook().trampoline_value().addr() == inst.3
                        &&& final(self).installed_hook().trampoline_value().sig() == old(self).detour_value().sig()
                        &&& final(self).installed_logic() == closure
                    },
                    Err(e) => inst.1 != MH_STATUS::MH_OK && Some(e) == spec_error_of(inst.1)
                        && !final(self).initialized(),
                }
            }),
    {
        match self.cell.get() {
            // a second initialization is a programmer error: fail fast
            Some(_) => vstd::pervasive::unreached(),
            None => (),
        }
        let hook = match self.install(engine) {
            Ok(h) => h,
            Err(e) => {
                return Err(e);
            },
        };
        match self.cell.initialize(StaticHookInner(hook, closure)) {
            Ok(u) => Ok(u),
            Err(_) => vstd::pervasive::unreached(),
        }
    }

    /// A reference to the detour logic published at initialization; this is
    /// what a generated detour body runs on every invocation.
    pub fn detour_logic(&self) -> (r: &F)
        requires
            self.initialized(),
        ensures
            *r == self.installed_logic(),
    {
        match self.cell.get() {
            Some(inner) => &inner.1,
            None => vstd::pervasive::unreached(),
        }
    }

    /// A reference to the installed hook; initialization must have happened.
    /// A runtime access before initialization fails fast in the publication
    /// cell.
    pub fn hook(&self) -> (r: &Hook<T>)
        requires
            self.initialized(),
        ensures
            *r == self.installed_hook(),
    {
        match self.cell.get() {
            Some(inner) => &inner.0,
            None => vstd::pervasive::unreached(),
        }
    }

    /// Returns the typed trampoline of the installed hook: through it the
    /// target's original behavior stays reachable while the hook is
    /// installed, enabled or not.
    pub fn trampoline(&self) -> (r: T)
        requires
            self.initialized(),
        ensures
            r == self.installed_hook().trampoline_value(),
    {
        match self.cell.get() {
            Some(inner) => inner.0.trampoline,
            None => vstd::pervasive::unreached(),
        }
    }

    /// Enables the installed hook, as [`Hook::enable`] does.
    pub fn enable(&self, engine: &mut Engine) -> (r: Result<(), Error>)
        requires
            self.initialized(),
            old(engine).wf(),
        ensures
            final(engine).wf(),
            final(engine)@ == old(engine)@.step_enable(self.installed_hook().target_addr()).0,
            r == spec_s2r(old(engine)@.step_enable(self.installed_hook().target_addr()).1),
    {
        self.hook().enable(engine)
    }

    /// Disables the installed hook, as [`Hook::disable`] does.
    pub fn disable(&self, engine: &mut Engine) -> (r: Result<(), Error>)
        requires
            self.initialized(),
            old(engine).wf(),
        ensures
            final(engine).wf(),
            final(engine)@ == old(engine)@.step_disable(self.installed_hook().target_addr()).0,
            r == spec_s2r(old(engine)@.step_disable(self.installed_hook().target_addr()).1),
    {
        self.hook().disable(engine)
    }
}

/// A static hook bundled with a default detour logic, so that initialization
/// needs no argument at the call site.
#[derive(Debug)]
pub struct StaticHookWithDefault<T: Function, F> {
    inner: StaticHook<T, F>,
    default: Option<F>,
}

impl<T: Function, F> StaticHookWithDefault<T, F> {
    /// The static hook underneath.
    pub closed spec fn inner_value(&self) -> StaticHook<T, F> {
        self.inner
    }

    /// The default detour logic still waiting to be published, if any.
    pub closed spec fn default_value(&self) -> Option<F> {
        self.default
    }

    /// Bundles a static hook with its default detour logic.
    pub fn new(hook: StaticHook<T, F>, default: F) -> (r: StaticHookWithDefault<T, F>)
        ensures
            r.inner_value() == hook,
            r.default_value() == Some(default),
    {
        StaticHookWithDefault { inner: hook, default: Some(default) }
    }

    /// Initialize and install the underlying hook with the bundled default
    /// detour logic. Must be called exactly once, before any other access,
    /// exactly as [`StaticHook::initialize`]. When installation fails, the
    /// bundled default stays in place, so the call can be retried once the
    /// environment allows it; only a successful installation consumes it.
    pub fn initialize(&mut self, engine: &mut Engine) -> (r: Result<(), Error>) where
        T: HookableWith<T>,

        requires
            !old(self).inner_value().initialized(),
            old(self).default_value() is Some,
            old(engine).wf(),
            old(self).inner_value().target_value() matches StaticHookTarget::Static(t)
                ==> t.sig() == old(self).inner_value().detour_value().sig(),
        ensures
            final(engine).wf(),
            final(self).inner_value().target_value() == old(self).inner_value().target_value(),
            final(self).inner_value().detour_value() == old(self).inner_value().detour_value(),
            r is Ok ==> final(self).default_value() is None,
            r is Err ==> final(self).default_value() == old(self).default_value(),
            target_invalid_module(old(self).inner_value().target_value()) ==> r == Err::<
                (),
                Error,
            >(Error::InvalidModuleName) && final(engine)@ == spec_ensure_initialized(
                old(engine)@,
            ) && !final(self).inner_value().initialized(),
            target_invalid_function(old(self).inner_value().target_value()) ==> r == Err::<
                (),
                Error,
            >(Error::InvalidFunctionName) && final(engine)@ == spec_ensure_initialized(
                old(engine)@,
            ) && !final(self).inner_value().initialized(),
            !target_invalid_module(old(self).inner_value().target_value())
                && !target_invalid_function(old(self).inner_value().target_value()) ==> ({
                let inst = spec_install(
                    spec_ensure_initialized(old(engine)@),
                    old(self).inner_value().target_value(),
                    old(self).inner_value().detour_value(),
                );
                &&& final(engine)@ == inst.0
                &&& match r {
                    Ok(_) => {
                        &&& inst.1 == MH_STATUS::MH_OK
                        &&& final(self).inner_value().initialized()
                        &&& final(self).inner_value().installed_hook().target_addr() == inst.2
                        &&& final(self).inner_value().installed_hook().trampoline_value().addr()
                            == inst.3
                        &&& final(self).inner_value().installed_hook().trampoline_value().sig()
                            == old(self).inner_value().detour_value().sig()
                        &&& old(self).default_value() matches Some(c)
                            ==> final(self).inner_value().installed_logic() == c
                    },
                    Err(e) => inst.1 != MH_STATUS::MH_OK && Some(e) == spec_error_of(inst.1)
                        && !final(self).inner_value().initialized(),
                }
            }),
    {
        match self.inner.cell.get() {
            // a second initialization is a programmer error: fail fast
            Some(_) => vstd::pervasive::unreached(),
            None => (),
        }
        // install first: a failure here leaves the bundled default in place
        let hook = match self.inner.install(engine) {
            Ok(h) => h,
            Err(e) => {
                return Err(e);
            },
        };
        let closure = match self.default.take() {
            Some(c) => c,
            None => vstd::pervasive::unreached(),
        };
        match self.inner.cell.initialize(StaticHookInner(hook, closure)) {
            Ok(u) => Ok(u),
            Err(_) => vstd::pervasive::unreached(),
        }
    }

    /// A reference to the static hook underneath, through which the installed
    /// hook is reached.
    pub fn inner(&self) -> (r: &StaticHook<T, F>)
        ensures
            *r == self.inner_value(),
    {
        &self.inner
    }
}

} // verus!
