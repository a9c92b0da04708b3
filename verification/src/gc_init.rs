//! Setting the collector up.
//!
//! Every runtime table that holds references registers a scanner for its
//! roots, in a fixed order and once per thread.

use vstd::prelude::*;
use crate::gc_env::{env_flag_enabled, flag_set};
use crate::gc_types::GcState;

verus! {

/// What was compiled in.
#[derive(Clone, Copy, PartialEq, Eq, Structural, Debug)]
pub struct Features {
    pub unix: bool,
    pub mod_dgram: bool,
    pub dyn_eval: bool,
    pub full: bool,
    pub ohos_napi: bool,
}

/// The tables that hold references.
#[derive(Clone, Copy, PartialEq, Eq, Structural, Debug)]
pub enum Scanner {
    RuntimeHandles,
    TempRoots,
    NativeAsyncCompletion,
    Promise,
    Timer,
    Descriptor,
    ShapeTableRekey,
    Proxy,
    ErrorUserProps,
    Exception,
    AsyncContext,
    AsyncHooks,
    ShapeCache,
    LastExecGroups,
    TypeofString,
    RawJsonKey,
    ExoticExpando,
    TemplateRaw,
    PrototypeAddrCache,
    PrototypeResolutionStack,
    MapIteratorArray,
    SetIteratorArray,
    PerfEntries,
    V8PromiseHook,
    TypedFeedback,
    TypedArrayOwnProps,
    TypedArrayViewMeta,
    TransitionCache,
    ObjectCache,
    ArgumentsObject,
    BunFfi,
    ClassSideTable,
    SymbolSideTable,
    ImplicitThis,
    Inspector,
    ClassInheritance,
    ChildProcessReactor,
    PtyReactor,
    DgramReactor,
    JsonParse,
    InternTable,
    SmallIntCache,
    ConsoleLogSingleton,
    BoxedPrimitivePayload,
    PendingFinalizationJobs,
    WeakHolders,
    NodeSubmoduleSingleton,
    BoxCell,
    IterResult,
    AsyncStepThunkCache,
    SingletonClosure,
    ClosureDynamicProps,
    BufferOwnProps,
    HandleExpando,
    NativeCallableExport,
    ClassCaptureValue,
    Vm,
    DynEval,
    Tls,
    ProcessFinalization,
    ProcessModuleLoader,
    ProcessEnvCache,
    PermissionCache,
    ReportCache,
    ErrorConstructor,
    TtyResizeCallback,
    FrameCallback,
    TuiInputHandler,
    CurrentNewTarget,
    AccessorReceiverOverride,
    PendingFetchSignal,
    ProcessEventListener,
    UnhandledRejection,
    ProcessStreamSingleton,
    FsHandle,
    FsStream,
    FsWatcher,
    Plugin,
    Geisterhand,
    UiTextRegistry,
    HookSlot,
    StateSlot,
    ArktsCallbacks,
}

/// How many scanners there are.
pub const SCANNER_COUNT: usize = 83;

/// The scanner in place `i` of the order of registration.
pub open spec fn scanner_in_place(i: int) -> Scanner {
    if i == 0 {
        Scanner::RuntimeHandles
    } else if i == 1 {
        Scanner::TempRoots
    } else if i == 2 {
        Scanner::NativeAsyncCompletion
    } else if i == 3 {
        Scanner::Promise
    } else if i == 4 {
        Scanner::Timer
    } else if i == 5 {
        Scanner::Descriptor
    } else if i == 6 {
        Scanner::ShapeTableRekey
    } else if i == 7 {
        Scanner::Proxy
    } else if i == 8 {
        Scanner::ErrorUserProps
    } else if i == 9 {
        Scanner::Exception
    } else if i == 10 {
        Scanner::AsyncContext
    } else if i == 11 {
        Scanner::AsyncHooks
    } else if i == 12 {
        Scanner::ShapeCache
    } else if i == 13 {
        Scanner::LastExecGroups
    } else if i == 14 {
        Scanner::TypeofString
    } else if i == 15 {
        Scanner::RawJsonKey
    } else if i == 16 {
        Scanner::ExoticExpando
    } else if i == 17 {
        Scanner::TemplateRaw
    } else if i == 18 {
        Scanner::PrototypeAddrCache
    } else if i == 19 {
        Scanner::PrototypeResolutionStack
    } else if i == 20 {
        Scanner::MapIteratorArray
    } else if i == 21 {
        Scanner::SetIteratorArray
    } else if i == 22 {
        Scanner::PerfEntries
    } else if i == 23 {
        Scanner::V8PromiseHook
    } else if i == 24 {
        Scanner::TypedFeedback
    } else if i == 25 {
        Scanner::TypedArrayOwnProps
    } else if i == 26 {
        Scanner::TypedArrayViewMeta
    } else if i == 27 {
        Scanner::TransitionCache
    } else if i == 28 {
        Scanner::ObjectCache
    } else if i == 29 {
        Scanner::ArgumentsObject
    } else if i == 30 {
        Scanner::BunFfi
    } else if i == 31 {
        Scanner::ClassSideTable
    } else if i == 32 {
        Scanner::SymbolSideTable
    } else if i == 33 {
        Scanner::ImplicitThis
    } else if i == 34 {
        Scanner::Inspector
    } else if i == 35 {
        Scanner::ClassInheritance
    } else if i == 36 {
        Scanner::ChildProcessReactor
    } else if i == 37 {
        Scanner::PtyReactor
    } else if i == 38 {
        Scanner::DgramReactor
    } else if i == 39 {
        Scanner::JsonParse
    } else if i == 40 {
        Scanner::InternTable
    } else if i == 41 {
        Scanner::SmallIntCache
    } else if i == 42 {
        Scanner::ConsoleLogSingleton
    } else if i == 43 {
        Scanner::BoxedPrimitivePayload
    } else if i == 44 {
        Scanner::PendingFinalizationJobs
    } else if i == 45 {
        Scanner::WeakHolders
    } else if i == 46 {
        Scanner::NodeSubmoduleSingleton
    } else if i == 47 {
        Scanner::BoxCell
    } else if i == 48 {
        Scanner::IterResult
    } else if i == 49 {
        Scanner::AsyncStepThunkCache
    } else if i == 50 {
        Scanner::SingletonClosure
    } else if i == 51 {
        Scanner::ClosureDynamicProps
    } else if i == 52 {
        Scanner::BufferOwnProps
    } else if i == 53 {
        Scanner::HandleExpando
    } else if i == 54 {
        Scanner::NativeCallableExport
    } else if i == 55 {
        Scanner::ClassCaptureValue
    } else if i == 56 {
        Scanner::Vm
    } else if i == 57 {
        Scanner::DynEval
    } else if i == 58 {
        Scanner::Tls
    } else if i == 59 {
        Scanner::ProcessFinalization
    } else if i == 60 {
        Scanner::ProcessModuleLoader
    } else if i == 61 {
        Scanner::ProcessEnvCache
    } else if i == 62 {
        Scanner::PermissionCache
    } else if i == 63 {
        Scanner::ReportCache
    } else if i == 64 {
        Scanner::ErrorConstructor
    } else if i == 65 {
        Scanner::TtyResizeCallback
    } else if i == 66 {
        Scanner::FrameCallback
    } else if i == 67 {
        Scanner::TuiInputHandler
    } else if i == 68 {
        Scanner::CurrentNewTarget
    } else if i == 69 {
        Scanner::AccessorReceiverOverride
    } else if i == 70 {
        Scanner::PendingFetchSignal
    } else if i == 71 {
        Scanner::ProcessEventListener
    } else if i == 72 {
        Scanner::UnhandledRejection
    } else if i == 73 {
        Scanner::ProcessStreamSingleton
    } else if i == 74 {
        Scanner::FsHandle
    } else if i == 75 {
        Scanner::FsStream
    } else if i == 76 {
        Scanner::FsWatcher
    } else if i == 77 {
        Scanner::Plugin
    } else if i == 78 {
        Scanner::Geisterhand
    } else if i == 79 {
        Scanner::UiTextRegistry
    } else if i == 80 {
        Scanner::HookSlot
    } else if i == 81 {
        Scanner::StateSlot
    } else {
        Scanner::ArktsCallbacks
    }
}

/// The scanner in place `i` of the order of registration.
fn scanner_at(i: usize) -> (s: Scanner)
    ensures
        s == scanner_in_place(i as int),
{
    match i {
        0 => Scanner::RuntimeHandles,
        1 => Scanner::TempRoots,
        2 => Scanner::NativeAsyncCompletion,
        3 => Scanner::Promise,
        4 => Scanner::Timer,
        5 => Scanner::Descriptor,
        6 => Scanner::ShapeTableRekey,
        7 => Scanner::Proxy,
        8 => Scanner::ErrorUserProps,
        9 => Scanner::Exception,
        10 => Scanner::AsyncContext,
        11 => Scanner::AsyncHooks,
        12 => Scanner::ShapeCache,
        13 => Scanner::LastExecGroups,
        14 => Scanner::TypeofString,
        15 => Scanner::RawJsonKey,
        16 => Scanner::ExoticExpando,
        17 => Scanner::TemplateRaw,
        18 => Scanner::PrototypeAddrCache,
        19 => Scanner::PrototypeResolutionStack,
        20 => Scanner::MapIteratorArray,
        21 => Scanner::SetIteratorArray,
        22 => Scanner::PerfEntries,
        23 => Scanner::V8PromiseHook,
        24 => Scanner::TypedFeedback,
        25 => Scanner::TypedArrayOwnProps,
        26 => Scanner::TypedArrayViewMeta,
        27 => Scanner::TransitionCache,
        28 => Scanner::ObjectCache,
        29 => Scanner::ArgumentsObject,
        30 => Scanner::BunFfi,
        31 => Scanner::ClassSideTable,
        32 => Scanner::SymbolSideTable,
        33 => Scanner::ImplicitThis,
        34 => Scanner::Inspector,
        35 => Scanner::ClassInheritance,
        36 => Scanner::ChildProcessReactor,
        37 => Scanner::PtyReactor,
        38 => Scanner::DgramReactor,
        39 => Scanner::JsonParse,
        40 => Scanner::InternTable,
        41 => Scanner::SmallIntCache,
        42 => Scanner::ConsoleLogSingleton,
        43 => Scanner::BoxedPrimitivePayload,
        44 => Scanner::PendingFinalizationJobs,
        45 => Scanner::WeakHolders,
        46 => Scanner::NodeSubmoduleSingleton,
        47 => Scanner::BoxCell,
        48 => Scanner::IterResult,
        49 => Scanner::AsyncStepThunkCache,
        50 => Scanner::SingletonClosure,
        51 => Scanner::ClosureDynamicProps,
        52 => Scanner::BufferOwnProps,
        53 => Scanner::HandleExpando,
        54 => Scanner::NativeCallableExport,
        55 => Scanner::ClassCaptureValue,
        56 => Scanner::Vm,
        57 => Scanner::DynEval,
        58 => Scanner::Tls,
        59 => Scanner::ProcessFinalization,
        60 => Scanner::ProcessModuleLoader,
        61 => Scanner::ProcessEnvCache,
        62 => Scanner::PermissionCache,
        63 => Scanner::ReportCache,
        64 => Scanner::ErrorConstructor,
        65 => Scanner::TtyResizeCallback,
        66 => Scanner::FrameCallback,
        67 => Scanner::TuiInputHandler,
        68 => Scanner::CurrentNewTarget,
        69 => Scanner::AccessorReceiverOverride,
        70 => Scanner::PendingFetchSignal,
        71 => Scanner::ProcessEventListener,
        72 => Scanner::UnhandledRejection,
        73 => Scanner::ProcessStreamSingleton,
        74 => Scanner::FsHandle,
        75 => Scanner::FsStream,
        76 => Scanner::FsWatcher,
        77 => Scanner::Plugin,
        78 => Scanner::Geisterhand,
        79 => Scanner::UiTextRegistry,
        80 => Scanner::HookSlot,
        81 => Scanner::StateSlot,
        _ => Scanner::ArktsCallbacks,
    }
}

/// The place of a scanner in the order of registration.
pub open spec fn place_of(s: Scanner) -> int {
    match s {
        Scanner::RuntimeHandles => 0,
        Scanner::TempRoots => 1,
        Scanner::NativeAsyncCompletion => 2,
        Scanner::Promise => 3,
        Scanner::Timer => 4,
        Scanner::Descriptor => 5,
        Scanner::ShapeTableRekey => 6,
        Scanner::Proxy => 7,
        Scanner::ErrorUserProps => 8,
        Scanner::Exception => 9,
        Scanner::AsyncContext => 10,
        Scanner::AsyncHooks => 11,
        Scanner::ShapeCache => 12,
        Scanner::LastExecGroups => 13,
        Scanner::TypeofString => 14,
        Scanner::RawJsonKey => 15,
        Scanner::ExoticExpando => 16,
        Scanner::TemplateRaw => 17,
        Scanner::PrototypeAddrCache => 18,
        Scanner::PrototypeResolutionStack => 19,
        Scanner::MapIteratorArray => 20,
        Scanner::SetIteratorArray => 21,
        Scanner::PerfEntries => 22,
        Scanner::V8PromiseHook => 23,
        Scanner::TypedFeedback => 24,
        Scanner::TypedArrayOwnProps => 25,
        Scanner::TypedArrayViewMeta => 26,
        Scanner::TransitionCache => 27,
        Scanner::ObjectCache => 28,
        Scanner::ArgumentsObject => 29,
        Scanner::BunFfi => 30,
        Scanner::ClassSideTable => 31,
        Scanner::SymbolSideTable => 32,
        Scanner::ImplicitThis => 33,
        Scanner::Inspector => 34,
        Scanner::ClassInheritance => 35,
        Scanner::ChildProcessReactor => 36,
        Scanner::PtyReactor => 37,
        Scanner::DgramReactor => 38,
        Scanner::JsonParse => 39,
        Scanner::InternTable => 40,
        Scanner::SmallIntCache => 41,
        Scanner::ConsoleLogSingleton => 42,
        Scanner::BoxedPrimitivePayload => 43,
        Scanner::PendingFinalizationJobs => 44,
        Scanner::WeakHolders => 45,
        Scanner::NodeSubmoduleSingleton => 46,
        Scanner::BoxCell => 47,
        Scanner::IterResult => 48,
        Scanner::AsyncStepThunkCache => 49,
        Scanner::SingletonClosure => 50,
        Scanner::ClosureDynamicProps => 51,
        Scanner::BufferOwnProps => 52,
        Scanner::HandleExpando => 53,
        Scanner::NativeCallableExport => 54,
        Scanner::ClassCaptureValue => 55,
        Scanner::Vm => 56,
        Scanner::DynEval => 57,
        Scanner::Tls => 58,
        Scanner::ProcessFinalization => 59,
        Scanner::ProcessModuleLoader => 60,
        Scanner::ProcessEnvCache => 61,
        Scanner::PermissionCache => 62,
        Scanner::ReportCache => 63,
        Scanner::ErrorConstructor => 64,
        Scanner::TtyResizeCallback => 65,
        Scanner::FrameCallback => 66,
        Scanner::TuiInputHandler => 67,
        Scanner::CurrentNewTarget => 68,
        Scanner::AccessorReceiverOverride => 69,
        Scanner::PendingFetchSignal => 70,
        Scanner::ProcessEventListener => 71,
        Scanner::UnhandledRejection => 72,
        Scanner::ProcessStreamSingleton => 73,
        Scanner::FsHandle => 74,
        Scanner::FsStream => 75,
        Scanner::FsWatcher => 76,
        Scanner::Plugin => 77,
        Scanner::Geisterhand => 78,
        Scanner::UiTextRegistry => 79,
        Scanner::HookSlot => 80,
        Scanner::StateSlot => 81,
        Scanner::ArktsCallbacks => 82,
    }
}

/// The table is compiled in.
pub open spec fn is_compiled_in(s: Scanner, f: Features) -> bool {
    match s {
        Scanner::PtyReactor => f.unix,
        Scanner::DgramReactor => f.mod_dgram,
        Scanner::DynEval => f.dyn_eval,
        Scanner::Plugin => f.full,
        Scanner::ArktsCallbacks => f.ohos_napi,
        _ => true,
    }
}

fn compiled_in(s: Scanner, f: &Features) -> (r: bool)
    ensures
        r == is_compiled_in(s, *f),
{
    match s {
        Scanner::PtyReactor => f.unix,
        Scanner::DgramReactor => f.mod_dgram,
        Scanner::DynEval => f.dyn_eval,
        Scanner::Plugin => f.full,
        Scanner::ArktsCallbacks => f.ohos_napi,
        _ => true,
    }
}

/// How a scanner's time is accounted for.
#[derive(Clone, Copy, PartialEq, Eq, Structural, Debug)]
pub enum MutableRootScannerSource {
    RuntimeHandles,
    RuntimeMutableScanner,
}

/// How a scanner is registered.
#[derive(Clone, Copy, PartialEq, Eq, Structural, Debug)]
pub enum ScannerMode {
    /// It runs to its end.
    Whole,
    /// It can also run in bounded steps, accounted for under this source.
    Budgeted(MutableRootScannerSource),
}

/// How a scanner is registered.
pub open spec fn mode_of(s: Scanner) -> ScannerMode {
    match s {
        Scanner::RuntimeHandles => ScannerMode::Budgeted(MutableRootScannerSource::RuntimeHandles),
        Scanner::TempRoots | Scanner::Promise | Scanner::Timer | Scanner::ClassSideTable | Scanner::SymbolSideTable | Scanner::HookSlot | Scanner::StateSlot => ScannerMode::Budgeted(
            MutableRootScannerSource::RuntimeMutableScanner,
        ),
        _ => ScannerMode::Whole,
    }
}

fn mode(s: Scanner) -> (m: ScannerMode)
    ensures
        m == mode_of(s),
{
    match s {
        Scanner::RuntimeHandles => ScannerMode::Budgeted(MutableRootScannerSource::RuntimeHandles),
        Scanner::TempRoots | Scanner::Promise | Scanner::Timer | Scanner::ClassSideTable | Scanner::SymbolSideTable | Scanner::HookSlot | Scanner::StateSlot => ScannerMode::Budgeted(
            MutableRootScannerSource::RuntimeMutableScanner,
        ),
        _ => ScannerMode::Whole,
    }
}

/// A scanner to be registered.
#[derive(Clone, Copy, PartialEq, Eq, Structural, Debug)]
pub struct Registration {
    pub scanner: Scanner,
    pub mode: ScannerMode,
}

/// The registration of a scanner.
pub open spec fn registration_of(s: Scanner) -> Registration {
    Registration { scanner: s, mode: mode_of(s) }
}

/// The registrations of the first `n` places: those compiled in, in order.
pub open spec fn registrations(f: Features, n: int) -> Seq<Registration>
    decreases n,
{
    if n <= 0 {
        Seq::empty()
    } else if is_compiled_in(scanner_in_place(n - 1), f) {
        registrations(f, n - 1).push(registration_of(scanner_in_place(n - 1)))
    } else {
        registrations(f, n - 1)
    }
}

/// Set the collector up on this thread: the scanners to register, in order,
/// after the time origin has been fixed. Nothing the second time.
pub fn gc_init(s: &mut GcState, f: &Features) -> (r: Option<Vec<Registration>>)
    ensures
        *final(s) == (GcState { init_done: true, ..*old(s) }),
        old(s).init_done ==> r is None,
        !old(s).init_done ==> (r matches Some(list) && list@ == registrations(
            *f,
            SCANNER_COUNT as int,
        )),
{
    if s.init_done {
        return None;
    }
    s.init_done = true;
    let mut list: Vec<Registration> = Vec::new();
    let mut i: usize = 0;
    assert(list@ =~= Seq::empty());
    while i < SCANNER_COUNT
        invariant
            i <= SCANNER_COUNT,
            list@ == registrations(*f, i as int),
        decreases SCANNER_COUNT - i,
    {
        let scanner: Scanner = scanner_at(i);
        if compiled_in(scanner, f) {
            list.push(Registration { scanner, mode: mode(scanner) });
        }
        i = i + 1;
    }
    Some(list)
}

/// Set the collector up on demand, unless that was ruled out.
pub fn ensure_gc_initialized(s: &mut GcState, f: &Features) -> (r: Option<Vec<Registration>>)
    ensures
        old(s).auto_init_suppressed || old(s).init_done ==> r is None && *final(s) == *old(s),
        !old(s).auto_init_suppressed && !old(s).init_done ==> {
            &&& r matches Some(list) && list@ == registrations(*f, SCANNER_COUNT as int)
            &&& *final(s) == (GcState { init_done: true, ..*old(s) })
        },
{
    if s.auto_init_suppressed {
        return None;
    }
    if !s.init_done {
        return gc_init(s, f);
    }
    None
}

/// Rule setting up on demand out, or allow it; the result is what held before.
pub fn set_auto_gc_init_suppressed(s: &mut GcState, suppressed: bool) -> (before: bool)
    ensures
        before == old(s).auto_init_suppressed,
        *final(s) == (GcState { auto_init_suppressed: suppressed, ..*old(s) }),
{
    let before: bool = s.auto_init_suppressed;
    s.auto_init_suppressed = suppressed;
    before
}

/// Is the inlining of class fields to be switched off at start? It is where
/// typed feedback is collected, or where one of the two debugging flags is
/// set.
pub fn js_gc_init_disables_field_inlining(
    typed_feedback_active: bool,
    verify_typed_intact: Option<&str>,
    disable_class_field_inline: Option<&str>,
) -> (r: bool)
    ensures
        r == (typed_feedback_active || flag_set(verify_typed_intact) || flag_set(
            disable_class_field_inline,
        )),
{
    typed_feedback_active || env_flag_enabled(verify_typed_intact) || env_flag_enabled(
        disable_class_field_inline,
    )
}

// ---------------------------------------------------------------------------
// Laws
// ---------------------------------------------------------------------------

/// Every table has one place in the order, and every place one table.
pub proof fn law_places_are_unique(i: int, s: Scanner)
    ensures
        0 <= i < SCANNER_COUNT ==> place_of(scanner_in_place(i)) == i,
        scanner_in_place(place_of(s)) == s,
        0 <= place_of(s) < SCANNER_COUNT,
{
}

/// Every table that is compiled in is registered.
pub proof fn law_no_table_is_forgotten(f: Features, s: Scanner, n: int)
    requires
        is_compiled_in(s, f),
        place_of(s) < n,
    ensures
        registrations(f, n).contains(registration_of(s)),
    decreases n,
{
    law_places_are_unique(n - 1, s);
    let list = registrations(f, n);
    if place_of(s) == n - 1 {
        assert(list.last() == registration_of(s));
    } else {
        law_no_table_is_forgotten(f, s, n - 1);
        let prev = registrations(f, n - 1);
        let k = choose|k: int| 0 <= k < prev.len() && prev[k] == registration_of(s);
        assert(list[k] == prev[k]);
    }
}

proof fn lemma_places_below(f: Features, n: int, k: int)
    requires
        0 <= n <= SCANNER_COUNT,
        0 <= k < registrations(f, n).len(),
    ensures
        0 <= place_of(registrations(f, n)[k].scanner) < n,
    decreases n,
{
    let prev = registrations(f, n - 1);
    law_places_are_unique(n - 1, scanner_in_place(n - 1));
    if k < prev.len() {
        lemma_places_below(f, n - 1, k);
    }
}

/// The tables are registered in the order of their places, so none of them
/// twice.
pub proof fn law_no_table_is_registered_twice(f: Features, n: int, a: int, b: int)
    requires
        0 <= n <= SCANNER_COUNT,
        0 <= a < b < registrations(f, n).len(),
    ensures
        place_of(registrations(f, n)[a].scanner) < place_of(registrations(f, n)[b].scanner),
    decreases n,
{
    let prev = registrations(f, n - 1);
    law_places_are_unique(n - 1, scanner_in_place(n - 1));
    if b < prev.len() {
        law_no_table_is_registered_twice(f, n - 1, a, b);
    } else {
        lemma_places_below(f, n - 1, a);
    }
}

} // verus!
