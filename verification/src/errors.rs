//! The bridge's error values and the exact message each one carries to the
//! embedder.
use vstd::prelude::*;
use crate::text::{chars_of, decimal, decimal_chars, extend_chars, string_from_chars};

verus! {

/// The four host-op lanes.
#[derive(Clone, Copy, Debug, PartialEq, Eq, Structural)]
pub enum OpLane {
    SyncJson,
    SyncBytes,
    AsyncJson,
    AsyncBytes,
}

/// Which input buffer an embedder call handed over.
#[derive(Clone, Copy, Debug, PartialEq, Eq, Structural)]
pub enum BufferKind {
    Snapshot,
    Source,
    ModuleSpecifier,
    ModuleSource,
    OpName,
    PayloadJson,
    PayloadBytes,
    ResultJson,
    ResultBytes,
    RejectionMessage,
    RejectionJson,
    GlobalName,
    Json,
    Bytes,
    ArgsJson,
    ExportName,
    ResourceName,
}

/// Which kind of name an embedder call handed over.
#[derive(Clone, Copy, Debug, PartialEq, Eq, Structural)]
pub enum NameKind {
    Op,
    Global,
    ModuleSpecifier,
    Export,
    Resource,
}

/// A promise that the bridge drives to settlement with microtask checkpoints.
#[derive(Clone, Copy, Debug, PartialEq, Eq, Structural)]
pub enum AwaitedPromise {
    /// The promise a script evaluated to.
    ScriptResult,
    /// The promise a called function returned.
    FunctionResult,
    /// The evaluation promise of a module.
    ModuleEvaluation,
    /// The evaluation promise of a module loaded by a dynamic `import()`.
    DynamicImportEvaluation,
}

/// A call whose arguments come as the JSON text of an array.
#[derive(Clone, Copy, Debug, PartialEq, Eq, Structural)]
pub enum ArgsCaller {
    CallGlobalJson,
    CallExportJson,
}

/// An error reported back to the embedder.
#[derive(Debug)]
pub enum BridgeError {
    NullRuntime,
    InvalidBuffer(BufferKind),
    EmptyName(NameKind),
    InvalidOpId(OpLane),
    OpClosed(OpLane),
    OpNotRegistered(OpLane, String),
    NoQueuedResponse(OpLane, String),
    NullPromiseHandle,
    PromiseHandleClosed,
    NullModuleHandle,
    ModuleHandleClosed,
    ModuleNotFound(String),
    MissingReferrerMetadata,
    SnapshotTooSmall,
    ModuleCompileFailed(String),
    ModuleInstantiationIncomplete(String),
    ModuleInstantiationFailed(String),
    ModuleAlreadyErrored(String),
    ModuleEvaluationFailed(String),
    StillPending(AwaitedPromise),
    MissingOpArguments(OpLane),
    PromisePending,
    ArgsNotArray(ArgsCaller),
    MissingArgument(u32),
    MissingExportName(u32),
    UnreadableExportName(u32),
}

/// `BridgeError` with its strings taken by their characters.
pub enum BridgeErrorView {
    NullRuntime,
    InvalidBuffer(BufferKind),
    EmptyName(NameKind),
    InvalidOpId(OpLane),
    OpClosed(OpLane),
    OpNotRegistered(OpLane, Seq<char>),
    NoQueuedResponse(OpLane, Seq<char>),
    NullPromiseHandle,
    PromiseHandleClosed,
    NullModuleHandle,
    ModuleHandleClosed,
    ModuleNotFound(Seq<char>),
    MissingReferrerMetadata,
    SnapshotTooSmall,
    ModuleCompileFailed(Seq<char>),
    ModuleInstantiationIncomplete(Seq<char>),
    ModuleInstantiationFailed(Seq<char>),
    ModuleAlreadyErrored(Seq<char>),
    ModuleEvaluationFailed(Seq<char>),
    StillPending(AwaitedPromise),
    MissingOpArguments(OpLane),
    PromisePending,
    ArgsNotArray(ArgsCaller),
    MissingArgument(u32),
    MissingExportName(u32),
    UnreadableExportName(u32),
}

impl View for BridgeError {
    type V = BridgeErrorView;

    open spec fn view(&self) -> BridgeErrorView {
        match self {
            BridgeError::NullRuntime => BridgeErrorView::NullRuntime,
            BridgeError::InvalidBuffer(k) => BridgeErrorView::InvalidBuffer(*k),
            BridgeError::EmptyName(k) => BridgeErrorView::EmptyName(*k),
            BridgeError::InvalidOpId(l) => BridgeErrorView::InvalidOpId(*l),
            BridgeError::OpClosed(l) => BridgeErrorView::OpClosed(*l),
            BridgeError::OpNotRegistered(l, n) => BridgeErrorView::OpNotRegistered(*l, n@),
            BridgeError::NoQueuedResponse(l, n) => BridgeErrorView::NoQueuedResponse(*l, n@),
            BridgeError::NullPromiseHandle => BridgeErrorView::NullPromiseHandle,
            BridgeError::PromiseHandleClosed => BridgeErrorView::PromiseHandleClosed,
            BridgeError::NullModuleHandle => BridgeErrorView::NullModuleHandle,
            BridgeError::ModuleHandleClosed => BridgeErrorView::ModuleHandleClosed,
            BridgeError::ModuleNotFound(s) => BridgeErrorView::ModuleNotFound(s@),
            BridgeError::MissingReferrerMetadata => BridgeErrorView::MissingReferrerMetadata,
            BridgeError::SnapshotTooSmall => BridgeErrorView::SnapshotTooSmall,
            BridgeError::ModuleCompileFailed(s) => BridgeErrorView::ModuleCompileFailed(s@),
            BridgeError::ModuleInstantiationIncomplete(s) => BridgeErrorView::ModuleInstantiationIncomplete(s@),
            BridgeError::ModuleInstantiationFailed(s) => BridgeErrorView::ModuleInstantiationFailed(s@),
            BridgeError::ModuleAlreadyErrored(s) => BridgeErrorView::ModuleAlreadyErrored(s@),
            BridgeError::ModuleEvaluationFailed(s) => BridgeErrorView::ModuleEvaluationFailed(s@),
            BridgeError::StillPending(p) => BridgeErrorView::StillPending(*p),
            BridgeError::MissingOpArguments(l) => BridgeErrorView::MissingOpArguments(*l),
            BridgeError::PromisePending => BridgeErrorView::PromisePending,
            BridgeError::ArgsNotArray(c) => BridgeErrorView::ArgsNotArray(*c),
            BridgeError::MissingArgument(i) => BridgeErrorView::MissingArgument(*i),
            BridgeError::MissingExportName(i) => BridgeErrorView::MissingExportName(*i),
            BridgeError::UnreadableExportName(i) => BridgeErrorView::UnreadableExportName(*i),
        }
    }
}

/// How a lane names itself in messages.
pub open spec fn lane_label(lane: OpLane) -> Seq<char> {
    match lane {
        OpLane::SyncJson => "sync json"@,
        OpLane::SyncBytes => "sync bytes"@,
        OpLane::AsyncJson => "async json"@,
        OpLane::AsyncBytes => "async bytes"@,
    }
}

/// The script-facing function through which a lane is called.
pub open spec fn lane_function(lane: OpLane) -> Seq<char> {
    match lane {
        OpLane::SyncJson => "MoonBit.opSync"@,
        OpLane::SyncBytes => "MoonBit.opSyncBytes"@,
        OpLane::AsyncJson => "MoonBit.opAsync"@,
        OpLane::AsyncBytes => "MoonBit.opAsyncBytes"@,
    }
}

/// How a call with JSON arguments names itself in messages.
pub open spec fn args_caller_label(caller: ArgsCaller) -> Seq<char> {
    match caller {
        ArgsCaller::CallGlobalJson => "call_global_json"@,
        ArgsCaller::CallExportJson => "call_export_json"@,
    }
}

/// How a buffer kind names itself in messages.
pub open spec fn buffer_label(kind: BufferKind) -> Seq<char> {
    match kind {
        BufferKind::Snapshot => "snapshot"@,
        BufferKind::Source => "source"@,
        BufferKind::ModuleSpecifier => "module specifier"@,
        BufferKind::ModuleSource => "module source"@,
        BufferKind::OpName => "op name"@,
        BufferKind::PayloadJson => "payload json"@,
        BufferKind::PayloadBytes => "payload bytes"@,
        BufferKind::ResultJson => "result json"@,
        BufferKind::ResultBytes => "result bytes"@,
        BufferKind::RejectionMessage => "rejection message"@,
        BufferKind::RejectionJson => "rejection json"@,
        BufferKind::GlobalName => "global name"@,
        BufferKind::Json => "json"@,
        BufferKind::Bytes => "bytes"@,
        BufferKind::ArgsJson => "args json"@,
        BufferKind::ExportName => "export name"@,
        BufferKind::ResourceName => "resource name"@,
    }
}

/// How an awaited promise is named in messages (empty for a script's result).
pub open spec fn awaited_label(what: AwaitedPromise) -> Seq<char> {
    match what {
        AwaitedPromise::ScriptResult => ""@,
        AwaitedPromise::FunctionResult => "function result "@,
        AwaitedPromise::ModuleEvaluation => "module evaluation "@,
        AwaitedPromise::DynamicImportEvaluation => "dynamic import module evaluation "@,
    }
}

/// How a name kind names itself in messages.
pub open spec fn name_label(kind: NameKind) -> Seq<char> {
    match kind {
        NameKind::Op => "op name"@,
        NameKind::Global => "global name"@,
        NameKind::ModuleSpecifier => "module specifier"@,
        NameKind::Export => "export name"@,
        NameKind::Resource => "resource name"@,
    }
}

/// The message the embedder receives for an error.
pub open spec fn error_text(e: BridgeErrorView) -> Seq<char> {
    match e {
        BridgeErrorView::NullRuntime => "runtime handle is null"@,
        BridgeErrorView::InvalidBuffer(k) => buffer_label(k) + " buffer is invalid"@,
        BridgeErrorView::EmptyName(k) => name_label(k) + " must not be empty"@,
        BridgeErrorView::InvalidOpId(l) => lane_label(l) + " op id is invalid"@,
        BridgeErrorView::OpClosed(l) => lane_label(l) + " op is closed"@,
        BridgeErrorView::OpNotRegistered(l, n) => lane_label(l) + " op is not registered: "@ + n,
        BridgeErrorView::NoQueuedResponse(l, n) => lane_label(l) + " op has no queued response: "@
            + n,
        BridgeErrorView::NullPromiseHandle => "promise handle is null"@,
        BridgeErrorView::PromiseHandleClosed => "promise handle is closed"@,
        BridgeErrorView::NullModuleHandle => "module handle is null"@,
        BridgeErrorView::ModuleHandleClosed => "module handle is closed"@,
        BridgeErrorView::ModuleNotFound(s) => "module not found: "@ + s,
        BridgeErrorView::MissingReferrerMetadata => "missing referrer metadata for module resolution"@,
        BridgeErrorView::SnapshotTooSmall => "snapshot buffer is too small"@,
        BridgeErrorView::ModuleCompileFailed(s) => "failed to compile module: "@ + s,
        BridgeErrorView::ModuleInstantiationIncomplete(s) => "module instantiation did not complete: "@
            + s,
        BridgeErrorView::ModuleInstantiationFailed(s) => "failed to instantiate module: "@ + s,
        BridgeErrorView::ModuleAlreadyErrored(s) => "module is already errored: "@ + s,
        BridgeErrorView::ModuleEvaluationFailed(s) => "failed to evaluate module: "@ + s,
        BridgeErrorView::StillPending(p) => awaited_label(p)
            + "promise is still pending after 1024 microtask checkpoints"@,
        BridgeErrorView::MissingOpArguments(l) => lane_function(l)
            + "(name, payload) requires 2 arguments"@,
        BridgeErrorView::PromisePending => "promise is still pending"@,
        BridgeErrorView::ArgsNotArray(c) => args_caller_label(c)
            + " expects args_json to decode to an array"@,
        BridgeErrorView::MissingArgument(i) => "missing argument at index "@ + decimal(i as nat),
        BridgeErrorView::MissingExportName(i) => "missing export name at index "@ + decimal(
            i as nat,
        ),
        BridgeErrorView::UnreadableExportName(i) => "failed to stringify export name at index "@
            + decimal(i as nat),
    }
}

impl OpLane {
    /// The lane's name in messages.
    pub fn label(&self) -> (r: &'static str)
        ensures
            r@ == lane_label(*self),
    {
        match self {
            OpLane::SyncJson => "sync json",
            OpLane::SyncBytes => "sync bytes",
            OpLane::AsyncJson => "async json",
            OpLane::AsyncBytes => "async bytes",
        }
    }

    /// The script-facing function of the lane.
    pub fn function_name(&self) -> (r: &'static str)
        ensures
            r@ == lane_function(*self),
    {
        match self {
            OpLane::SyncJson => "MoonBit.opSync",
            OpLane::SyncBytes => "MoonBit.opSyncBytes",
            OpLane::AsyncJson => "MoonBit.opAsync",
            OpLane::AsyncBytes => "MoonBit.opAsyncBytes",
        }
    }
}

impl BufferKind {
    /// The buffer's name in messages.
    pub fn label(&self) -> (r: &'static str)
        ensures
            r@ == buffer_label(*self),
    {
        match self {
            BufferKind::Snapshot => "snapshot",
            BufferKind::Source => "source",
            BufferKind::ModuleSpecifier => "module specifier",
            BufferKind::ModuleSource => "module source",
            BufferKind::OpName => "op name",
            BufferKind::PayloadJson => "payload json",
            BufferKind::PayloadBytes => "payload bytes",
            BufferKind::ResultJson => "result json",
            BufferKind::ResultBytes => "result bytes",
            BufferKind::RejectionMessage => "rejection message",
            BufferKind::RejectionJson => "rejection json",
            BufferKind::GlobalName => "global name",
            BufferKind::Json => "json",
            BufferKind::Bytes => "bytes",
            BufferKind::ArgsJson => "args json",
            BufferKind::ExportName => "export name",
            BufferKind::ResourceName => "resource name",
        }
    }
}

impl AwaitedPromise {
    /// The promise's name in messages.
    pub fn label(&self) -> (r: &'static str)
        ensures
            r@ == awaited_label(*self),
    {
        match self {
            AwaitedPromise::ScriptResult => "",
            AwaitedPromise::FunctionResult => "function result ",
            AwaitedPromise::ModuleEvaluation => "module evaluation ",
            AwaitedPromise::DynamicImportEvaluation => "dynamic import module evaluation ",
        }
    }
}

impl ArgsCaller {
    /// The call's name in messages.
    pub fn label(&self) -> (r: &'static str)
        ensures
            r@ == args_caller_label(*self),
    {
        match self {
            ArgsCaller::CallGlobalJson => "call_global_json",
            ArgsCaller::CallExportJson => "call_export_json",
        }
    }
}

impl NameKind {
    /// The name kind's name in messages.
    pub fn label(&self) -> (r: &'static str)
        ensures
            r@ == name_label(*self),
    {
        match self {
            NameKind::Op => "op name",
            NameKind::Global => "global name",
            NameKind::ModuleSpecifier => "module specifier",
            NameKind::Export => "export name",
            NameKind::Resource => "resource name",
        }
    }
}

/// `first` followed by `second`.
fn concat2(first: &str, second: &str) -> (r: String)
    ensures
        r@ == first@ + second@,
{
    let mut s = String::from_str(first);
    s.append(second);
    s
}

/// `first`, then `second`, then `third`.
fn concat3(first: &str, second: &str, third: &str) -> (r: String)
    ensures
        r@ == first@ + second@ + third@,
{
    let mut s = String::from_str(first);
    s.append(second);
    s.append(third);
    s
}

/// `text` followed by the decimal notation of `index`.
fn with_index(text: &str, index: u32) -> (r: String)
    ensures
        r@ == text@ + decimal(index as nat),
{
    let mut cs = chars_of(text);
    let digits = decimal_chars(index as usize);
    extend_chars(&mut cs, digits.as_slice());
    string_from_chars(cs.as_slice())
}

impl BridgeError {
    /// The message the embedder receives for this error.
    pub fn message(&self) -> (r: String)
        ensures
            r@ == error_text(self@),
    {
        match self {
            BridgeError::NullRuntime => String::from_str("runtime handle is null"),
            BridgeError::InvalidBuffer(k) => concat2(k.label(), " buffer is invalid"),
            BridgeError::EmptyName(k) => concat2(k.label(), " must not be empty"),
            BridgeError::InvalidOpId(l) => concat2(l.label(), " op id is invalid"),
            BridgeError::OpClosed(l) => concat2(l.label(), " op is closed"),
            BridgeError::OpNotRegistered(l, n) => concat3(
                l.label(),
                " op is not registered: ",
                n.as_str(),
            ),
            BridgeError::NoQueuedResponse(l, n) => concat3(
                l.label(),
                " op has no queued response: ",
                n.as_str(),
            ),
            BridgeError::NullPromiseHandle => String::from_str("promise handle is null"),
            BridgeError::PromiseHandleClosed => String::from_str("promise handle is closed"),
            BridgeError::NullModuleHandle => String::from_str("module handle is null"),
            BridgeError::ModuleHandleClosed => String::from_str("module handle is closed"),
            BridgeError::ModuleNotFound(s) => concat2("module not found: ", s.as_str()),
            BridgeError::MissingReferrerMetadata => String::from_str(
                "missing referrer metadata for module resolution",
            ),
            BridgeError::SnapshotTooSmall => String::from_str("snapshot buffer is too small"),
            BridgeError::ModuleCompileFailed(s) => concat2("failed to compile module: ", s.as_str()),
            BridgeError::ModuleInstantiationIncomplete(s) => concat2(
                "module instantiation did not complete: ",
                s.as_str(),
            ),
            BridgeError::ModuleInstantiationFailed(s) => concat2(
                "failed to instantiate module: ",
                s.as_str(),
            ),
            BridgeError::ModuleAlreadyErrored(s) => concat2("module is already errored: ", s.as_str()),
            BridgeError::ModuleEvaluationFailed(s) => concat2("failed to evaluate module: ", s.as_str()),
            BridgeError::StillPending(p) => concat2(
                p.label(),
                "promise is still pending after 1024 microtask checkpoints",
            ),
            BridgeError::MissingOpArguments(l) => concat2(
                l.function_name(),
                "(name, payload) requires 2 arguments",
            ),
            BridgeError::PromisePending => String::from_str("promise is still pending"),
            BridgeError::ArgsNotArray(c) => concat2(
                c.label(),
                " expects args_json to decode to an array",
            ),
            BridgeError::MissingArgument(i) => with_index("missing argument at index ", *i),
            BridgeError::MissingExportName(i) => with_index("missing export name at index ", *i),
            BridgeError::UnreadableExportName(i) => with_index(
                "failed to stringify export name at index ",
                *i,
            ),
        }
    }
}

} // verus!
