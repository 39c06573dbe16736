use v8_bridge::errors::{ArgsCaller, AwaitedPromise, BridgeError, BufferKind, NameKind, OpLane};
use v8_bridge::input::{
    check_buffer, check_name, check_op_argument_count, check_runtime_handle, check_snapshot_len,
    MIN_SNAPSHOT_LEN,
};

#[test]
fn fixed_messages() {
    assert_eq!(BridgeError::NullRuntime.message(), "runtime handle is null");
    assert_eq!(BridgeError::NullPromiseHandle.message(), "promise handle is null");
    assert_eq!(BridgeError::PromiseHandleClosed.message(), "promise handle is closed");
    assert_eq!(BridgeError::NullModuleHandle.message(), "module handle is null");
    assert_eq!(BridgeError::ModuleHandleClosed.message(), "module handle is closed");
    assert_eq!(
        BridgeError::MissingReferrerMetadata.message(),
        "missing referrer metadata for module resolution"
    );
    assert_eq!(BridgeError::SnapshotTooSmall.message(), "snapshot buffer is too small");
    assert_eq!(BridgeError::PromisePending.message(), "promise is still pending");
}

#[test]
fn buffer_messages() {
    let cases = [
        (BufferKind::Snapshot, "snapshot buffer is invalid"),
        (BufferKind::Source, "source buffer is invalid"),
        (BufferKind::ModuleSpecifier, "module specifier buffer is invalid"),
        (BufferKind::ModuleSource, "module source buffer is invalid"),
        (BufferKind::OpName, "op name buffer is invalid"),
        (BufferKind::PayloadJson, "payload json buffer is invalid"),
        (BufferKind::PayloadBytes, "payload bytes buffer is invalid"),
        (BufferKind::ResultJson, "result json buffer is invalid"),
        (BufferKind::ResultBytes, "result bytes buffer is invalid"),
        (BufferKind::RejectionMessage, "rejection message buffer is invalid"),
        (BufferKind::RejectionJson, "rejection json buffer is invalid"),
        (BufferKind::GlobalName, "global name buffer is invalid"),
        (BufferKind::Json, "json buffer is invalid"),
        (BufferKind::Bytes, "bytes buffer is invalid"),
        (BufferKind::ArgsJson, "args json buffer is invalid"),
        (BufferKind::ExportName, "export name buffer is invalid"),
        (BufferKind::ResourceName, "resource name buffer is invalid"),
    ];
    for (kind, text) in cases {
        assert_eq!(BridgeError::InvalidBuffer(kind).message(), text);
    }
}

#[test]
fn name_messages() {
    let cases = [
        (NameKind::Op, "op name must not be empty"),
        (NameKind::Global, "global name must not be empty"),
        (NameKind::ModuleSpecifier, "module specifier must not be empty"),
        (NameKind::Export, "export name must not be empty"),
        (NameKind::Resource, "resource name must not be empty"),
    ];
    for (kind, text) in cases {
        assert_eq!(BridgeError::EmptyName(kind).message(), text);
    }
}

#[test]
fn op_messages() {
    assert_eq!(BridgeError::InvalidOpId(OpLane::SyncJson).message(), "sync json op id is invalid");
    assert_eq!(BridgeError::OpClosed(OpLane::AsyncBytes).message(), "async bytes op is closed");
    assert_eq!(
        BridgeError::OpNotRegistered(OpLane::AsyncJson, "f".to_string()).message(),
        "async json op is not registered: f"
    );
    assert_eq!(
        BridgeError::NoQueuedResponse(OpLane::SyncBytes, "g".to_string()).message(),
        "sync bytes op has no queued response: g"
    );
    assert_eq!(
        BridgeError::ModuleNotFound("file:///x.mjs".to_string()).message(),
        "module not found: file:///x.mjs"
    );
}

#[test]
fn runtime_handle_check() {
    assert_eq!(check_runtime_handle(0).err().unwrap().message(), "runtime handle is null");
    assert!(check_runtime_handle(1).is_ok());
}

#[test]
fn buffer_check() {
    assert_eq!(check_buffer(false, 5, BufferKind::Source).ok(), Some(5));
    assert_eq!(check_buffer(false, 0, BufferKind::Source).ok(), Some(0));
    assert_eq!(
        check_buffer(true, 5, BufferKind::Source).err().unwrap().message(),
        "source buffer is invalid"
    );
    assert_eq!(
        check_buffer(false, -1, BufferKind::Json).err().unwrap().message(),
        "json buffer is invalid"
    );
}

#[test]
fn name_check() {
    assert_eq!(check_name("x".to_string(), NameKind::Op).ok().unwrap(), "x");
    assert_eq!(
        check_name(String::new(), NameKind::Global).err().unwrap().message(),
        "global name must not be empty"
    );
}

#[test]
fn snapshot_length_check() {
    assert_eq!(MIN_SNAPSHOT_LEN, 64);
    assert!(check_snapshot_len(64).is_ok());
    assert_eq!(check_snapshot_len(63).err().unwrap().message(), "snapshot buffer is too small");
    assert!(check_snapshot_len(0).is_err());
}

#[test]
fn module_messages() {
    let spec = || "file:///m.mjs".to_string();
    assert_eq!(
        BridgeError::ModuleCompileFailed(spec()).message(),
        "failed to compile module: file:///m.mjs"
    );
    assert_eq!(
        BridgeError::ModuleInstantiationIncomplete(spec()).message(),
        "module instantiation did not complete: file:///m.mjs"
    );
    assert_eq!(
        BridgeError::ModuleInstantiationFailed(spec()).message(),
        "failed to instantiate module: file:///m.mjs"
    );
    assert_eq!(
        BridgeError::ModuleAlreadyErrored(spec()).message(),
        "module is already errored: file:///m.mjs"
    );
    assert_eq!(
        BridgeError::ModuleEvaluationFailed(spec()).message(),
        "failed to evaluate module: file:///m.mjs"
    );
}

#[test]
fn still_pending_messages() {
    assert_eq!(
        BridgeError::StillPending(AwaitedPromise::ScriptResult).message(),
        "promise is still pending after 1024 microtask checkpoints"
    );
    assert_eq!(
        BridgeError::StillPending(AwaitedPromise::FunctionResult).message(),
        "function result promise is still pending after 1024 microtask checkpoints"
    );
    assert_eq!(
        BridgeError::StillPending(AwaitedPromise::ModuleEvaluation).message(),
        "module evaluation promise is still pending after 1024 microtask checkpoints"
    );
    assert_eq!(
        BridgeError::StillPending(AwaitedPromise::DynamicImportEvaluation).message(),
        "dynamic import module evaluation promise is still pending after 1024 microtask checkpoints"
    );
}

#[test]
fn op_argument_count_check() {
    assert!(check_op_argument_count(OpLane::SyncJson, 2).is_ok());
    assert!(check_op_argument_count(OpLane::AsyncBytes, 3).is_ok());
    let cases = [
        (OpLane::SyncJson, "MoonBit.opSync(name, payload) requires 2 arguments"),
        (OpLane::SyncBytes, "MoonBit.opSyncBytes(name, payload) requires 2 arguments"),
        (OpLane::AsyncJson, "MoonBit.opAsync(name, payload) requires 2 arguments"),
        (OpLane::AsyncBytes, "MoonBit.opAsyncBytes(name, payload) requires 2 arguments"),
    ];
    for (lane, text) in cases {
        assert_eq!(check_op_argument_count(lane, 1).err().unwrap().message(), text);
    }
    assert!(check_op_argument_count(OpLane::SyncJson, 0).is_err());
}

#[test]
fn argument_messages() {
    assert_eq!(
        BridgeError::ArgsNotArray(ArgsCaller::CallGlobalJson).message(),
        "call_global_json expects args_json to decode to an array"
    );
    assert_eq!(
        BridgeError::ArgsNotArray(ArgsCaller::CallExportJson).message(),
        "call_export_json expects args_json to decode to an array"
    );
    assert_eq!(BridgeError::MissingArgument(0).message(), "missing argument at index 0");
    assert_eq!(BridgeError::MissingArgument(42).message(), "missing argument at index 42");
    assert_eq!(
        BridgeError::MissingExportName(7).message(),
        "missing export name at index 7"
    );
    assert_eq!(
        BridgeError::UnreadableExportName(u32::MAX).message(),
        "failed to stringify export name at index 4294967295"
    );
}
