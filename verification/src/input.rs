//! Checks on what the embedder hands to the bridge: runtime handles, byte
//! buffers given as pointer and length, names, and snapshot blobs.
use vstd::prelude::*;
use crate::errors::{BridgeError, BridgeErrorView, BufferKind, NameKind, OpLane};

verus! {

/// Refuses the null runtime handle.
pub fn check_runtime_handle(handle: u64) -> (r: Result<(), BridgeError>)
    ensures
        handle == 0 ==> (r matches Err(e) && e@ == BridgeErrorView::NullRuntime),
        handle != 0 ==> r is Ok,
{
    if handle == 0 {
        Err(BridgeError::NullRuntime)
    } else {
        Ok(())
    }
}

/// Checks a buffer given as a pointer (`is_null` tells whether it is null)
/// and a signed length, and returns the length.
pub fn check_buffer(is_null: bool, len: i32, kind: BufferKind) -> (r: Result<usize, BridgeError>)
    ensures
        is_null || len < 0 ==> (r matches Err(e) && e@ == BridgeErrorView::InvalidBuffer(kind)),
        !is_null && len >= 0 ==> r == Ok::<usize, BridgeError>(len as usize),
{
    if is_null || len < 0 {
        Err(BridgeError::InvalidBuffer(kind))
    } else {
        Ok(len as usize)
    }
}

/// Refuses an empty name.
pub fn check_name(name: String, kind: NameKind) -> (r: Result<String, BridgeError>)
    ensures
        name@.len() == 0 ==> (r matches Err(e) && e@ == BridgeErrorView::EmptyName(kind)),
        name@.len() != 0 ==> (r matches Ok(n) && n == name),
{
    if name.as_str().is_empty() {
        Err(BridgeError::EmptyName(kind))
    } else {
        Ok(name)
    }
}

/// Refuses a call of a lane's script-facing function with fewer than the two
/// arguments (name and payload) it takes.
pub fn check_op_argument_count(lane: OpLane, count: i32) -> (r: Result<(), BridgeError>)
    ensures
        count < 2 ==> (r matches Err(e) && e@ == BridgeErrorView::MissingOpArguments(lane)),
        count >= 2 ==> r is Ok,
{
    if count < 2 {
        Err(BridgeError::MissingOpArguments(lane))
    } else {
        Ok(())
    }
}

/// The smallest snapshot blob that is worth handing to V8.
pub const MIN_SNAPSHOT_LEN: usize = 64;

/// Refuses a snapshot blob shorter than `MIN_SNAPSHOT_LEN` bytes.
pub fn check_snapshot_len(len: usize) -> (r: Result<(), BridgeError>)
    ensures
        len < MIN_SNAPSHOT_LEN ==> (r matches Err(e) && e@ == BridgeErrorView::SnapshotTooSmall),
        len >= MIN_SNAPSHOT_LEN ==> r is Ok,
{
    if len < MIN_SNAPSHOT_LEN {
        Err(BridgeError::SnapshotTooSmall)
    } else {
        Ok(())
    }
}

} // verus!
