//! Handle tables of a runtime: the numeric handles under which evaluated
//! modules and promises are kept for the embedder, and the evaluation promise
//! of each module whose top-level await is still running.
use vstd::prelude::*;
use std::collections::HashMap;
use crate::errors::{BridgeError, BridgeErrorView};

verus! {

broadcast use vstd::std_specs::hash::group_hash_axioms;

/// The handle given to the next stored value, and the counter after it: the
/// counter's value, then one more, wrapping from `u64::MAX` back to 1.
pub open spec fn spec_next_handle(counter: u64) -> (u64, u64) {
    (counter, if counter == u64::MAX { 1 } else { (counter + 1) as u64 })
}

/// The abstract state of a handle table: the stored values, the next handle,
/// and whether the counter has ever wrapped around.
#[verifier::ext_equal]
pub struct HandleTableState<T> {
    pub entries: Map<u64, T>,
    pub next: u64,
    pub wrapped: bool,
}

/// The next handle is never 0, and until the counter wraps every stored
/// handle is nonzero and below it.
pub open spec fn handle_table_wf<T>(s: HandleTableState<T>) -> bool {
    &&& s.next != 0
    &&& !s.wrapped ==> forall|k: u64| #[trigger] s.entries.contains_key(k) ==> 0 < k < s.next
}

/// The state after storing `value`, and its handle.
pub open spec fn handle_store<T>(s: HandleTableState<T>, value: T) -> (HandleTableState<T>, u64) {
    let (handle, next) = spec_next_handle(s.next);
    (
        HandleTableState {
            entries: s.entries.insert(handle, value),
            next,
            wrapped: s.wrapped || s.next == u64::MAX,
        },
        handle,
    )
}

/// The state after dropping `handle`.
pub open spec fn handle_remove<T>(s: HandleTableState<T>, handle: u64) -> HandleTableState<T> {
    HandleTableState { entries: s.entries.remove(handle), ..s }
}

/// Values kept under nonzero numeric handles, handed out in increasing order.
pub struct HandleTable<T> {
    entries: HashMap<u64, T>,
    next: u64,
    wrapped: Ghost<bool>,
}

impl<T> View for HandleTable<T> {
    type V = HandleTableState<T>;

    closed spec fn view(&self) -> HandleTableState<T> {
        HandleTableState { entries: self.entries@, next: self.next, wrapped: self.wrapped@ }
    }
}

impl<T> HandleTable<T> {
    /// See `handle_table_wf`.
    pub open spec fn wf(&self) -> bool {
        handle_table_wf(self@)
    }

    /// An empty table whose first handle is 1.
    pub fn new() -> (r: Self)
        ensures
            r.wf(),
            r@.entries == Map::<u64, T>::empty(),
            r@.next == 1,
            !r@.wrapped,
    {
        HandleTable { entries: HashMap::new(), next: 1, wrapped: Ghost(false) }
    }

    /// Stores `value` and returns its handle.
    pub fn store(&mut self, value: T) -> (handle: u64)
        requires
            old(self).wf(),
        ensures
            final(self).wf(),
            (final(self)@, handle) == handle_store(old(self)@, value),
            !old(self)@.wrapped ==> !old(self)@.entries.contains_key(handle),
    {
        let ghost before = self@;
        let handle = self.next;
        proof {
            self.wrapped@ = self.wrapped@ || self.next == u64::MAX;
        }
        self.next = match self.next.checked_add(1) {
            Some(next) => next,
            None => 1,
        };
        self.entries.insert(handle, value);
        assert(self@ =~= handle_store(before, value).0);
        handle
    }

    /// The value kept under `handle`.
    pub fn get(&self, handle: u64) -> (r: Option<&T>)
        ensures
            match r {
                Some(v) => self@.entries.contains_key(handle) && self@.entries[handle] == *v,
                None => !self@.entries.contains_key(handle),
            },
    {
        self.entries.get(&handle)
    }

    /// Drops `handle`, returning the value it held.
    pub fn remove(&mut self, handle: u64) -> (r: Option<T>)
        requires
            old(self).wf(),
        ensures
            final(self).wf(),
            final(self)@ == handle_remove(old(self)@, handle),
            match r {
                Some(v) => old(self)@.entries.contains_key(handle) && old(self)@.entries[handle]
                    == v,
                None => !old(self)@.entries.contains_key(handle),
            },
    {
        let ghost before = self@;
        let r = self.entries.remove(&handle);
        assert(self@ =~= handle_remove(before, handle));
        r
    }
}

/// Stored values can be read back under their handle, and storing leaves the
/// other handles alone; handles are never 0, and until the counter wraps a new
/// handle is one that no stored value holds.
pub proof fn law_handle_store_then_get<T>(s: HandleTableState<T>, value: T, other: u64)
    requires
        handle_table_wf(s),
    ensures
        ({
            let (after, handle) = handle_store(s, value);
            &&& handle != 0
            &&& handle_table_wf(after)
            &&& !s.wrapped ==> !s.entries.contains_key(handle)
            &&& after.entries.contains_key(handle)
            &&& after.entries[handle] == value
            &&& other != handle ==> (after.entries.contains_key(other) == s.entries.contains_key(
                other,
            ) && after.entries[other] == s.entries[other])
        }),
{
}

/// A removed handle no longer holds a value; the other handles keep theirs,
/// and the next handle to be given out does not change.
pub proof fn law_handle_removed_is_gone<T>(s: HandleTableState<T>, handle: u64, other: u64)
    ensures
        !handle_remove(s, handle).entries.contains_key(handle),
        handle_remove(s, handle).next == s.next,
        other != handle ==> (handle_remove(s, handle).entries.contains_key(other)
            == s.entries.contains_key(other) && handle_remove(s, handle).entries[other]
            == s.entries[other]),
{
}

/// The handle tables of one runtime: `M` is the module type, `P` the promise
/// type.
pub struct RuntimeHandles<M, P> {
    pub modules: HandleTable<M>,
    pub promises: HandleTable<P>,
    pub evaluation_promises: HashMap<u64, u64>,
}

impl<M, P> RuntimeHandles<M, P> {
    /// Both tables are well formed.
    pub open spec fn wf(&self) -> bool {
        self.modules.wf() && self.promises.wf()
    }

    /// For each module handle whose evaluation is still running, the handle of
    /// its evaluation promise.
    pub open spec fn evaluation_promises(&self) -> Map<u64, u64> {
        self.evaluation_promises@
    }

    /// Empty tables.
    pub fn new() -> (r: Self)
        ensures
            r.wf(),
            r.modules@.entries == Map::<u64, M>::empty(),
            r.promises@.entries == Map::<u64, P>::empty(),
            r.modules@.next == 1,
            r.promises@.next == 1,
            !r.modules@.wrapped,
            !r.promises@.wrapped,
            r.evaluation_promises() == Map::<u64, u64>::empty(),
    {
        RuntimeHandles {
            modules: HandleTable::new(),
            promises: HandleTable::new(),
            evaluation_promises: HashMap::new(),
        }
    }

    /// Keeps a module whose evaluation has not finished together with its
    /// evaluation promise; returns the module's handle.
    pub fn store_pending_module(&mut self, module: M, evaluation: P) -> (handle: u64)
        requires
            old(self).wf(),
        ensures
            final(self).wf(),
            ({
                let (promises, promise_handle) = handle_store(old(self).promises@, evaluation);
                let (modules, module_handle) = handle_store(old(self).modules@, module);
                &&& final(self).promises@ == promises
                &&& final(self).modules@ == modules
                &&& handle == module_handle
                &&& final(self).evaluation_promises() == old(self).evaluation_promises().insert(
                    module_handle,
                    promise_handle,
                )
                &&& !old(self).modules@.wrapped ==> !old(self).modules@.entries.contains_key(
                    module_handle,
                )
                &&& !old(self).promises@.wrapped ==> !old(self).promises@.entries.contains_key(
                    promise_handle,
                )
            }),
    {
        let promise_handle = self.promises.store(evaluation);
        let module_handle = self.modules.store(module);
        self.evaluation_promises.insert(module_handle, promise_handle);
        module_handle
    }

    /// The promise kept under `handle`.
    pub fn promise(&self, handle: u64) -> (r: Result<&P, BridgeError>)
        ensures
            handle == 0 ==> (r matches Err(e) && e@ == BridgeErrorView::NullPromiseHandle),
            handle != 0 && !self.promises@.entries.contains_key(handle) ==> (r matches Err(e) && e@
                == BridgeErrorView::PromiseHandleClosed),
            handle != 0 && self.promises@.entries.contains_key(handle) ==> (r matches Ok(v) && *v
                == self.promises@.entries[handle]),
    {
        if handle == 0 {
            return Err(BridgeError::NullPromiseHandle);
        }
        match self.promises.get(handle) {
            Some(p) => Ok(p),
            None => Err(BridgeError::PromiseHandleClosed),
        }
    }

    /// The module kept under `handle`.
    pub fn module(&self, handle: u64) -> (r: Result<&M, BridgeError>)
        ensures
            handle == 0 ==> (r matches Err(e) && e@ == BridgeErrorView::NullModuleHandle),
            handle != 0 && !self.modules@.entries.contains_key(handle) ==> (r matches Err(e) && e@
                == BridgeErrorView::ModuleHandleClosed),
            handle != 0 && self.modules@.entries.contains_key(handle) ==> (r matches Ok(v) && *v
                == self.modules@.entries[handle]),
    {
        if handle == 0 {
            return Err(BridgeError::NullModuleHandle);
        }
        match self.modules.get(handle) {
            Some(m) => Ok(m),
            None => Err(BridgeError::ModuleHandleClosed),
        }
    }

    /// The evaluation promise handle of module `handle`, or 0 when the module
    /// has none.
    pub fn module_evaluation_promise(&self, handle: u64) -> (r: Result<u64, BridgeError>)
        ensures
            handle == 0 ==> (r matches Err(e) && e@ == BridgeErrorView::NullModuleHandle),
            handle != 0 ==> r == Ok::<u64, BridgeError>(
                if self.evaluation_promises().contains_key(handle) {
                    self.evaluation_promises()[handle]
                } else {
                    0
                },
            ),
    {
        if handle == 0 {
            return Err(BridgeError::NullModuleHandle);
        }
        match self.evaluation_promises.get(&handle) {
            Some(p) => Ok(*p),
            None => Ok(0),
        }
    }

    /// Drops promise `handle` (nothing happens for 0).
    pub fn delete_promise(&mut self, handle: u64)
        requires
            old(self).wf(),
        ensures
            final(self).wf(),
            final(self).modules@ == old(self).modules@,
            final(self).evaluation_promises() == old(self).evaluation_promises(),
            final(self).promises@ == (if handle == 0 {
                old(self).promises@
            } else {
                handle_remove(old(self).promises@, handle)
            }),
    {
        if handle != 0 {
            self.promises.remove(handle);
        }
    }

    /// Drops module `handle` and its evaluation promise entry (nothing happens
    /// for 0).
    pub fn delete_module(&mut self, handle: u64)
        requires
            old(self).wf(),
        ensures
            final(self).wf(),
            final(self).promises@ == old(self).promises@,
            final(self).modules@ == (if handle == 0 {
                old(self).modules@
            } else {
                handle_remove(old(self).modules@, handle)
            }),
            final(self).evaluation_promises() == (if handle == 0 {
                old(self).evaluation_promises()
            } else {
                old(self).evaluation_promises().remove(handle)
            }),
    {
        if handle != 0 {
            self.modules.remove(handle);
            self.evaluation_promises.remove(&handle);
        }
    }
}

} // verus!
