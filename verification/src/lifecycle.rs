//! The scope lifecycle adapter: inheritance at creation, idempotent timer
//! start on entry, duration injection at close.

use vstd::prelude::*;

use crate::storage::{applied, name_set, recorded, Storage};
use crate::value::{FieldInput, FieldValue, ValueRepr};

verus! {

/// The per-scope context the host keeps in a scope's storage slot: one
/// value store and one optional start timestamp, in milliseconds of the
/// host's monotonic clock.
#[derive(Debug)]
pub struct ScopeState {
    pub store: Storage,
    pub started_at: Option<u64>,
}

/// The timestamp slot after one entry event: only the first entry writes
/// it; re-entering changes nothing.
pub open spec fn entered(started_at: Option<u64>, now_ms: u64) -> Option<u64> {
    if started_at is Some {
        started_at
    } else {
        Some(now_ms)
    }
}

/// The duration recorded at close: measured from the start marker, or
/// zero where the scope was never entered.
pub open spec fn elapsed_ms(started_at: Option<u64>, now_ms: u64) -> u64 {
    match started_at {
        Some(t) => (now_ms - t) as u64,
        None => 0,
    }
}

/// Entering a scope twice attaches only the first timestamp, and the
/// elapsed time at close is measured from that first entry alone.
pub proof fn lemma_enter_idempotent(first_ms: u64, second_ms: u64, close_ms: u64)
    requires
        first_ms <= close_ms,
    ensures
        entered(entered(None, first_ms), second_ms) == entered(None, first_ms),
        elapsed_ms(entered(entered(None, first_ms), second_ms), close_ms) == close_ms - first_ms,
{
}

/// Closing a scope that was never entered reports zero elapsed time.
pub proof fn lemma_close_without_enter(now_ms: u64)
    ensures
        elapsed_ms(None, now_ms) == 0,
{
}

/// The adapter the host's instrumentation runtime drives. It owns the
/// reserved-name list that root scopes start from; child scopes inherit
/// their parent's store wholesale.
#[derive(Debug)]
pub struct StorageSubscription {
    reserved: Vec<String>,
}

impl StorageSubscription {
    /// The reserved names handed to newly created root scopes.
    pub closed spec fn reserved_set(&self) -> Set<Seq<char>> {
        name_set(self.reserved@)
    }

    /// An adapter whose root scopes refuse writes to the given names.
    pub fn new(reserved: Vec<String>) -> (sub: StorageSubscription)
        ensures
            sub.reserved_set() == name_set(reserved@),
    {
        StorageSubscription { reserved }
    }

    /// Scope creation: the new scope's store is a value copy of the
    /// parent's store at this moment (an empty store for a root scope),
    /// with the creation-time fields applied on top; no timestamp yet.
    /// Later writes to either the parent's or the child's store never
    /// show in the other.
    pub fn on_new_span(&self, parent: Option<&Storage>, fields: &Vec<(String, FieldInput)>) -> (
        scope: ScopeState)
        requires
            match parent {
                Some(p) => p.wf(),
                None => true,
            },
        ensures
            scope.store.wf(),
            scope.started_at is None,
            match parent {
                Some(p) => scope.store.reserved_set() == p.reserved_set()
                    && scope.store.fields() == applied(p.fields(), p.reserved_set(), fields@),
                None => scope.store.reserved_set() == self.reserved_set()
                    && scope.store.fields() == applied(
                    Map::<Seq<char>, ValueRepr>::empty(),
                    self.reserved_set(),
                    fields@,
                ),
            },
    {
        let mut store = match parent {
            Some(p) => p.clone(),
            None => {
                let reserved = self.reserved.clone();
                proof {
                    assert(reserved@ =~= self.reserved@);
                }
                Storage::with_reserved(reserved)
            }
        };
        store.record_batch(fields);
        ScopeState { store, started_at: None }
    }

    /// Later fields for an existing scope: applied to its store through
    /// the same visitor protocol as at creation.
    pub fn on_record(&self, scope: &mut ScopeState, fields: &Vec<(String, FieldInput)>)
        requires
            old(scope).store.wf(),
        ensures
            final(scope).store.wf(),
            final(scope).store.reserved_set() == old(scope).store.reserved_set(),
            final(scope).started_at == old(scope).started_at,
            final(scope).store.fields() == applied(
                old(scope).store.fields(),
                old(scope).store.reserved_set(),
                fields@,
            ),
    {
        scope.store.record_batch(fields);
    }

    /// Scope entry: attach a start timestamp; only the first entry writes
    /// it, so re-entering is a no-op.
    pub fn on_enter(&self, scope: &mut ScopeState, now_ms: u64)
        ensures
            final(scope).store == old(scope).store,
            final(scope).started_at == entered(old(scope).started_at, now_ms),
    {
        if scope.started_at.is_none() {
            scope.started_at = Some(now_ms);
        }
    }

    /// Scope close: the elapsed time since the start marker (zero where
    /// the scope was never entered) is written into the store through the
    /// reserved-name check.
    pub fn on_close(&self, scope: &mut ScopeState, now_ms: u64)
        requires
            old(scope).store.wf(),
            match old(scope).started_at {
                Some(t) => t <= now_ms,
                None => true,
            },
        ensures
            final(scope).store.wf(),
            final(scope).store.reserved_set() == old(scope).store.reserved_set(),
            final(scope).started_at == old(scope).started_at,
            final(scope).store.fields() == recorded(
                old(scope).store.fields(),
                old(scope).store.reserved_set(),
                "elapsed_milliseconds"@,
                ValueRepr::U64(elapsed_ms(old(scope).started_at, now_ms)),
            ),
    {
        let elapsed: u64 = match scope.started_at {
            Some(t) => now_ms - t,
            None => 0,
        };
        scope.store.record_value("elapsed_milliseconds", FieldValue::U64(elapsed));
    }
}

} // verus!
