//! The holder of the one snapshot that is current.
//!
//! The holder is a plain value. Reading borrows it shared, replacing borrows it
//! exclusively, so a reader sees the snapshot from before a replacement or the
//! one from after it, whole. Whoever shares the holder between tasks puts it
//! behind a lock and gets these borrows from the lock.

use crate::database::Snapshot;
use crate::resolver::resolution;
use vstd::prelude::*;

verus! {

/// Holds the snapshot that requests are answered from.
pub struct AppState {
    pub database: Snapshot,
}

/// One access to the holder.
pub enum Access {
    Read,
    Replace(Snapshot),
}

impl AppState {
    /// The holder after `new` has replaced what it held.
    pub open spec fn replaced(self, new: Snapshot) -> AppState {
        AppState { database: new }
    }

    /// The holder after the accesses of `history`, the first one first.
    pub open spec fn after(self, history: Seq<Access>) -> AppState
        decreases history.len(),
    {
        if history.len() == 0 {
            self
        } else {
            let before = self.after(history.drop_last());
            match history.last() {
                Access::Read => before,
                Access::Replace(new) => before.replaced(new),
            }
        }
    }

    /// The snapshot that the last replacement in `history` installed, or the one
    /// that the holder started with.
    pub open spec fn latest(self, history: Seq<Access>) -> Snapshot
        decreases history.len(),
    {
        if history.len() == 0 {
            self.database
        } else {
            match history.last() {
                Access::Read => self.latest(history.drop_last()),
                Access::Replace(new) => new,
            }
        }
    }

    /// A holder of `database`.
    pub fn new(database: Snapshot) -> (state: AppState)
        ensures
            state.database == database,
    {
        AppState { database }
    }

    /// The current snapshot. The holder is left as it is.
    pub fn read(&self) -> (snapshot: &Snapshot)
        ensures
            *snapshot == self.database,
    {
        &self.database
    }

    /// Installs `new` as the current snapshot, in place of the previous one.
    pub fn replace(&mut self, new: Snapshot)
        ensures
            *final(self) == old(self).replaced(new),
    {
        self.database = new;
    }
}

/// Whether the accesses of `history` from index `from` up to `to` are all reads.
pub open spec fn only_reads(history: Seq<Access>, from: int, to: int) -> bool {
    forall|i: int| from <= i < to ==> #[trigger] history[i] is Read
}

/// A read observes the snapshot of the latest replacement before it, or the
/// initial one: never anything between two snapshots.
pub proof fn lemma_read_observes_latest_replace(state: AppState, history: Seq<Access>)
    ensures
        state.after(history).database == state.latest(history),
    decreases history.len(),
{
    if history.len() > 0 {
        lemma_read_observes_latest_replace(state, history.drop_last());
    }
}

/// Reads leave the holder as it is: after any number of reads it holds what it held.
pub proof fn lemma_reads_leave_state(state: AppState, history: Seq<Access>)
    requires
        only_reads(history, 0, history.len() as int),
    ensures
        state.after(history) == state,
    decreases history.len(),
{
    if history.len() > 0 {
        let shorter = history.drop_last();
        assert(history[history.len() - 1] is Read);
        assert forall|i: int| 0 <= i < shorter.len() implies #[trigger] shorter[i] is Read by {
            assert(history[i] is Read);
        }
        lemma_reads_leave_state(state, shorter);
    }
}

/// Two reads with no replacement between them observe the same snapshot, and
/// so every text resolves against both to the same.
pub proof fn lemma_reads_between_replaces_agree(
    state: AppState,
    history: Seq<Access>,
    first: int,
    second: int,
)
    requires
        0 <= first <= second <= history.len(),
        only_reads(history, first, second),
    ensures
        state.after(history.subrange(0, second)).database == state.after(
            history.subrange(0, first),
        ).database,
        forall|text: Seq<u8>|
            #[trigger] resolution(text, state.after(history.subrange(0, second)).database@)
                == resolution(text, state.after(history.subrange(0, first)).database@),
    decreases second - first,
{
    if first < second {
        let longer = history.subrange(0, second);
        assert(longer.drop_last() =~= history.subrange(0, second - 1));
        assert(longer.last() == history[second - 1]);
        assert(history[second - 1] is Read);
        lemma_reads_between_replaces_agree(state, history, first, second - 1);
    }
}

/// Around a single replacement every read observes the snapshot from before it
/// or the one that it installed.
pub proof fn lemma_single_replace_is_atomic(
    state: AppState,
    history: Seq<Access>,
    at: int,
    new: Snapshot,
    read: int,
)
    requires
        0 <= at < history.len(),
        history[at] == Access::Replace(new),
        only_reads(history, 0, at),
        only_reads(history, at + 1, history.len() as int),
        0 <= read <= history.len(),
    ensures
        state.after(history.subrange(0, read)).database == if read <= at {
            state.database
        } else {
            new
        },
{
    if read <= at {
        lemma_reads_between_replaces_agree(state, history, 0, read);
        assert(history.subrange(0, 0) =~= Seq::<Access>::empty());
    } else {
        lemma_reads_between_replaces_agree(state, history, at + 1, read);
        let through = history.subrange(0, at + 1);
        assert(through.last() == history[at]);
    }
}

} // verus!
