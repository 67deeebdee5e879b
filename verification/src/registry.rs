//! The register of runs: which run owns a database at the moment.
//!
//! Every run is registered under a number of its own, its token, which
//! stands for the cancellation flag that the run shares with the caller. The
//! register says whose flag is to be signalled; the caller signals it.

use vstd::prelude::*;
use vstd::string::StringExecFns;
use crate::assoc::{assoc, lemma_assoc_at, lemma_assoc_push, lemma_assoc_remove, lemma_assoc_update};

verus! {

/// The run that owns a database.
#[derive(Clone, Debug, PartialEq, Eq)]
pub struct RegistryEntry {
    /// The database.
    pub id: String,
    /// The token of the run.
    pub token: u64,
}

/// What registering a run gives: its token, and the token of the run that
/// owned the database before, whose flag is to be signalled.
#[derive(Clone, Copy, Debug, PartialEq, Eq, Structural)]
pub struct Registered {
    pub token: u64,
    pub superseded: Option<u64>,
}

/// The register of runs.
#[derive(Clone, Debug, PartialEq, Eq)]
pub struct CancellationRegistry {
    /// The owners, no database twice.
    pub entries: Vec<RegistryEntry>,
    /// The token of the next run; every token given out is below it.
    pub next_token: u64,
}

/// The register as a mathematical value.
pub struct RegistryModel {
    /// The token of the owner of each database that has one.
    pub owners: Map<Seq<char>, u64>,
    pub next_token: nat,
}

/// The databases of a list of entries, in order.
pub open spec fn ids(entries: Seq<RegistryEntry>) -> Seq<Seq<char>> {
    Seq::new(entries.len(), |i: int| entries[i].id@)
}

/// The tokens of a list of entries, in order.
pub open spec fn tokens(entries: Seq<RegistryEntry>) -> Seq<u64> {
    Seq::new(entries.len(), |i: int| entries[i].token)
}

impl RegistryModel {
    /// The token of the run that owns `id`, if one does.
    pub open spec fn owner(self, id: Seq<char>) -> Option<u64> {
        if self.owners.contains_key(id) {
            Some(self.owners[id])
        } else {
            None
        }
    }

    /// Whether a further run can be registered.
    pub open spec fn has_token_left(self) -> bool {
        self.next_token < u64::MAX
    }

    /// The register after a new run has taken over `id`.
    pub open spec fn register(self, id: Seq<char>) -> RegistryModel {
        RegistryModel {
            owners: self.owners.insert(id, self.next_token as u64),
            next_token: self.next_token + 1,
        }
    }

    /// Whether every token in the register is below the token of the next
    /// run.
    pub open spec fn tokens_given_out(self) -> bool {
        forall|id: Seq<char>| #[trigger]
            self.owners.contains_key(id) ==> self.owners[id] < self.next_token
    }

    /// The register after the owner of `id` was cancelled.
    pub open spec fn cancel(self, id: Seq<char>) -> RegistryModel {
        RegistryModel { owners: self.owners.remove(id), ..self }
    }

    /// The register after the run with `token` has ended: it leaves the
    /// register if it still owns `id`, and changes nothing if another run has
    /// taken over.
    pub open spec fn unregister(self, id: Seq<char>, token: u64) -> RegistryModel {
        if self.owner(id) == Some(token) {
            RegistryModel { owners: self.owners.remove(id), ..self }
        } else {
            self
        }
    }
}

/// A token is given once: the token of a new run is that of no run in the
/// register, and after the run was registered every token in the register
/// is again below the token of the next run. Cancelling and unregistering
/// keep it so.
pub proof fn law_tokens_are_fresh(registry: RegistryModel, id: Seq<char>, token: u64)
    requires
        registry.tokens_given_out(),
        registry.has_token_left(),
    ensures
        forall|other: Seq<char>| registry.owner(other) != Some(registry.next_token as u64),
        registry.register(id).tokens_given_out(),
        registry.register(id).owner(id) == Some(registry.next_token as u64),
        registry.cancel(id).tokens_given_out(),
        registry.unregister(id, token).tokens_given_out(),
{
    assert forall|other: Seq<char>| registry.owner(other) != Some(
        registry.next_token as u64,
    ) by {
        if registry.owners.contains_key(other) {
            assert(registry.owners[other] < registry.next_token);
        }
    }
}

impl View for CancellationRegistry {
    type V = RegistryModel;

    open spec fn view(&self) -> RegistryModel {
        RegistryModel {
            owners: assoc(ids(self.entries@), tokens(self.entries@)),
            next_token: self.next_token as nat,
        }
    }
}

impl CancellationRegistry {
    /// Whether no database has two owners and every token in the register
    /// was given out by it.
    pub open spec fn wf(&self) -> bool {
        &&& ids(self.entries@).no_duplicates()
        &&& forall|i: int|
            0 <= i < self.entries@.len() ==> (#[trigger] self.entries@[i]).token < self.next_token
    }

    /// In a well-formed register every token is below the token of the next
    /// run.
    pub proof fn law_well_formed_tokens_given_out(&self)
        requires
            self.wf(),
        ensures
            self@.tokens_given_out(),
    {
        assert forall|id: Seq<char>| #[trigger]
            self@.owners.contains_key(id) implies self@.owners[id] < self@.next_token by {
            let i = ids(self.entries@).index_of(id);
            lemma_assoc_at(ids(self.entries@), tokens(self.entries@), i);
            assert(self.entries@[i].token < self.next_token);
        }
    }

    /// A register without runs.
    pub fn new() -> (registry: CancellationRegistry)
        ensures
            registry.wf(),
            registry@.owners == Map::<Seq<char>, u64>::empty(),
            registry@.next_token == 0,
    {
        CancellationRegistry { entries: Vec::new(), next_token: 0 }
    }

    /// The place of the entry of `id`.
    pub fn find(&self, id: &String) -> (place: Option<usize>)
        ensures
            match place {
                Some(i) => i < self.entries@.len() && ids(self.entries@)[i as int] == id@,
                None => !ids(self.entries@).contains(id@),
            },
    {
        let mut i: usize = 0;
        while i < self.entries.len()
            invariant
                i <= self.entries@.len(),
                forall|j: int| 0 <= j < i ==> ids(self.entries@)[j] != id@,
            decreases self.entries@.len() - i,
        {
            if self.entries[i].id == *id {
                return Some(i);
            }
            i = i + 1;
        }
        None
    }

    /// The token of the run that owns `id`, if one does.
    pub fn current(&self, id: &str) -> (token: Option<u64>)
        requires
            self.wf(),
        ensures
            token == self@.owner(id@),
    {
        let key = String::from_str(id);
        match self.find(&key) {
            Some(i) => {
                proof {
                    lemma_assoc_at(ids(self.entries@), tokens(self.entries@), i as int);
                }
                Some(self.entries[i].token)
            },
            None => None,
        }
    }

    /// Registers a new run as the owner of `id` and gives its token,
    /// together with the token of the run that it takes over from. Where all
    /// tokens were given out, no run is registered and nothing changes.
    pub fn register(&mut self, id: &str) -> (registered: Option<Registered>)
        requires
            old(self).wf(),
        ensures
            final(self).wf(),
            match registered {
                Some(registered) => {
                    &&& old(self)@.has_token_left()
                    &&& final(self)@ == old(self)@.register(id@)
                    &&& registered.token == old(self).next_token
                    &&& registered.superseded == old(self)@.owner(id@)
                },
                None => !old(self)@.has_token_left() && *final(self) == *old(self),
            },
    {
        if self.next_token == u64::MAX {
            return None;
        }
        let token = self.next_token;
        let key = String::from_str(id);
        let ghost entries = self.entries@;
        let superseded = match self.find(&key) {
            Some(i) => {
                let previous = self.entries[i].token;
                self.entries[i].token = token;
                proof {
                    lemma_assoc_at(ids(entries), tokens(entries), i as int);
                    lemma_assoc_update(ids(entries), tokens(entries), i as int, token);
                    assert(ids(self.entries@) =~= ids(entries));
                    assert(tokens(self.entries@) =~= tokens(entries).update(i as int, token));
                }
                Some(previous)
            },
            None => {
                self.entries.push(RegistryEntry { id: key, token });
                proof {
                    lemma_assoc_push(ids(entries), tokens(entries), id@, token);
                    assert(ids(self.entries@) =~= ids(entries).push(id@));
                    assert(tokens(self.entries@) =~= tokens(entries).push(token));
                }
                None
            },
        };
        self.next_token = token + 1;
        Some(Registered { token, superseded })
    }

    /// Takes the owner of `id` out of the register and gives its token, so
    /// that its flag can be signalled. Where `id` has no owner, nothing
    /// changes.
    pub fn cancel(&mut self, id: &str) -> (signalled: Option<u64>)
        requires
            old(self).wf(),
        ensures
            final(self).wf(),
            final(self)@ == old(self)@.cancel(id@),
            signalled == old(self)@.owner(id@),
    {
        let key = String::from_str(id);
        let ghost entries = self.entries@;
        match self.find(&key) {
            Some(i) => {
                let entry = self.entries.remove(i);
                proof {
                    lemma_assoc_at(ids(entries), tokens(entries), i as int);
                    lemma_assoc_remove(ids(entries), tokens(entries), i as int);
                    assert(ids(self.entries@) =~= ids(entries).remove(i as int));
                    assert(tokens(self.entries@) =~= tokens(entries).remove(i as int));
                }
                Some(entry.token)
            },
            None => {
                proof {
                    assert(self@.owners =~= old(self)@.owners.remove(id@));
                }
                None
            },
        }
    }

    /// Takes the run with `token` out of the register when it has ended, and
    /// says whether it was there. A run that was taken over from is not
    /// there any more, and the entry of its successor stays.
    pub fn unregister(&mut self, id: &str, token: u64) -> (removed: bool)
        requires
            old(self).wf(),
        ensures
            final(self).wf(),
            final(self)@ == old(self)@.unregister(id@, token),
            removed == (old(self)@.owner(id@) == Some(token)),
    {
        let key = String::from_str(id);
        let ghost entries = self.entries@;
        match self.find(&key) {
            Some(i) => {
                proof {
                    lemma_assoc_at(ids(entries), tokens(entries), i as int);
                }
                if self.entries[i].token == token {
                    self.entries.remove(i);
                    proof {
                        lemma_assoc_remove(ids(entries), tokens(entries), i as int);
                        assert(ids(self.entries@) =~= ids(entries).remove(i as int));
                        assert(tokens(self.entries@) =~= tokens(entries).remove(i as int));
                    }
                    true
                } else {
                    false
                }
            },
            None => false,
        }
    }
}

} // verus!
