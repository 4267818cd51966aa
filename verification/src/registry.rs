//! The client registry: one actor per client id, spawned on demand, plus
//! the shared journal and dispute index all actors write through.

use vstd::prelude::*;

use crate::client::{actor_step, ClientActor};
use crate::command::TransactionTypeCommand;
use crate::envelope::CommandMetadata;
use crate::error::{EngineError, PaymentError};
use crate::event::lemma_apply_held_non_negative;
use crate::indexes::InMemoryDisputeIndex;
use crate::journal::{dedup_index_of, has_dedup_key, InMemoryJournal};
use crate::lookup::lemma_first_base_tx_in_log;
use crate::processor::{directive_event, load_outcome, LoadedCommand};
use crate::state::AccountState;

verus! {

/// How one processed command moves the registry from `pre` to `post`
/// with reply `r`: the actor bookkeeping (other clients untouched, a
/// fresh actor appended for a new client), the rejection of a regressed
/// redelivery, and otherwise one [`actor_step`] of the client's actor
/// against the shared journal and dispute index.
pub open spec fn registry_step(
    pre: ClientRegistry,
    post: ClientRegistry,
    client_id: u16,
    command: TransactionTypeCommand,
    key: Seq<char>,
    now: i64,
    r: Result<(), PaymentError>,
) -> bool {
    &&& post.wf()
    &&& post.spec_namespace() == pre.spec_namespace()
    &&& post.has_actor(client_id)
    &&& ({
        let i = post.actor_index(client_id);
        &&& pre.has_actor(client_id) ==> {
            &&& post.spec_actors().len() == pre.spec_actors().len()
            &&& i == pre.actor_index(client_id)
            &&& (forall|j: int|
                0 <= j < post.spec_actors().len() && j != i ==> post.spec_actors()[j]
                    == pre.spec_actors()[j])
            &&& post.spec_processed() == pre.spec_processed()
        }
        &&& !pre.has_actor(client_id) ==> {
            &&& post.spec_actors().len() == pre.spec_actors().len() + 1
            &&& i == pre.spec_actors().len()
            &&& (forall|j: int|
                0 <= j < pre.spec_actors().len() ==> post.spec_actors()[j]
                    == pre.spec_actors()[j])
            &&& post.spec_processed() == pre.spec_processed().push(client_id)
        }
    })
    &&& ({
        let i = post.actor_index(client_id);
        let s0 = if pre.has_actor(client_id) {
            pre.spec_actors()[pre.actor_index(client_id)].account_state
        } else {
            AccountState::initial_spec(now)
        };
        let last0 = if pre.has_actor(client_id) {
            pre.spec_actors()[pre.actor_index(client_id)].last_sequence
        } else {
            0u64
        };
        let log0 = pre.spec_journal().log();
        let idx0 = pre.spec_dispute_index().disputed();
        if has_dedup_key(log0, key) && log0[dedup_index_of(log0, key)].sequence_nr < last0 {
            // Ordering violation: rejected before reaching the actor;
            // nothing changes but the spawn bookkeeping.
            &&& r matches Err(PaymentError::Engine(EngineError::ValidationError(_)))
            &&& post.spec_journal() == pre.spec_journal()
            &&& post.spec_dispute_index() == pre.spec_dispute_index()
            &&& post.spec_actors()[i].account_state == s0
            &&& post.spec_actors()[i].last_sequence == last0
        } else {
            actor_step(
                command,
                key,
                now,
                s0,
                last0,
                log0,
                idx0,
                post.spec_actors()[i].account_state,
                post.spec_actors()[i].last_sequence,
                post.spec_journal().log(),
                post.spec_dispute_index().disputed(),
                r,
            )
        }
    })
}

/// Idempotent redelivery, observed at the registry: resubmitting the
/// command behind a client's last applied event leaves every client's
/// account state, every cursor, and the journal unchanged.
pub proof fn lemma_registry_redelivery_idempotent(
    pre: ClientRegistry,
    post: ClientRegistry,
    client_id: u16,
    command: TransactionTypeCommand,
    key: Seq<char>,
    now: i64,
    r: Result<(), PaymentError>,
)
    requires
        pre.wf(),
        registry_step(pre, post, client_id, command, key, now, r),
        pre.has_actor(client_id),
        has_dedup_key(pre.spec_journal().log(), key),
        pre.spec_journal().log()[dedup_index_of(pre.spec_journal().log(), key)].sequence_nr
            == pre.spec_actors()[pre.actor_index(client_id)].last_sequence,
    ensures
        post.spec_actors().len() == pre.spec_actors().len(),
        forall|j: int|
            0 <= j < post.spec_actors().len() ==> {
                &&& (#[trigger] post.spec_actors()[j]).client_id == pre.spec_actors()[j].client_id
                &&& post.spec_actors()[j].account_state == pre.spec_actors()[j].account_state
                &&& post.spec_actors()[j].last_sequence == pre.spec_actors()[j].last_sequence
            },
        post.spec_journal().log() == pre.spec_journal().log(),
{
    let i = post.actor_index(client_id);
    assert(0 <= i < post.spec_actors().len() && post.spec_actors()[i].client_id == client_id);
    assert(0 <= pre.actor_index(client_id) < pre.spec_actors().len()
        && pre.spec_actors()[pre.actor_index(client_id)].client_id == client_id);
    crate::client::lemma_redelivery_idempotent(
        command,
        key,
        now,
        pre.spec_actors()[pre.actor_index(client_id)].account_state,
        pre.spec_actors()[pre.actor_index(client_id)].last_sequence,
        pre.spec_journal().log(),
        pre.spec_dispute_index().disputed(),
        post.spec_actors()[i].account_state,
        post.spec_actors()[i].last_sequence,
        post.spec_journal().log(),
        post.spec_dispute_index().disputed(),
        r,
    );
}

/// Directory of client actors. Owns the shared journal and dispute
/// index; each actor owns its client's account state. Processing is
/// serialised per client by construction: one actor per client id.
pub struct ClientRegistry {
    journal: InMemoryJournal,
    dispute_index: InMemoryDisputeIndex,
    actors: Vec<ClientActor>,
    /// Client ids seen by `process_command`, in first-seen order; used for
    /// the final output.
    processed_clients: Vec<u16>,
    /// Prefix distinguishing several registries in one process (test
    /// isolation).
    namespace: String,
}

impl ClientRegistry {
    /// The shared journal.
    pub closed spec fn spec_journal(self) -> InMemoryJournal {
        self.journal
    }

    /// The shared dispute index.
    pub closed spec fn spec_dispute_index(self) -> InMemoryDisputeIndex {
        self.dispute_index
    }

    /// The spawned actors, in first-seen order.
    pub closed spec fn spec_actors(self) -> Seq<ClientActor> {
        self.actors@
    }

    /// The client ids seen by `process_command`, in first-seen order.
    pub closed spec fn spec_processed(self) -> Seq<u16> {
        self.processed_clients@
    }

    /// The registry's namespace prefix.
    pub closed spec fn spec_namespace(self) -> Seq<char> {
        self.namespace@
    }

    /// Whether an actor for `client_id` exists.
    pub open spec fn has_actor(self, client_id: u16) -> bool {
        exists|i: int|
            0 <= i < self.spec_actors().len() && (#[trigger] self.spec_actors()[i]).client_id
                == client_id
    }

    /// The position of the actor for `client_id`; unique under
    /// [`ClientRegistry::wf`].
    pub open spec fn actor_index(self, client_id: u16) -> int {
        choose|i: int|
            0 <= i < self.spec_actors().len() && (#[trigger] self.spec_actors()[i]).client_id
                == client_id
    }

    /// The account state held for `client_id`, if an actor exists.
    pub open spec fn state_of(self, client_id: u16) -> Option<AccountState> {
        if self.has_actor(client_id) {
            Some(self.spec_actors()[self.actor_index(client_id)].account_state)
        } else {
            None
        }
    }

    /// Well-formedness: the journal and index are well formed; every
    /// logged event carries a positive amount; client ids are unique;
    /// every actor's state is well formed with non-negative held funds,
    /// and its cursor does not run ahead of the journal; the processed
    /// list mirrors the actors.
    pub open spec fn wf(self) -> bool {
        &&& self.spec_journal().wf()
        &&& self.spec_dispute_index().wf()
        &&& forall|i: int|
            0 <= i < self.spec_journal().log().len() ==> (#[trigger] self.spec_journal().log()[
                i
            ]).event.spec_amount() > 0
        &&& forall|i: int|
            0 <= i < self.spec_actors().len() ==> (#[trigger] self.spec_actors()[i]).account_state.held()
                >= 0
        &&& forall|i: int, j: int|
            0 <= i < self.spec_actors().len() && 0 <= j < self.spec_actors().len() && i != j
                ==> (#[trigger] self.spec_actors()[i]).client_id
                    != (#[trigger] self.spec_actors()[j]).client_id
        &&& forall|i: int|
            0 <= i < self.spec_actors().len() ==> (#[trigger] self.spec_actors()[i]).account_state.wf()
        &&& forall|i: int|
            0 <= i < self.spec_actors().len() ==> (#[trigger] self.spec_actors()[i]).last_sequence
                <= self.spec_journal().log().len()
        &&& self.spec_processed().len() == self.spec_actors().len()
        &&& forall|i: int|
            0 <= i < self.spec_actors().len() ==> (#[trigger] self.spec_processed()[i])
                == self.spec_actors()[i].client_id
    }

    /// A fresh registry: empty journal, empty dispute index, no actors.
    pub fn new() -> (r: Self)
        ensures
            r.wf(),
            r.spec_journal().log().len() == 0,
            r.spec_dispute_index().disputed() == Map::<u32, i64>::empty(),
            r.spec_actors().len() == 0,
            r.spec_processed().len() == 0,
            r.spec_namespace().len() == 0,
    {
        ClientRegistry {
            journal: InMemoryJournal::new(),
            dispute_index: InMemoryDisputeIndex::new(),
            actors: Vec::new(),
            processed_clients: Vec::new(),
            namespace: String::new(),
        }
    }

    /// A fresh registry whose actor names carry `namespace`, so several
    /// registries can coexist in one process.
    pub fn with_namespace(namespace: String) -> (r: Self)
        ensures
            r.wf(),
            r.spec_journal().log().len() == 0,
            r.spec_dispute_index().disputed() == Map::<u32, i64>::empty(),
            r.spec_actors().len() == 0,
            r.spec_processed().len() == 0,
            r.spec_namespace() == namespace@,
    {
        ClientRegistry {
            journal: InMemoryJournal::new(),
            dispute_index: InMemoryDisputeIndex::new(),
            actors: Vec::new(),
            processed_clients: Vec::new(),
            namespace,
        }
    }

    /// The position of the actor for `client_id`, spawning a fresh one —
    /// and recording the client as seen — when none exists yet.
    fn get_or_spawn(&mut self, client_id: u16, now: i64) -> (i: usize)
        requires
            old(self).wf(),
        ensures
            final(self).wf(),
            final(self).spec_journal() == old(self).spec_journal(),
            final(self).spec_dispute_index() == old(self).spec_dispute_index(),
            final(self).spec_namespace() == old(self).spec_namespace(),
            final(self).has_actor(client_id),
            i == final(self).actor_index(client_id),
            0 <= i < final(self).spec_actors().len(),
            final(self).spec_actors()[i as int].client_id == client_id,
            old(self).has_actor(client_id) ==> {
                &&& final(self).spec_actors() == old(self).spec_actors()
                &&& final(self).spec_processed() == old(self).spec_processed()
            },
            !old(self).has_actor(client_id) ==> {
                &&& final(self).spec_actors().len() == old(self).spec_actors().len() + 1
                &&& (forall|j: int|
                    0 <= j < old(self).spec_actors().len()
                        ==> final(self).spec_actors()[j] == old(self).spec_actors()[j])
                &&& i == old(self).spec_actors().len()
                &&& final(self).spec_actors()[i as int].account_state
                    == AccountState::initial_spec(now)
                &&& final(self).spec_actors()[i as int].last_sequence == 0
                &&& final(self).spec_processed() == old(self).spec_processed().push(client_id)
            },
    {
        let n = self.actors.len();
        let mut i: usize = 0;
        while i < n
            invariant
                *self == *old(self),
                old(self).wf(),
                n == self.spec_actors().len(),
                0 <= i <= n,
                forall|j: int| 0 <= j < i ==> (#[trigger] self.spec_actors()[j]).client_id != client_id,
            decreases n - i,
        {
            if self.actors[i].client_id == client_id {
                proof {
                    assert(self.has_actor(client_id)) by {
                        assert(self.spec_actors()[i as int].client_id == client_id);
                    }
                    let k = self.actor_index(client_id);
                    assert(0 <= k < self.spec_actors().len() && self.spec_actors()[k].client_id
                        == client_id) by {
                        assert(self.spec_actors()[i as int].client_id == client_id);
                    }
                    assert(k == i as int);
                }
                return i;
            }
            i += 1;
        }
        self.actors.push(ClientActor::new(client_id, now));
        self.processed_clients.push(client_id);
        proof {
            assert(self.has_actor(client_id)) by {
                assert(self.spec_actors()[n as int].client_id == client_id);
            }
            let k = self.actor_index(client_id);
            assert(0 <= k < self.spec_actors().len() && self.spec_actors()[k].client_id
                == client_id) by {
                assert(self.spec_actors()[n as int].client_id == client_id);
            }
            assert(k == n as int);
        }
        n
    }

    /// Process one command for `client_id`: spawn its actor if needed and
    /// hand the command to it.
    ///
    /// A redelivered deduplication key older than the client's last
    /// applied event is an ordering violation; it is rejected here before
    /// it reaches the actor, and surfaces as a validation error, as a
    /// crashed actor call would.
    pub fn process_command(
        &mut self,
        client_id: u16,
        command: TransactionTypeCommand,
        metadata: CommandMetadata,
        now: i64,
    ) -> (r: Result<(), PaymentError>)
        requires
            old(self).wf(),
        ensures
            registry_step(
                *old(self),
                *final(self),
                client_id,
                command,
                metadata.deduplication_key@,
                now,
                r,
            ),
    {
        let i = self.get_or_spawn(client_id, now);
        let ghost mid = *self;
        let ghost key = metadata.deduplication_key@;

        let last = self.actors[i].last_sequence;
        if let Some(seq) = self.journal.find_dedup(&metadata.deduplication_key) {
            if seq < last {
                return Err(
                    PaymentError::Engine(
                        EngineError::ValidationError(
                            String::from_str("event ordering violation"),
                        ),
                    ),
                );
            }
        }

        let mut actor = self.actors.remove(i);
        let r = actor.process_command(
            command,
            metadata,
            &mut self.journal,
            &mut self.dispute_index,
            now,
        );
        let ghost fa = actor;
        self.actors.insert(i, actor);
        proof {
            assert(self.spec_actors() =~= mid.spec_actors().update(i as int, fa));
            crate::client::lemma_actor_step_log_grows(
                command,
                key,
                now,
                mid.spec_actors()[i as int].account_state,
                mid.spec_actors()[i as int].last_sequence,
                mid.spec_journal().log(),
                mid.spec_dispute_index().disputed(),
                fa.account_state,
                fa.last_sequence,
                self.spec_journal().log(),
                self.spec_dispute_index().disputed(),
                r,
            );
            assert(forall|p: int, q: int|
                0 <= p < self.spec_actors().len() && 0 <= q < self.spec_actors().len() && p != q
                    ==> (#[trigger] self.spec_actors()[p]).client_id
                        != (#[trigger] self.spec_actors()[q]).client_id) by {
                assert(forall|p: int|
                    0 <= p < self.spec_actors().len() && p != i ==> #[trigger] self.spec_actors()[p]
                        == mid.spec_actors()[p]);
                assert(self.spec_actors()[i as int].client_id
                    == mid.spec_actors()[i as int].client_id);
            }
            assert(self.has_actor(client_id)) by {
                assert(self.spec_actors()[i as int].client_id == client_id);
            }
            let k = self.actor_index(client_id);
            assert(0 <= k < self.spec_actors().len() && self.spec_actors()[k].client_id
                == client_id) by {
                assert(self.spec_actors()[i as int].client_id == client_id);
            }
            assert(k == i as int);

            // The appended event, if any, carries a positive amount, so
            // the log keeps only positive amounts and the client's held
            // funds stay non-negative.
            let log0 = mid.spec_journal().log();
            let idx0 = mid.spec_dispute_index().disputed();
            let s0 = mid.spec_actors()[i as int].account_state;
            match load_outcome(command, log0, idx0) {
                None => {},
                Some(lc) => match directive_event(lc, s0) {
                    None => {},
                    Some(ev) => {
                        assert(ev.spec_amount() > 0) by {
                            match lc {
                                LoadedCommand::Deposit(_) => {},
                                LoadedCommand::Withdrawal(_) => {},
                                LoadedCommand::Dispute(c, res) => {
                                    lemma_first_base_tx_in_log(log0, c.tx_id);
                                },
                                LoadedCommand::Resolve(c, _) => {
                                    lemma_first_base_tx_in_log(log0, c.tx_id);
                                },
                                LoadedCommand::Chargeback(c, _) => {
                                    lemma_first_base_tx_in_log(log0, c.tx_id);
                                },
                            }
                        }
                        if has_dedup_key(log0, key) {
                            let e0 = log0[dedup_index_of(log0, key)];
                            if e0.event.can_apply(s0) {
                                lemma_apply_held_non_negative(e0.event, s0, now);
                            }
                        } else if log0.len() < u64::MAX {
                            if ev.can_apply(s0) {
                                lemma_apply_held_non_negative(ev, s0, now);
                            }
                        }
                    },
                },
            }
            assert(forall|ii: int|
                0 <= ii < self.spec_journal().log().len()
                    ==> (#[trigger] self.spec_journal().log()[ii]).event.spec_amount() > 0);
            assert(forall|j: int|
                0 <= j < self.spec_actors().len()
                    ==> (#[trigger] self.spec_actors()[j]).account_state.held() >= 0);
        }
        r
    }

    /// The current state of `client_id`'s account; `None` when no actor
    /// exists (lookup only, no spawn).
    pub fn get_state(&self, client_id: u16) -> (r: Result<Option<AccountState>, PaymentError>)
        requires
            self.wf(),
        ensures
            r matches Ok(s) && s == self.state_of(client_id),
    {
        let n = self.actors.len();
        let mut i: usize = 0;
        while i < n
            invariant
                self.wf(),
                n == self.spec_actors().len(),
                0 <= i <= n,
                forall|j: int| 0 <= j < i ==> (#[trigger] self.spec_actors()[j]).client_id != client_id,
            decreases n - i,
        {
            if self.actors[i].client_id == client_id {
                proof {
                    assert(self.has_actor(client_id)) by {
                        assert(self.spec_actors()[i as int].client_id == client_id);
                    }
                    let k = self.actor_index(client_id);
                    assert(0 <= k < self.spec_actors().len() && self.spec_actors()[k].client_id
                        == client_id) by {
                        assert(self.spec_actors()[i as int].client_id == client_id);
                    }
                    assert(k == i as int);
                }
                return Ok(Some(self.actors[i].get_state()));
            }
            i += 1;
        }
        Ok(None)
    }

    /// The states of every client seen by `process_command`, in
    /// first-seen order.
    pub fn get_all_states(&self) -> (r: Result<Vec<(u16, AccountState)>, PaymentError>)
        requires
            self.wf(),
        ensures
            r matches Ok(v) && {
                &&& v@.len() == self.spec_actors().len()
                &&& forall|i: int|
                    0 <= i < v@.len() ==> (#[trigger] v@[i]).0 == self.spec_actors()[i].client_id
                        && v@[i].1 == self.spec_actors()[i].account_state
            },
    {
        let n = self.actors.len();
        let mut result: Vec<(u16, AccountState)> = Vec::new();
        let mut i: usize = 0;
        while i < n
            invariant
                self.wf(),
                n == self.spec_actors().len(),
                0 <= i <= n,
                result@.len() == i,
                forall|j: int|
                    0 <= j < i ==> (#[trigger] result@[j]).0 == self.spec_actors()[j].client_id
                        && result@[j].1 == self.spec_actors()[j].account_state,
            decreases n - i,
        {
            let actor = &self.actors[i];
            result.push((actor.client_id, actor.account_state));
            i += 1;
        }
        Ok(result)
    }

    /// Stop every actor and forget the processed set. The journal and the
    /// dispute index stay as they are.
    pub fn shutdown_all(&mut self)
        requires
            old(self).wf(),
        ensures
            final(self).wf(),
            final(self).spec_journal() == old(self).spec_journal(),
            final(self).spec_dispute_index() == old(self).spec_dispute_index(),
            final(self).spec_namespace() == old(self).spec_namespace(),
            final(self).spec_actors().len() == 0,
            final(self).spec_processed().len() == 0,
    {
        self.actors.clear();
        self.processed_clients.clear();
    }
}

} // verus!
