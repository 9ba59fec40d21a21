//! The master dispatcher: admission of worker-creation requests, the worker
//! registry, event routing, and coordinated shutdown.

use vstd::prelude::*;
use vstd::string::StringExecFns;
use crate::config::MasterArgs;
use crate::config::MasterConfig;
use crate::errors::BotCreationError;
use crate::pool::ResourcePool;
use crate::pool::WorkerEntry;
use crate::pool::first_in_channel;
use crate::pool::lemma_first_in_channel_none;

verus! {

/// Everything a freshly spawned worker needs: its pooled display name and
/// identity, the pool indices behind them (handed back on release), the
/// target channel path, and the connection parameters it inherits from the
/// master. The caller binds the release duty for the index pair to the
/// spawned worker's exit.
#[derive(Debug)]
pub struct MusicBotArgs {
    pub name: String,
    pub name_index: usize,
    pub id_index: usize,
    pub local: bool,
    pub address: String,
    pub id: String,
    pub channel: String,
    pub verbose: u8,
}

/// An inbound protocol event, as the event loop hands it to the dispatcher.
#[derive(Debug)]
pub enum MasterEvent {
    /// A text message; a poke directed at the master carries the inviting
    /// user's id.
    TextMessage { poke_from: Option<u64> },
    /// A channel appeared on the server.
    ChannelAdded { channel: u64 },
    /// A client connected to the server.
    ClientAdded { id: u64 },
    /// A client's connection dropped.
    ClientDisconnected { id: u64 },
    /// An orderly shutdown was requested.
    Quit { reason: String },
    /// Any other protocol event; the dispatcher ignores it.
    Other,
}

/// An instruction the dispatcher hands back to the surrounding event loop,
/// which performs it against the transport or the workers.
#[derive(Debug, PartialEq)]
pub enum MasterAction {
    /// Run the worker-creation protocol for this inviting user.
    SpawnFor { user: u64 },
    /// Subscribe to presence updates for this channel.
    Subscribe { channel: u64 },
    /// Publish this status description on the server.
    SetDescription { text: String },
    /// Tell one active worker to shut itself down.
    SendWorkerQuit { name: String, reason: String },
    /// Put the master's own shutdown on the event queue; it is carried out
    /// only after the instructions ahead of it.
    EnqueueQuit { reason: String },
    /// Disconnect the master's own transport connection.
    DisconnectMaster { reason: String },
}

/// The master dispatcher: the immutable configuration and the pool state it
/// exclusively owns. Inbound events reach it one at a time, so every
/// admission decision sees the pool as the previous decision left it.
pub struct MasterBot {
    pub config: MasterConfig,
    pub pool: ResourcePool,
}

impl MasterBot {
    /// The dispatcher invariant: the pool invariant over slot counts that
    /// match the configuration, every registered worker wearing the
    /// configured name behind its name index, and no two active workers in
    /// one channel.
    pub open spec fn inv(self) -> bool {
        &&& self.pool.inv()
        &&& self.pool.name_count == self.config.names@.len()
        &&& self.pool.id_count == self.config.ids@.len()
        &&& (forall|j: int|
            0 <= j < self.pool.active_workers@.len() ==> (#[trigger] self.pool.active_workers@[j]).name
                == self.config.names@[self.pool.active_workers@[j].name_index as int])
        &&& (forall|i: int, j: int|
            0 <= i < self.pool.active_workers@.len() && 0 <= j < self.pool.active_workers@.len()
                && i != j ==> (#[trigger] self.pool.active_workers@[i]).channel
                != (#[trigger] self.pool.active_workers@[j]).channel)
    }

    /// The admission verdict for an invitation, checked in protocol order:
    /// an unlocated user, the master's own channel, an occupied channel, an
    /// empty name pool, an empty identity pool — or no objection.
    pub open spec fn creation_error(self, user_channel: Option<u64>, master_channel: u64) -> Option<
        BotCreationError,
    > {
        match user_channel {
            None => Some(BotCreationError::UnfoundUser),
            Some(c) => if c == master_channel {
                Some(BotCreationError::MasterChannel(self.config.master_name))
            } else {
                match first_in_channel(self.pool.active_workers@, c) {
                    Some(e) => Some(BotCreationError::MultipleBots(e.name)),
                    None => if self.pool.available_names@.len() == 0 {
                        Some(BotCreationError::OutOfNames)
                    } else if self.pool.available_ids@.len() == 0 {
                        Some(BotCreationError::OutOfIdentities)
                    } else {
                        None
                    },
                }
            },
        }
    }

    /// Builds the dispatcher from the merged configuration: a frozen
    /// `MasterConfig` and full pools, one slot per configured name and per
    /// configured identity. Slot selection draws on operating-system
    /// entropy; the transport connection itself is the surrounding
    /// process's work.
    pub fn new(args: MasterArgs) -> (b: MasterBot)
        requires
            args.ids is Some,
        ensures
            b.inv(),
            b.config.master_name == args.master_name,
            b.config.address == args.address,
            b.config.names == args.names,
            args.ids matches Some(v) ==> b.config.ids == v,
            b.config.local == args.local,
            b.config.verbose == args.verbose,
            b.pool.available_names@.len() == args.names@.len(),
            args.ids matches Some(v) ==> b.pool.available_ids@.len() == v@.len(),
            b.pool.active_workers@.len() == 0,
    {
        let ids = match args.ids {
            Some(v) => v,
            None => vstd::pervasive::unreached(),
        };
        let name_count = args.names.len();
        let id_count = ids.len();
        let pool = ResourcePool::with_entropy(name_count, id_count);
        let config = MasterConfig {
            master_name: args.master_name,
            address: args.address,
            names: args.names,
            ids,
            local: args.local,
            verbose: args.verbose,
        };
        MasterBot { config, pool }
    }

    /// Like `new`, with slot selection determined by the given seed, so
    /// that runs can be reproduced.
    pub fn new_with_seed(args: MasterArgs, seed: u64) -> (b: MasterBot)
        requires
            args.ids is Some,
        ensures
            b.inv(),
            b.config.master_name == args.master_name,
            b.config.address == args.address,
            b.config.names == args.names,
            args.ids matches Some(v) ==> b.config.ids == v,
            b.config.local == args.local,
            b.config.verbose == args.verbose,
            b.pool.available_names@.len() == args.names@.len(),
            args.ids matches Some(v) ==> b.pool.available_ids@.len() == v@.len(),
            b.pool.active_workers@.len() == 0,
    {
        let ids = match args.ids {
            Some(v) => v,
            None => vstd::pervasive::unreached(),
        };
        let name_count = args.names.len();
        let id_count = ids.len();
        let pool = ResourcePool::with_seed(name_count, id_count, seed);
        let config = MasterConfig {
            master_name: args.master_name,
            address: args.address,
            names: args.names,
            ids,
            local: args.local,
            verbose: args.verbose,
        };
        MasterBot { config, pool }
    }

    /// The worker creation protocol for one invitation.
    ///
    /// The caller resolves the transport facts first: the inviting user's
    /// channel, the master's own current channel, and the full path of the
    /// user's channel (present whenever the user was located — the
    /// transport can name a path for any channel it located a user in).
    ///
    /// The verdict is exactly `creation_error` on the state before the
    /// call: a refusal reports that error, changes nothing, and is rendered
    /// to the user by the caller; a grant consumes one name index and one
    /// identity index, registers the worker, and returns everything the new
    /// worker needs. An invitation from the master's own channel is always
    /// refused, whatever the pool state; an occupied channel is refused
    /// with the occupant's name and consumes nothing.
    pub fn create_worker(
        &mut self,
        user_channel: Option<u64>,
        master_channel: u64,
        channel_path: Option<String>,
    ) -> (r: Result<MusicBotArgs, BotCreationError>)
        requires
            old(self).inv(),
            old(self).creation_error(user_channel, master_channel) is None ==> channel_path
                is Some,
        ensures
            final(self).inv(),
            final(self).config == old(self).config,
            r is Err <==> old(self).creation_error(user_channel, master_channel) is Some,
            old(self).creation_error(user_channel, master_channel) matches Some(e) ==> r
                == Err::<MusicBotArgs, BotCreationError>(e) && *final(self) == *old(self),
            r matches Ok(args) ==> user_channel matches Some(c) && channel_path matches Some(p)
                && ({
                &&& args.name_index < old(self).config.names@.len()
                &&& args.id_index < old(self).config.ids@.len()
                &&& old(self).pool.available_names@.contains(args.name_index)
                &&& old(self).pool.available_ids@.contains(args.id_index)
                &&& args.name == old(self).config.names@[args.name_index as int]
                &&& args.id == old(self).config.ids@[args.id_index as int]
                &&& args.local == old(self).config.local
                &&& args.address == old(self).config.address
                &&& args.verbose == old(self).config.verbose
                &&& args.channel == p
                &&& final(self).pool.active_workers@ == old(self).pool.active_workers@.push(
                    (WorkerEntry {
                        name: args.name,
                        name_index: args.name_index,
                        id_index: args.id_index,
                        channel: c,
                    }),
                )
                &&& final(self).pool.available_names@.len() == old(
                    self,
                ).pool.available_names@.len() - 1
                &&& final(self).pool.available_ids@.len() == old(self).pool.available_ids@.len()
                    - 1
                &&& (forall|k: usize|
                    final(self).pool.available_names@.contains(k) <==> (old(
                        self,
                    ).pool.available_names@.contains(k) && k != args.name_index))
                &&& (forall|k: usize|
                    final(self).pool.available_ids@.contains(k) <==> (old(
                        self,
                    ).pool.available_ids@.contains(k) && k != args.id_index))
            }),
    {
        let channel = match user_channel {
            Some(c) => c,
            None => {
                return Err(BotCreationError::UnfoundUser);
            },
        };
        if channel == master_channel {
            return Err(BotCreationError::MasterChannel(self.config.master_name.clone()));
        }
        if let Some(existing) = self.pool.channel_in_use(channel) {
            return Err(BotCreationError::MultipleBots(existing));
        }
        proof {
            lemma_first_in_channel_none(self.pool.active_workers@, channel);
        }
        let pair = match self.pool.try_allocate() {
            Ok(p) => p,
            Err(e) => {
                return Err(e);
            },
        };
        let (name_index, id_index) = pair;
        let path = match channel_path {
            Some(p) => p,
            None => vstd::pervasive::unreached(),
        };
        let name = self.config.names[name_index].clone();
        let id = self.config.ids[id_index].clone();
        let entry = WorkerEntry { name: name.clone(), name_index, id_index, channel };
        proof {
            let mid = self.pool;
            assert(mid.active_workers@ == old(self).pool.active_workers@);
            assert(!mid.available_names@.contains(name_index));
            assert(!mid.available_ids@.contains(id_index));
            if mid.name_in_use(name_index) {
                let j = choose|j: int|
                    0 <= j < mid.active_workers@.len() && mid.active_workers@[j].name_index
                        == name_index;
                assert(old(self).pool.active_workers@[j].name_index == name_index);
                assert(old(self).pool.name_in_use(name_index));
            }
            if mid.id_in_use(id_index) {
                let j = choose|j: int|
                    0 <= j < mid.active_workers@.len() && mid.active_workers@[j].id_index
                        == id_index;
                assert(old(self).pool.active_workers@[j].id_index == id_index);
                assert(old(self).pool.id_in_use(id_index));
            }
        }
        let ghost mid = self.pool;
        self.pool.register(entry);
        proof {
            let w0 = old(self).pool.active_workers@;
            let w1 = self.pool.active_workers@;
            assert(w1 == w0.push(entry));
            assert forall|k: usize|
                k < self.pool.name_count && !self.pool.name_in_use(k) implies self
                .pool.available_names@.contains(k) by {
                if k != name_index {
                    if old(self).pool.name_in_use(k) {
                        let j = choose|j: int| 0 <= j < w0.len() && w0[j].name_index == k;
                        assert(w1[j].name_index == k);
                        assert(self.pool.name_in_use(k));
                    }
                    assert(old(self).pool.available_names@.contains(k));
                }
            }
            assert forall|k: usize|
                k < self.pool.id_count && !self.pool.id_in_use(k) implies self
                .pool.available_ids@.contains(k) by {
                if k != id_index {
                    if old(self).pool.id_in_use(k) {
                        let j = choose|j: int| 0 <= j < w0.len() && w0[j].id_index == k;
                        assert(w1[j].id_index == k);
                        assert(self.pool.id_in_use(k));
                    }
                    assert(old(self).pool.available_ids@.contains(k));
                }
            }
            assert forall|j: int|
                0 <= j < w1.len() implies (#[trigger] w1[j]).name
                == self.config.names@[w1[j].name_index as int] by {
                if j < w0.len() {
                    assert(w1[j] == w0[j]);
                }
            }
            assert forall|i: int, j: int|
                0 <= i < w1.len() && 0 <= j < w1.len() && i != j implies (#[trigger] w1[i]).channel
                != (#[trigger] w1[j]).channel by {
                if i < w0.len() && j < w0.len() {
                    assert(w1[i] == w0[i]);
                    assert(w1[j] == w0[j]);
                } else if i < w0.len() && j == w0.len() {
                    assert(w1[i] == w0[i]);
                    assert(w0[i].channel != channel);
                } else if j < w0.len() && i == w0.len() {
                    assert(w1[j] == w0[j]);
                    assert(w0[j].channel != channel);
                }
            }
        }
        Ok(
            MusicBotArgs {
                name,
                name_index,
                id_index,
                local: self.config.local,
                address: self.config.address.clone(),
                id,
                channel: path,
                verbose: self.config.verbose,
            },
        )
    }

    /// The single-fire release path for one worker's slots, reachable from
    /// every exit of that worker: its registry entry goes away and its name
    /// and identity indices re-enter the available sets.
    pub fn release_worker(&mut self, name: &String, name_index: usize, id_index: usize)
        requires
            old(self).inv(),
            exists|j: int|
                0 <= j < old(self).pool.active_workers@.len() && (#[trigger] old(
                    self,
                ).pool.active_workers@[j]).name@ == name@ && old(
                    self,
                ).pool.active_workers@[j].name_index == name_index && old(
                    self,
                ).pool.active_workers@[j].id_index == id_index,
        ensures
            final(self).inv(),
            final(self).config == old(self).config,
            final(self).pool.available_names@ == old(self).pool.available_names@.push(name_index),
            final(self).pool.available_ids@ == old(self).pool.available_ids@.push(id_index),
            exists|j: int|
                0 <= j < old(self).pool.active_workers@.len() && (#[trigger] old(
                    self,
                ).pool.active_workers@[j]).name_index == name_index && old(
                    self,
                ).pool.active_workers@[j].id_index == id_index && final(self).pool.active_workers@
                    == old(self).pool.active_workers@.remove(j),
            forall|k: usize|
                final(self).pool.name_in_use(k) <==> (old(self).pool.name_in_use(k) && k
                    != name_index),
            forall|k: usize|
                final(self).pool.id_in_use(k) <==> (old(self).pool.id_in_use(k) && k != id_index),
    {
        self.pool.release(name, name_index, id_index);
        proof {
            let w0 = old(self).pool.active_workers@;
            let w1 = self.pool.active_workers@;
            let jr = choose|j: int|
                0 <= j < w0.len() && (#[trigger] w0[j]).name_index == name_index
                    && w0[j].id_index == id_index && w1 == w0.remove(j);
            assert forall|j: int|
                0 <= j < w1.len() implies (#[trigger] w1[j]).name
                == self.config.names@[w1[j].name_index as int] by {
                let j0 = if j < jr {
                    j
                } else {
                    j + 1
                };
                assert(w1[j] == w0[j0]);
            }
            assert forall|i: int, j: int|
                0 <= i < w1.len() && 0 <= j < w1.len() && i != j implies (#[trigger] w1[i]).channel
                != (#[trigger] w1[j]).channel by {
                let i0 = if i < jr {
                    i
                } else {
                    i + 1
                };
                let j0 = if j < jr {
                    j
                } else {
                    j + 1
                };
                assert(w1[i] == w0[i0]);
                assert(w1[j] == w0[j0]);
                assert(i0 != j0);
            }
        }
    }

    /// The names of the currently active workers, in registry order.
    pub fn bot_names(&self) -> (r: Vec<String>)
        ensures
            r@.len() == self.pool.active_workers@.len(),
            forall|j: int|
                0 <= j < r@.len() ==> r@[j] == (#[trigger] self.pool.active_workers@[j]).name,
    {
        let len = self.pool.active_workers.len();
        let mut result: Vec<String> = Vec::new();
        let mut j: usize = 0;
        while j < len
            invariant
                len == self.pool.active_workers@.len(),
                j <= len,
                result@.len() == j,
                forall|t: int|
                    0 <= t < j ==> result@[t] == (#[trigger] self.pool.active_workers@[t]).name,
            decreases len - j,
        {
            result.push(self.pool.active_workers[j].name.clone());
            j += 1;
        }
        result
    }

    /// The coordinated-shutdown fan-out: one termination instruction for
    /// every active worker and then — strictly after all of them — the
    /// enqueue of the master's own shutdown, which the event loop answers
    /// by disconnecting the master transport. So every worker is told to
    /// quit before the master's connection goes down, however long any one
    /// worker takes to comply.
    pub fn quit(&self, reason: String) -> (r: Vec<MasterAction>)
        ensures
            r@.len() == self.pool.active_workers@.len() + 1,
            forall|j: int|
                0 <= j < self.pool.active_workers@.len() ==> r@[j]
                    == (MasterAction::SendWorkerQuit {
                    name: (#[trigger] self.pool.active_workers@[j]).name,
                    reason: reason,
                }),
            r@[self.pool.active_workers@.len() as int] == (MasterAction::EnqueueQuit {
                reason: reason,
            }),
    {
        let len = self.pool.active_workers.len();
        let mut actions: Vec<MasterAction> = Vec::new();
        let mut j: usize = 0;
        while j < len
            invariant
                len == self.pool.active_workers@.len(),
                j <= len,
                actions@.len() == j,
                forall|t: int|
                    0 <= t < j ==> actions@[t] == (MasterAction::SendWorkerQuit {
                        name: (#[trigger] self.pool.active_workers@[t]).name,
                        reason: reason,
                    }),
            decreases len - j,
        {
            actions.push(
                MasterAction::SendWorkerQuit {
                    name: self.pool.active_workers[j].name.clone(),
                    reason: reason.clone(),
                },
            );
            j += 1;
        }
        actions.push(MasterAction::EnqueueQuit { reason });
        actions
    }

    /// Routes one inbound event to the instructions the event loop must
    /// carry out, and says whether the loop must stop consuming events
    /// afterwards: it stops for an orderly shutdown and when the master's
    /// own connection drops unexpectedly, and nowhere else. A poke becomes
    /// a creation request, a new channel a subscription, the master's own
    /// arrival a status description; everything else is ignored.
    pub fn route_event(&self, event: MasterEvent, my_id: u64) -> (r: (Vec<MasterAction>, bool))
        ensures
            event matches MasterEvent::Quit { reason } ==> r.1 && r.0@.len() == 1 && r.0@[0]
                == (MasterAction::DisconnectMaster { reason }),
            event matches MasterEvent::ClientDisconnected { id } ==> r.0@.len() == 0 && (r.1 <==> id
                == my_id),
            event matches MasterEvent::TextMessage { poke_from: Some(u) } ==> !r.1 && r.0@.len()
                == 1 && r.0@[0] == (MasterAction::SpawnFor { user: u }),
            event matches MasterEvent::TextMessage { poke_from: None } ==> !r.1 && r.0@.len() == 0,
            event matches MasterEvent::ChannelAdded { channel } ==> !r.1 && r.0@.len() == 1
                && r.0@[0] == (MasterAction::Subscribe { channel }),
            event matches MasterEvent::ClientAdded { id } ==> !r.1 && (id == my_id ==> r.0@.len()
                == 1 && (r.0@[0] matches MasterAction::SetDescription { text } && text@
                == "Poke me if you want a music bot!"@)) && (id != my_id ==> r.0@.len() == 0),
            event is Other ==> !r.1 && r.0@.len() == 0,
    {
        let mut actions: Vec<MasterAction> = Vec::new();
        match event {
            MasterEvent::Quit { reason } => {
                actions.push(MasterAction::DisconnectMaster { reason });
                (actions, true)
            },
            MasterEvent::ClientDisconnected { id } => (actions, id == my_id),
            MasterEvent::TextMessage { poke_from } => {
                match poke_from {
                    Some(u) => {
                        actions.push(MasterAction::SpawnFor { user: u });
                    },
                    None => {},
                }
                (actions, false)
            },
            MasterEvent::ChannelAdded { channel } => {
                actions.push(MasterAction::Subscribe { channel });
                (actions, false)
            },
            MasterEvent::ClientAdded { id } => {
                if id == my_id {
                    actions.push(
                        MasterAction::SetDescription {
                            text: String::from_str("Poke me if you want a music bot!"),
                        },
                    );
                }
                (actions, false)
            },
            MasterEvent::Other => (actions, false),
        }
    }
}

/// Exhaustion excludes a second grant: when an invitation is granted out of
/// a pool whose name or identity set held its last slot, any further
/// admissible invitation — a located user, a channel that is neither the
/// master's nor, being distinct, the granted one — is refused for
/// exhaustion. Of two such invitations racing for the last slot, at most
/// one succeeds.
pub proof fn lemma_last_slot_exclusion(
    b0: MasterBot,
    b1: MasterBot,
    master_channel: u64,
    c1: u64,
    c2: u64,
    e: WorkerEntry,
)
    requires
        b0.inv(),
        c1 != c2,
        b0.creation_error(Some(c1), master_channel) is None,
        b0.creation_error(Some(c2), master_channel) is None,
        b0.pool.available_names@.len() == 1 || b0.pool.available_ids@.len() == 1,
        e.channel == c1,
        b1.pool.active_workers@ == b0.pool.active_workers@.push(e),
        b1.pool.available_names@.len() == b0.pool.available_names@.len() - 1,
        b1.pool.available_ids@.len() == b0.pool.available_ids@.len() - 1,
    ensures
        b1.creation_error(Some(c2), master_channel) == Some(BotCreationError::OutOfNames)
            || b1.creation_error(Some(c2), master_channel) == Some(
            BotCreationError::OutOfIdentities,
        ),
{
    let w0 = b0.pool.active_workers@;
    let w1 = b1.pool.active_workers@;
    lemma_first_in_channel_none(w0, c2);
    lemma_first_in_channel_none(w1, c2);
    assert forall|j: int| 0 <= j < w1.len() implies (#[trigger] w1[j]).channel != c2 by {
        if j < w0.len() {
            assert(w1[j] == w0[j]);
        } else {
            assert(w1[j] == e);
        }
    }
}

} // verus!

