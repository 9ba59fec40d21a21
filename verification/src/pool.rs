//! The finite pools of worker resources and the registry of active workers.
//!
//! A `ResourcePool` owns two sets of allocatable slot indices — one into the
//! configured list of display names, one into the configured list of
//! identities — and the registry of active workers. Its invariant is the
//! heart of the library: every configured index is at all times either
//! available or held by exactly one active worker, never both and never
//! twice.
//!
//! Slot selection is randomized (shuffle, then take the last element) so
//! that allocation does not always favour the lowest index; the generator
//! can be seeded for deterministic runs.

use vstd::prelude::*;
use rand::SeedableRng;
use rand::seq::SliceRandom;
use crate::errors::BotCreationError;

verus! {

/// One active worker as the registry sees it: its assigned display name, the
/// pool indices it holds, and the channel it serves.
#[derive(Debug)]
pub struct WorkerEntry {
    pub name: String,
    pub name_index: usize,
    pub id_index: usize,
    pub channel: u64,
}

/// The pseudo-random generator behind slot selection, declared so that a
/// pool can own one. Opaque to the verifier.
#[verifier::external_type_specification]
#[verifier::external_body]
pub struct ExSmallRng(rand::rngs::SmallRng);

/// Relies on rand's `SeedableRng::from_entropy`: a fresh generator seeded by
/// the operating system. Nothing is assumed of the values it will draw.
#[verifier::external_body]
fn rng_from_entropy() -> rand::rngs::SmallRng {
    rand::rngs::SmallRng::from_entropy()
}

/// Relies on rand's `SeedableRng::seed_from_u64`: a generator built from the
/// given seed. Nothing is assumed of the values it will draw.
#[verifier::external_body]
fn rng_from_seed(seed: u64) -> rand::rngs::SmallRng {
    rand::rngs::SmallRng::seed_from_u64(seed)
}

/// Relies on rand's `SliceRandom::shuffle`: the slice is permuted in place,
/// so afterwards it holds exactly the elements it held before, in some
/// order. Which order comes out is not assumed.
#[verifier::external_body]
fn shuffle_indices(rng: &mut rand::rngs::SmallRng, v: &mut Vec<usize>)
    ensures
        final(v)@.to_multiset() == old(v)@.to_multiset(),
{
    v.as_mut_slice().shuffle(rng)
}

/// Two index sequences with equal multisets hold the same indices, have the
/// same length, and freedom from duplicates carries over.
proof fn lemma_permuted_indices(a: Seq<usize>, b: Seq<usize>)
    requires
        a.to_multiset() == b.to_multiset(),
    ensures
        b.len() == a.len(),
        forall|k: usize| a.contains(k) <==> b.contains(k),
        a.no_duplicates() ==> b.no_duplicates(),
{
    vstd::seq_lib::to_multiset_len(a);
    vstd::seq_lib::to_multiset_len(b);
    assert forall|k: usize| a.contains(k) <==> b.contains(k) by {
        vstd::seq_lib::to_multiset_contains(a, k);
        vstd::seq_lib::to_multiset_contains(b, k);
    }
    if a.no_duplicates() {
        a.lemma_multiset_has_no_duplicates();
        assert forall|x: usize| b.to_multiset().contains(x) implies b.to_multiset().count(x)
            == 1 by {
            vstd::seq_lib::to_multiset_contains(a, x);
            assert(a.to_multiset().count(x) == b.to_multiset().count(x));
        }
        b.lemma_multiset_has_no_duplicates_conv();
    }
}

/// Dropping the last element of a duplicate-free sequence removes exactly
/// that element from the set of indices it holds.
proof fn lemma_drop_last_contains(s: Seq<usize>)
    requires
        s.len() > 0,
        s.no_duplicates(),
    ensures
        s.drop_last().no_duplicates(),
        forall|k: usize| s.drop_last().contains(k) <==> (s.contains(k) && k != s.last()),
{
    assert forall|k: usize| s.drop_last().contains(k) <==> (s.contains(k) && k != s.last()) by {
        if s.drop_last().contains(k) {
            let j = choose|j: int|
                0 <= j < s.drop_last().len() && s.drop_last()[j] == k;
            assert(s[j] == k);
            assert(s[j] != s[s.len() - 1]);
            assert(s.contains(k));
        }
        if s.contains(k) && k != s.last() {
            let j = choose|j: int| 0 <= j < s.len() && s[j] == k;
            assert(j != s.len() - 1);
            assert(s.drop_last()[j] == k);
            assert(s.drop_last().contains(k));
        }
    }
}

/// Appending an index that a duplicate-free sequence does not hold keeps it
/// duplicate-free and adds exactly that index.
proof fn lemma_push_fresh(s: Seq<usize>, x: usize)
    requires
        s.no_duplicates(),
        !s.contains(x),
    ensures
        s.push(x).no_duplicates(),
        forall|k: usize| s.push(x).contains(k) <==> (s.contains(k) || k == x),
{
    assert forall|k: usize| s.push(x).contains(k) <==> (s.contains(k) || k == x) by {
        if s.push(x).contains(k) {
            let j = choose|j: int| 0 <= j < s.push(x).len() && s.push(x)[j] == k;
            if j < s.len() {
                assert(s[j] == k);
            }
        }
        if s.contains(k) {
            let j = choose|j: int| 0 <= j < s.len() && s[j] == k;
            assert(s.push(x)[j] == k);
        }
        if k == x {
            assert(s.push(x)[s.len() as int] == k);
        }
    }
    assert forall|i: int, j: int|
        0 <= i < s.push(x).len() && 0 <= j < s.push(x).len() && i != j implies s.push(x)[i]
        != s.push(x)[j] by {
        if i < s.len() && j < s.len() {
        } else if i < s.len() && j == s.len() {
            assert(s.push(x)[i] == s[i]);
            assert(s.contains(s[i]));
        } else if j < s.len() && i == s.len() {
            assert(s.push(x)[j] == s[j]);
            assert(s.contains(s[j]));
        }
    }
}

/// The position of the registered worker that holds name index `name_index`.
fn find_by_name_index(v: &Vec<WorkerEntry>, name_index: usize) -> (r: usize)
    requires
        exists|j: int| 0 <= j < v@.len() && (#[trigger] v@[j]).name_index == name_index,
    ensures
        r < v@.len(),
        v@[r as int].name_index == name_index,
{
    let n = v.len();
    let mut j: usize = 0;
    while j < n
        invariant
            n == v@.len(),
            j <= n,
            exists|t: int| 0 <= t < n && (#[trigger] v@[t]).name_index == name_index,
            forall|t: int| 0 <= t < j ==> (#[trigger] v@[t]).name_index != name_index,
        decreases n - j,
    {
        if v[j].name_index == name_index {
            return j;
        }
        j += 1;
    }
    proof {
        let t = choose|t: int| 0 <= t < n && (#[trigger] v@[t]).name_index == name_index;
        assert(false);
    }
    vstd::pervasive::unreached()
}

/// The first registered worker serving channel `c`, if any.
pub open spec fn first_in_channel(w: Seq<WorkerEntry>, c: u64) -> Option<WorkerEntry>
    decreases w.len(),
{
    if w.len() == 0 {
        None
    } else if w[0].channel == c {
        Some(w[0])
    } else {
        first_in_channel(w.drop_first(), c)
    }
}

/// `first_in_channel` finds nothing exactly when no registered worker
/// serves the channel.
pub proof fn lemma_first_in_channel_none(w: Seq<WorkerEntry>, c: u64)
    ensures
        first_in_channel(w, c) is None <==> (forall|j: int|
            0 <= j < w.len() ==> (#[trigger] w[j]).channel != c),
    decreases w.len(),
{
    if w.len() > 0 {
        lemma_first_in_channel_none(w.drop_first(), c);
        assert(forall|j: int|
            0 <= j < w.drop_first().len() ==> #[trigger] w.drop_first()[j] == w[j + 1]);
        if first_in_channel(w, c) is None {
            assert forall|j: int| 0 <= j < w.len() implies (#[trigger] w[j]).channel != c by {
                if j > 0 {
                    assert(w.drop_first()[j - 1] == w[j]);
                }
            }
        }
        if forall|j: int| 0 <= j < w.len() ==> (#[trigger] w[j]).channel != c {
            assert forall|j: int|
                0 <= j < w.drop_first().len() implies (#[trigger] w.drop_first()[j]).channel
                != c by {
                assert(w.drop_first()[j] == w[j + 1]);
            }
            assert(w[0].channel != c);
        }
    }
}

/// What `first_in_channel` finds is the registered worker serving the
/// channel ahead of which no other does.
pub proof fn lemma_first_in_channel_found(w: Seq<WorkerEntry>, c: u64, i: int)
    requires
        0 <= i < w.len(),
        w[i].channel == c,
        forall|j: int| 0 <= j < i ==> (#[trigger] w[j]).channel != c,
    ensures
        first_in_channel(w, c) == Some(w[i]),
    decreases w.len(),
{
    if i > 0 {
        assert(w[0].channel != c);
        assert(forall|j: int|
            0 <= j < w.drop_first().len() ==> #[trigger] w.drop_first()[j] == w[j + 1]);
        assert forall|j: int|
            0 <= j < i - 1 implies (#[trigger] w.drop_first()[j]).channel != c by {
            assert(w.drop_first()[j] == w[j + 1]);
        }
        lemma_first_in_channel_found(w.drop_first(), c, i - 1);
        assert(w.drop_first()[i - 1] == w[i]);
    }
}

/// The shared pools and the worker registry, exclusively owned by the
/// dispatcher; all mutation is serialized through the event loop.
pub struct ResourcePool {
    pub rng: rand::rngs::SmallRng,
    pub name_count: usize,
    pub id_count: usize,
    pub available_names: Vec<usize>,
    pub available_ids: Vec<usize>,
    pub active_workers: Vec<WorkerEntry>,
}

impl ResourcePool {
    /// Some active worker holds name index `k`.
    pub open spec fn name_in_use(self, k: usize) -> bool {
        exists|j: int|
            0 <= j < self.active_workers@.len() && #[trigger] self.active_workers@[j].name_index
                == k
    }

    /// Some active worker holds identity index `k`.
    pub open spec fn id_in_use(self, k: usize) -> bool {
        exists|j: int|
            0 <= j < self.active_workers@.len() && #[trigger] self.active_workers@[j].id_index == k
    }

    /// Soundness of the pool: available indices are in range and free of
    /// duplicates, no two workers share an index, and no index is at once
    /// available and in use.
    pub open spec fn wf(self) -> bool {
        &&& self.available_names@.no_duplicates()
        &&& self.available_ids@.no_duplicates()
        &&& (forall|k: usize| self.available_names@.contains(k) ==> k < self.name_count)
        &&& (forall|k: usize| self.available_ids@.contains(k) ==> k < self.id_count)
        &&& (forall|j: int|
            0 <= j < self.active_workers@.len() ==> (#[trigger] self.active_workers@[j].name_index)
                < self.name_count && self.active_workers@[j].id_index < self.id_count)
        &&& (forall|i: int, j: int|
            0 <= i < self.active_workers@.len() && 0 <= j < self.active_workers@.len() && i != j
                ==> #[trigger] self.active_workers@[i].name_index
                != #[trigger] self.active_workers@[j].name_index
                && self.active_workers@[i].id_index != self.active_workers@[j].id_index)
        &&& (forall|k: usize| self.available_names@.contains(k) ==> !self.name_in_use(k))
        &&& (forall|k: usize| self.available_ids@.contains(k) ==> !self.id_in_use(k))
    }

    /// Completeness of the pool: every configured index that no worker holds
    /// is available.
    pub open spec fn complete(self) -> bool {
        &&& (forall|k: usize|
            k < self.name_count && !self.name_in_use(k) ==> self.available_names@.contains(k))
        &&& (forall|k: usize|
            k < self.id_count && !self.id_in_use(k) ==> self.available_ids@.contains(k))
    }

    /// The pool invariant: each configured name index — and likewise each
    /// identity index — is either available or held by exactly one active
    /// worker, never both.
    pub open spec fn inv(self) -> bool {
        self.wf() && self.complete()
    }

    fn new_with_rng(name_count: usize, id_count: usize, rng: rand::rngs::SmallRng) -> (p:
        ResourcePool)
        ensures
            p.inv(),
            p.name_count == name_count,
            p.id_count == id_count,
            p.available_names@.len() == name_count,
            p.available_ids@.len() == id_count,
            forall|j: int| 0 <= j < name_count ==> p.available_names@[j] == j,
            forall|j: int| 0 <= j < id_count ==> p.available_ids@[j] == j,
            p.active_workers@.len() == 0,
    {
        let mut names: Vec<usize> = Vec::new();
        let mut k: usize = 0;
        while k < name_count
            invariant
                k <= name_count,
                names@.len() == k,
                forall|j: int| 0 <= j < k ==> names@[j] == j,
            decreases name_count - k,
        {
            names.push(k);
            k += 1;
        }
        let mut ids: Vec<usize> = Vec::new();
        let mut t: usize = 0;
        while t < id_count
            invariant
                t <= id_count,
                ids@.len() == t,
                forall|j: int| 0 <= j < t ==> ids@[j] == j,
            decreases id_count - t,
        {
            ids.push(t);
            t += 1;
        }
        let p = ResourcePool {
            rng,
            name_count,
            id_count,
            available_names: names,
            available_ids: ids,
            active_workers: Vec::new(),
        };
        proof {
            assert forall|k2: usize| k2 < name_count implies p.available_names@.contains(k2) by {
                assert(p.available_names@[k2 as int] == k2);
            }
            assert forall|k2: usize| k2 < id_count implies p.available_ids@.contains(k2) by {
                assert(p.available_ids@[k2 as int] == k2);
            }
        }
        p
    }

    /// A full pool over the given slot counts, with slot selection driven by
    /// operating-system entropy.
    pub fn with_entropy(name_count: usize, id_count: usize) -> (p: ResourcePool)
        ensures
            p.inv(),
            p.name_count == name_count,
            p.id_count == id_count,
            p.available_names@.len() == name_count,
            p.available_ids@.len() == id_count,
            forall|j: int| 0 <= j < name_count ==> p.available_names@[j] == j,
            forall|j: int| 0 <= j < id_count ==> p.available_ids@[j] == j,
            p.active_workers@.len() == 0,
    {
        Self::new_with_rng(name_count, id_count, rng_from_entropy())
    }

    /// A full pool over the given slot counts, with slot selection driven by
    /// the given seed; runs with equal seeds draw slots in the same order.
    pub fn with_seed(name_count: usize, id_count: usize, seed: u64) -> (p: ResourcePool)
        ensures
            p.inv(),
            p.name_count == name_count,
            p.id_count == id_count,
            p.available_names@.len() == name_count,
            p.available_ids@.len() == id_count,
            forall|j: int| 0 <= j < name_count ==> p.available_names@[j] == j,
            forall|j: int| 0 <= j < id_count ==> p.available_ids@[j] == j,
            p.active_workers@.len() == 0,
    {
        Self::new_with_rng(name_count, id_count, rng_from_seed(seed))
    }

    /// Takes one name index and one identity index out of the available
    /// sets, both chosen at random, or reports which pool is exhausted.
    ///
    /// Allocation is all-or-nothing: a failure — for either reason — leaves
    /// the pool exactly as it was, so exhausted identities never consume a
    /// name.
    pub fn try_allocate(&mut self) -> (r: Result<(usize, usize), BotCreationError>)
        requires
            old(self).wf(),
        ensures
            final(self).wf(),
            final(self).name_count == old(self).name_count,
            final(self).id_count == old(self).id_count,
            final(self).active_workers@ == old(self).active_workers@,
            r is Err <==> (old(self).available_names@.len() == 0 || old(
                self,
            ).available_ids@.len() == 0),
            old(self).available_names@.len() == 0 ==> r == Err::<(usize, usize), BotCreationError>(
                BotCreationError::OutOfNames,
            ) && *final(self) == *old(self),
            old(self).available_names@.len() > 0 && old(self).available_ids@.len() == 0 ==> r
                == Err::<(usize, usize), BotCreationError>(BotCreationError::OutOfIdentities)
                && *final(self) == *old(self),
            r matches Ok(pair) ==> ({
                &&& old(self).available_names@.contains(pair.0)
                &&& old(self).available_ids@.contains(pair.1)
                &&& pair.0 < old(self).name_count
                &&& pair.1 < old(self).id_count
                &&& final(self).available_names@.len() == old(self).available_names@.len() - 1
                &&& final(self).available_ids@.len() == old(self).available_ids@.len() - 1
                &&& (forall|k: usize|
                    final(self).available_names@.contains(k) <==> (old(
                        self,
                    ).available_names@.contains(k) && k != pair.0))
                &&& (forall|k: usize|
                    final(self).available_ids@.contains(k) <==> (old(
                        self,
                    ).available_ids@.contains(k) && k != pair.1))
            }),
    {
        if self.available_names.len() == 0 {
            return Err(BotCreationError::OutOfNames);
        }
        if self.available_ids.len() == 0 {
            return Err(BotCreationError::OutOfIdentities);
        }
        let ghost names0 = old(self).available_names@;
        let ghost ids0 = old(self).available_ids@;
        shuffle_indices(&mut self.rng, &mut self.available_names);
        proof {
            lemma_permuted_indices(names0, self.available_names@);
            lemma_drop_last_contains(self.available_names@);
        }
        let ghost names_sh = self.available_names@;
        let n = self.available_names.pop().unwrap();
        proof {
            assert(self.available_names@ == names_sh.drop_last());
            assert(names_sh[names_sh.len() - 1] == n);
            assert(names_sh.contains(n));
            assert(names0.contains(n));
            assert(forall|k: usize|
                self.available_names@.contains(k) <==> (names0.contains(k) && k != n));
        }
        shuffle_indices(&mut self.rng, &mut self.available_ids);
        proof {
            lemma_permuted_indices(ids0, self.available_ids@);
            lemma_drop_last_contains(self.available_ids@);
        }
        let ghost ids_sh = self.available_ids@;
        let i = self.available_ids.pop().unwrap();
        proof {
            assert(self.available_ids@ == ids_sh.drop_last());
            assert(ids_sh[ids_sh.len() - 1] == i);
            assert(ids_sh.contains(i));
            assert(ids0.contains(i));
            assert(forall|k: usize|
                self.available_ids@.contains(k) <==> (ids0.contains(k) && k != i));
        }
        proof {
            assert(self.active_workers@ == old(self).active_workers@);
            assert forall|k: usize| self.available_names@.contains(k) implies k
                < self.name_count by {
                assert(names0.contains(k));
            }
            assert forall|k: usize| self.available_ids@.contains(k) implies k
                < self.id_count by {
                assert(ids0.contains(k));
            }
            assert forall|k: usize| self.available_names@.contains(k) implies k
                < self.name_count && !self.name_in_use(k) by {
                assert(names0.contains(k));
                if self.name_in_use(k) {
                    let j = choose|j: int|
                        0 <= j < self.active_workers@.len()
                            && self.active_workers@[j].name_index == k;
                    assert(old(self).active_workers@[j].name_index == k);
                    assert(old(self).name_in_use(k));
                }
            }
            assert forall|k: usize| self.available_ids@.contains(k) implies k < self.id_count
                && !self.id_in_use(k) by {
                assert(ids0.contains(k));
                if self.id_in_use(k) {
                    let j = choose|j: int|
                        0 <= j < self.active_workers@.len() && self.active_workers@[j].id_index
                            == k;
                    assert(old(self).active_workers@[j].id_index == k);
                    assert(old(self).id_in_use(k));
                }
            }
        }
        Ok((n, i))
    }

    /// Records a spawned worker in the registry, under indices that a
    /// preceding allocation took out of the available sets.
    pub fn register(&mut self, entry: WorkerEntry)
        requires
            old(self).wf(),
            entry.name_index < old(self).name_count,
            entry.id_index < old(self).id_count,
            !old(self).available_names@.contains(entry.name_index),
            !old(self).available_ids@.contains(entry.id_index),
            !old(self).name_in_use(entry.name_index),
            !old(self).id_in_use(entry.id_index),
        ensures
            final(self).wf(),
            final(self).name_count == old(self).name_count,
            final(self).id_count == old(self).id_count,
            final(self).available_names@ == old(self).available_names@,
            final(self).available_ids@ == old(self).available_ids@,
            final(self).active_workers@ == old(self).active_workers@.push(entry),
            forall|k: usize|
                final(self).name_in_use(k) <==> (old(self).name_in_use(k) || k
                    == entry.name_index),
            forall|k: usize|
                final(self).id_in_use(k) <==> (old(self).id_in_use(k) || k == entry.id_index),
    {
        self.active_workers.push(entry);
        proof {
            let w0 = old(self).active_workers@;
            let w1 = self.active_workers@;
            assert forall|k: usize|
                self.name_in_use(k) <==> (old(self).name_in_use(k) || k
                    == entry.name_index) by {
                if old(self).name_in_use(k) {
                    let j = choose|j: int| 0 <= j < w0.len() && w0[j].name_index == k;
                    assert(w1[j].name_index == k);
                }
                if k == entry.name_index {
                    assert(w1[w0.len() as int].name_index == k);
                }
                if self.name_in_use(k) {
                    let j = choose|j: int| 0 <= j < w1.len() && w1[j].name_index == k;
                    if j < w0.len() {
                        assert(w0[j].name_index == k);
                    }
                }
            }
            assert forall|k: usize|
                self.id_in_use(k) <==> (old(self).id_in_use(k) || k == entry.id_index) by {
                if old(self).id_in_use(k) {
                    let j = choose|j: int| 0 <= j < w0.len() && w0[j].id_index == k;
                    assert(w1[j].id_index == k);
                }
                if k == entry.id_index {
                    assert(w1[w0.len() as int].id_index == k);
                }
                if self.id_in_use(k) {
                    let j = choose|j: int| 0 <= j < w1.len() && w1[j].id_index == k;
                    if j < w0.len() {
                        assert(w0[j].id_index == k);
                    }
                }
            }
        }
    }

    /// Gives a worker's slots back: removes its registry entry and returns
    /// its name and identity indices to the available sets.
    ///
    /// The caller guarantees single fire — the named worker is registered
    /// and holds exactly these indices — and this is the only place where
    /// pooled resources re-enter circulation.
    pub fn release(&mut self, name: &String, name_index: usize, id_index: usize)
        requires
            old(self).inv(),
            exists|j: int|
                0 <= j < old(self).active_workers@.len() && (#[trigger] old(
                    self,
                ).active_workers@[j]).name@ == name@ && old(self).active_workers@[j].name_index
                    == name_index && old(self).active_workers@[j].id_index == id_index,
        ensures
            final(self).inv(),
            final(self).name_count == old(self).name_count,
            final(self).id_count == old(self).id_count,
            final(self).available_names@ == old(self).available_names@.push(name_index),
            final(self).available_ids@ == old(self).available_ids@.push(id_index),
            exists|j: int|
                0 <= j < old(self).active_workers@.len() && (#[trigger] old(
                    self,
                ).active_workers@[j]).name_index == name_index && old(
                    self,
                ).active_workers@[j].id_index == id_index && final(self).active_workers@ == old(
                    self,
                ).active_workers@.remove(j),
            forall|k: usize|
                final(self).name_in_use(k) <==> (old(self).name_in_use(k) && k != name_index),
            forall|k: usize|
                final(self).id_in_use(k) <==> (old(self).id_in_use(k) && k != id_index),
    {
        let idx = find_by_name_index(&self.active_workers, name_index);
        proof {
            let w0 = old(self).active_workers@;
            let j0 = choose|j: int|
                0 <= j < w0.len() && (#[trigger] w0[j]).name@ == name@ && w0[j].name_index
                    == name_index && w0[j].id_index == id_index;
            assert(j0 == idx as int);
            assert(w0[idx as int].id_index == id_index);
            assert(old(self).name_in_use(name_index));
            assert(old(self).id_in_use(id_index));
            assert(!old(self).available_names@.contains(name_index));
            assert(!old(self).available_ids@.contains(id_index));
            lemma_push_fresh(old(self).available_names@, name_index);
            lemma_push_fresh(old(self).available_ids@, id_index);
        }
        let e = self.active_workers.remove(idx);
        self.available_names.push(name_index);
        self.available_ids.push(id_index);
        proof {
            let w0 = old(self).active_workers@;
            let w1 = self.active_workers@;
            assert(w1 == w0.remove(idx as int));
            assert forall|t: int| 0 <= t < w1.len() implies w1[t] == (if t < idx as int {
                w0[t]
            } else {
                w0[t + 1]
            }) by {}
            assert forall|k: usize|
                self.name_in_use(k) <==> (old(self).name_in_use(k) && k != name_index) by {
                if self.name_in_use(k) {
                    let t = choose|t: int| 0 <= t < w1.len() && w1[t].name_index == k;
                    let t0 = if t < idx as int {
                        t
                    } else {
                        t + 1
                    };
                    assert(w0[t0].name_index == k);
                    assert(t0 != idx as int);
                    assert(w0[idx as int].name_index == name_index);
                    assert(k != name_index);
                }
                if old(self).name_in_use(k) && k != name_index {
                    let t0 = choose|t0: int| 0 <= t0 < w0.len() && w0[t0].name_index == k;
                    assert(t0 != idx as int);
                    let t = if t0 < idx as int {
                        t0
                    } else {
                        t0 - 1
                    };
                    assert(w1[t].name_index == k);
                }
            }
            assert forall|k: usize|
                self.id_in_use(k) <==> (old(self).id_in_use(k) && k != id_index) by {
                if self.id_in_use(k) {
                    let t = choose|t: int| 0 <= t < w1.len() && w1[t].id_index == k;
                    let t0 = if t < idx as int {
                        t
                    } else {
                        t + 1
                    };
                    assert(w0[t0].id_index == k);
                    assert(t0 != idx as int);
                    assert(w0[idx as int].id_index == id_index);
                    assert(w0[t0].name_index != w0[idx as int].name_index);
                    assert(k != id_index);
                }
                if old(self).id_in_use(k) && k != id_index {
                    let t0 = choose|t0: int| 0 <= t0 < w0.len() && w0[t0].id_index == k;
                    assert(t0 != idx as int);
                    let t = if t0 < idx as int {
                        t0
                    } else {
                        t0 - 1
                    };
                    assert(w1[t].id_index == k);
                }
            }
            assert forall|i: int, j: int|
                0 <= i < w1.len() && 0 <= j < w1.len() && i != j implies (#[trigger] w1[i]).name_index
                != (#[trigger] w1[j]).name_index && w1[i].id_index != w1[j].id_index by {
                let i0 = if i < idx as int {
                    i
                } else {
                    i + 1
                };
                let j0 = if j < idx as int {
                    j
                } else {
                    j + 1
                };
                assert(w1[i] == w0[i0]);
                assert(w1[j] == w0[j0]);
                assert(i0 != j0);
                assert(w0[i0].name_index != w0[j0].name_index);
                assert(w0[i0].id_index != w0[j0].id_index);
            }
            assert forall|j: int|
                0 <= j < w1.len() implies (#[trigger] w1[j]).name_index < self.name_count
                && w1[j].id_index < self.id_count by {
                let j0 = if j < idx as int {
                    j
                } else {
                    j + 1
                };
                assert(w1[j] == w0[j0]);
            }
            assert forall|k: usize| self.available_names@.contains(k) implies k
                < self.name_count && !self.name_in_use(k) by {
                assert(old(self).available_names@.contains(k) || k == name_index);
                assert(w0[idx as int].name_index < old(self).name_count);
            }
            assert forall|k: usize| self.available_ids@.contains(k) implies k < self.id_count
                && !self.id_in_use(k) by {
                assert(old(self).available_ids@.contains(k) || k == id_index);
                assert(w0[idx as int].id_index < old(self).id_count);
            }
            assert forall|k: usize| self.available_names@.contains(k) implies k
                < self.name_count by {
                assert(old(self).available_names@.contains(k) || k == name_index);
                assert(w0[idx as int].name_index < old(self).name_count);
            }
            assert forall|k: usize| self.available_ids@.contains(k) implies k
                < self.id_count by {
                assert(old(self).available_ids@.contains(k) || k == id_index);
                assert(w0[idx as int].id_index < old(self).id_count);
            }
            assert forall|k: usize|
                k < self.name_count && !self.name_in_use(k) implies self.available_names@.contains(
                k,
            ) by {
                if k != name_index {
                    assert(!old(self).name_in_use(k));
                    assert(old(self).available_names@.contains(k));
                }
            }
            assert forall|k: usize|
                k < self.id_count && !self.id_in_use(k) implies self.available_ids@.contains(
                k,
            ) by {
                if k != id_index {
                    assert(!old(self).id_in_use(k));
                    assert(old(self).available_ids@.contains(k));
                }
            }
        }
    }

    /// The display name of the active worker serving `channel`, if any:
    /// the admission check behind the one-worker-per-channel rule.
    pub fn channel_in_use(&self, channel: u64) -> (r: Option<String>)
        ensures
            (r is Some) <==> (first_in_channel(self.active_workers@, channel) is Some),
            r matches Some(n) ==> (first_in_channel(self.active_workers@, channel) matches Some(e)
                && n == e.name),
    {
        let len = self.active_workers.len();
        let mut j: usize = 0;
        while j < len
            invariant
                len == self.active_workers@.len(),
                j <= len,
                forall|t: int|
                    0 <= t < j ==> (#[trigger] self.active_workers@[t]).channel != channel,
            decreases len - j,
        {
            if self.active_workers[j].channel == channel {
                proof {
                    lemma_first_in_channel_found(self.active_workers@, channel, j as int);
                }
                return Some(self.active_workers[j].name.clone());
            }
            j += 1;
        }
        proof {
            lemma_first_in_channel_none(self.active_workers@, channel);
        }
        None
    }

    /// How many display-name slots are free.
    pub fn names_available(&self) -> (r: usize)
        ensures
            r == self.available_names@.len(),
    {
        self.available_names.len()
    }

    /// How many identity slots are free.
    pub fn ids_available(&self) -> (r: usize)
        ensures
            r == self.available_ids@.len(),
    {
        self.available_ids.len()
    }

    /// How many workers are active.
    pub fn active_count(&self) -> (r: usize)
        ensures
            r == self.active_workers@.len(),
    {
        self.active_workers.len()
    }

    /// Whether name slot `k` is currently free.
    pub fn name_is_available(&self, k: usize) -> (r: bool)
        ensures
            r == self.available_names@.contains(k),
    {
        scan_for(&self.available_names, k)
    }

    /// Whether identity slot `k` is currently free.
    pub fn id_is_available(&self, k: usize) -> (r: bool)
        ensures
            r == self.available_ids@.contains(k),
    {
        scan_for(&self.available_ids, k)
    }
}

/// Whether the index sequence holds `k`.
fn scan_for(v: &Vec<usize>, k: usize) -> (r: bool)
    ensures
        r == v@.contains(k),
{
    let n = v.len();
    let mut j: usize = 0;
    while j < n
        invariant
            n == v@.len(),
            j <= n,
            forall|t: int| 0 <= t < j ==> v@[t] != k,
        decreases n - j,
    {
        if v[j] == k {
            proof {
                assert(v@[j as int] == k);
            }
            return true;
        }
        j += 1;
    }
    proof {
        if v@.contains(k) {
            let t = choose|t: int| 0 <= t < v@.len() && v@[t] == k;
            assert(false);
        }
    }
    false
}

/// The disjoint-union reading of the pool invariant: counting multiplicity,
/// a configured name index occurs exactly once across the available set and
/// the active registry together — never nowhere, never twice — and likewise
/// an identity index. Allocation and release preserve `inv`, so this holds
/// at every point of any sequence of such operations.
pub proof fn lemma_pool_partition(p: ResourcePool, k: usize)
    requires
        p.inv(),
    ensures
        k < p.name_count ==> p.available_names@.to_multiset().count(k) + (if p.name_in_use(k) {
            1nat
        } else {
            0nat
        }) == 1,
        k < p.id_count ==> p.available_ids@.to_multiset().count(k) + (if p.id_in_use(k) {
            1nat
        } else {
            0nat
        }) == 1,
        forall|i: int, j: int|
            0 <= i < p.active_workers@.len() && 0 <= j < p.active_workers@.len() && (#[trigger] p
                .active_workers@[i]).name_index == (#[trigger] p.active_workers@[j]).name_index
                ==> i == j,
{
    vstd::seq_lib::to_multiset_contains(p.available_names@, k);
    vstd::seq_lib::to_multiset_contains(p.available_ids@, k);
    if p.available_names@.contains(k) {
        p.available_names@.lemma_multiset_has_no_duplicates();
    }
    if p.available_ids@.contains(k) {
        p.available_ids@.lemma_multiset_has_no_duplicates();
    }
}

/// A grant followed by the release of the granted worker returns the pool
/// to its exact pre-allocation state: the same registry and the same sets
/// of available indices.
pub proof fn lemma_release_restores(
    p0: ResourcePool,
    p1: ResourcePool,
    p2: ResourcePool,
    e: WorkerEntry,
)
    requires
        p0.inv(),
        p0.available_names@.contains(e.name_index),
        p0.available_ids@.contains(e.id_index),
        p1.active_workers@ == p0.active_workers@.push(e),
        forall|k: usize|
            p1.available_names@.contains(k) <==> (p0.available_names@.contains(k) && k
                != e.name_index),
        forall|k: usize|
            p1.available_ids@.contains(k) <==> (p0.available_ids@.contains(k) && k != e.id_index),
        p1.available_names@.len() == p0.available_names@.len() - 1,
        p1.available_ids@.len() == p0.available_ids@.len() - 1,
        exists|j: int|
            0 <= j < p1.active_workers@.len() && (#[trigger] p1.active_workers@[j]).name_index
                == e.name_index && p1.active_workers@[j].id_index == e.id_index
                && p2.active_workers@ == p1.active_workers@.remove(j),
        p2.available_names@ == p1.available_names@.push(e.name_index),
        p2.available_ids@ == p1.available_ids@.push(e.id_index),
    ensures
        p2.active_workers@ == p0.active_workers@,
        p2.available_names@.len() == p0.available_names@.len(),
        p2.available_ids@.len() == p0.available_ids@.len(),
        forall|k: usize| p2.available_names@.contains(k) <==> p0.available_names@.contains(k),
        forall|k: usize| p2.available_ids@.contains(k) <==> p0.available_ids@.contains(k),
{
    let w0 = p0.active_workers@;
    let w1 = p1.active_workers@;
    let jr = choose|j: int|
        0 <= j < w1.len() && (#[trigger] w1[j]).name_index == e.name_index && w1[j].id_index
            == e.id_index && p2.active_workers@ == w1.remove(j);
    if jr < w0.len() {
        assert(w1[jr] == w0[jr]);
        assert(p0.name_in_use(e.name_index));
        assert(!p0.available_names@.contains(e.name_index));
        assert(false);
    }
    assert(jr == w0.len());
    assert(p2.active_workers@ =~= w0);
    assert forall|k: usize|
        p2.available_names@.contains(k) <==> p0.available_names@.contains(k) by {
        if p2.available_names@.contains(k) {
            let j = choose|j: int|
                0 <= j < p2.available_names@.len() && p2.available_names@[j] == k;
            if j < p1.available_names@.len() {
                assert(p1.available_names@[j] == k);
                assert(p1.available_names@.contains(k));
            } else {
                assert(k == e.name_index);
            }
        }
        if p0.available_names@.contains(k) {
            if k == e.name_index {
                assert(p2.available_names@[p1.available_names@.len() as int] == k);
            } else {
                assert(p1.available_names@.contains(k));
                let j = choose|j: int|
                    0 <= j < p1.available_names@.len() && p1.available_names@[j] == k;
                assert(p2.available_names@[j] == k);
            }
        }
    }
    assert forall|k: usize|
        p2.available_ids@.contains(k) <==> p0.available_ids@.contains(k) by {
        if p2.available_ids@.contains(k) {
            let j = choose|j: int| 0 <= j < p2.available_ids@.len() && p2.available_ids@[j] == k;
            if j < p1.available_ids@.len() {
                assert(p1.available_ids@[j] == k);
                assert(p1.available_ids@.contains(k));
            } else {
                assert(k == e.id_index);
            }
        }
        if p0.available_ids@.contains(k) {
            if k == e.id_index {
                assert(p2.available_ids@[p1.available_ids@.len() as int] == k);
            } else {
                assert(p1.available_ids@.contains(k));
                let j = choose|j: int|
                    0 <= j < p1.available_ids@.len() && p1.available_ids@[j] == k;
                assert(p2.available_ids@[j] == k);
            }
        }
    }
}

} // verus!
