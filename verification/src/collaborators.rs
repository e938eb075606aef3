//! Who takes part in a shared project.
use crate::ids::{PeerId, ReplicaId};
use vstd::prelude::*;

verus! {

/// A participant of a shared project.
#[derive(Clone, Copy, Debug, PartialEq, Eq, Structural)]
pub struct Collaborator {
    pub peer_id: PeerId,
    pub replica_id: ReplicaId,
    pub user_id: u64,
    /// Whether the participant shares the project.
    pub is_host: bool,
}

/// The participants, each under the identifier by which it is known now.
#[derive(Debug)]
pub struct Collaborators {
    entries: Vec<(PeerId, Collaborator)>,
}

spec fn has_key(entries: Seq<(PeerId, Collaborator)>, key: PeerId) -> bool {
    exists|i: int| 0 <= i < entries.len() && (#[trigger] entries[i]).0 == key
}

spec fn index_of(entries: Seq<(PeerId, Collaborator)>, key: PeerId) -> int {
    choose|i: int| 0 <= i < entries.len() && (#[trigger] entries[i]).0 == key
}

spec fn distinct(entries: Seq<(PeerId, Collaborator)>) -> bool {
    forall|i: int, j: int|
        0 <= i < j < entries.len() ==> (#[trigger] entries[i]).0 != (#[trigger] entries[j]).0
}

spec fn as_map(entries: Seq<(PeerId, Collaborator)>) -> Map<PeerId, Collaborator> {
    Map::new(|key: PeerId| has_key(entries, key), |key: PeerId| entries[index_of(entries, key)].1)
}

proof fn lemma_at(entries: Seq<(PeerId, Collaborator)>, i: int)
    requires
        distinct(entries),
        0 <= i < entries.len(),
    ensures
        as_map(entries).contains_key(entries[i].0),
        as_map(entries)[entries[i].0] == entries[i].1,
{
    let key = entries[i].0;
    assert(has_key(entries, key));
    let k = index_of(entries, key);
    assert(entries[k].0 == key);
    if k < i {
        assert(entries[k].0 != entries[i].0);
    } else if i < k {
        assert(entries[i].0 != entries[k].0);
    }
}

impl View for Collaborators {
    type V = Map<PeerId, Collaborator>;

    closed spec fn view(&self) -> Map<PeerId, Collaborator> {
        as_map(self.entries@)
    }
}

impl Collaborators {
    /// No identifier stands twice.
    pub closed spec fn wf(&self) -> bool {
        distinct(self.entries@)
    }

    /// Nobody.
    pub fn new() -> (res: Self)
        ensures
            res.wf(),
            res@ == Map::<PeerId, Collaborator>::empty(),
    {
        let res = Collaborators { entries: Vec::new() };
        assert(res@ =~= Map::empty());
        res
    }

    /// The number of participants.
    pub fn len(&self) -> (n: usize)
        requires
            self.wf(),
        ensures
            self@.dom().finite(),
            n == self@.len(),
    {
        proof {
            lemma_len(self.entries@);
        }
        self.entries.len()
    }

    fn position(&self, key: &PeerId) -> (res: Option<usize>)
        ensures
            match res {
                Some(i) => i < self.entries.len() && self.entries[i as int].0 == *key,
                None => !has_key(self.entries@, *key),
            },
    {
        let mut i: usize = 0;
        while i < self.entries.len()
            invariant
                i <= self.entries.len(),
                forall|j: int| 0 <= j < i ==> (#[trigger] self.entries@[j]).0 != *key,
            decreases self.entries.len() - i,
        {
            if self.entries[i].0 == *key {
                return Some(i);
            }
            i = i + 1;
        }
        None
    }

    /// The participant with the identifier.
    pub fn get(&self, key: &PeerId) -> (res: Option<Collaborator>)
        requires
            self.wf(),
        ensures
            res == (if self@.contains_key(*key) {
                Some(self@[*key])
            } else {
                None
            }),
    {
        match self.position(key) {
            Some(i) => {
                proof {
                    lemma_at(self.entries@, i as int);
                }
                Some(self.entries[i].1)
            },
            None => None,
        }
    }

    /// Whether there is a participant with the identifier.
    pub fn contains_key(&self, key: &PeerId) -> (res: bool)
        requires
            self.wf(),
        ensures
            res == self@.contains_key(*key),
    {
        self.get(key).is_some()
    }

    /// Puts a participant under an identifier.
    pub fn insert(&mut self, key: PeerId, value: Collaborator)
        requires
            old(self).wf(),
        ensures
            final(self).wf(),
            final(self)@ == old(self)@.insert(key, value),
    {
        let ghost before = self.entries@;
        match self.position(&key) {
            Some(i) => {
                self.entries.set(i, (key, value));
                proof {
                    let after = self.entries@;
                    assert(after =~= before.update(i as int, (key, value)));
                    assert forall|k: PeerId|
                        as_map(after).contains_key(k) == as_map(before).insert(key, value).contains_key(
                            k,
                        ) by {
                        if has_key(before, k) {
                            let j = index_of(before, k);
                            assert(after[j].0 == k);
                        }
                        if has_key(after, k) {
                            let j = index_of(after, k);
                            assert(before[j].0 == k);
                        }
                        assert(after[i as int].0 == key);
                    }
                    assert forall|k: PeerId| #[trigger]
                        as_map(after).contains_key(k) implies as_map(after)[k] == as_map(
                        before,
                    ).insert(key, value)[k] by {
                        let j = index_of(after, k);
                        lemma_at(after, j);
                        lemma_at(before, j);
                        lemma_at(after, i as int);
                    }
                    assert(as_map(after) =~= as_map(before).insert(key, value));
                }
            },
            None => {
                self.entries.push((key, value));
                proof {
                    let after = self.entries@;
                    assert forall|j: int| 0 <= j < before.len() implies (#[trigger] after[j]).0
                        != key by {
                        assert(after[j] == before[j]);
                    }
                    assert(distinct(after));
                    lemma_push(before, key, value);
                }
            },
        }
    }

    /// Takes out the participant with the identifier.
    pub fn remove(&mut self, key: &PeerId) -> (res: Option<Collaborator>)
        requires
            old(self).wf(),
        ensures
            final(self).wf(),
            final(self)@ == old(self)@.remove(*key),
            res == (if old(self)@.contains_key(*key) {
                Some(old(self)@[*key])
            } else {
                None
            }),
    {
        let ghost before = self.entries@;
        match self.position(key) {
            Some(i) => {
                let (_, value) = self.entries.remove(i);
                proof {
                    let after = self.entries@;
                    let p = i as int;
                    assert(after =~= before.remove(p));
                    assert forall|j: int| 0 <= j < after.len() implies #[trigger] after[j] == before[if j
                        < p {
                        j
                    } else {
                        j + 1
                    }] by {}
                    assert(distinct(after));
                    lemma_at(before, p);
                    assert forall|k: PeerId|
                        as_map(after).contains_key(k) == as_map(before).remove(*key).contains_key(k) by {
                        if has_key(before, k) && k != *key {
                            let j = index_of(before, k);
                            assert(after[if j < p {
                                j
                            } else {
                                j - 1
                            }].0 == k);
                        }
                        if has_key(after, k) {
                            let j = index_of(after, k);
                            let j2 = if j < p {
                                j
                            } else {
                                j + 1
                            };
                            assert(before[j2].0 == k);
                            assert(before[p].0 == *key);
                        }
                    }
                    assert forall|k: PeerId| #[trigger]
                        as_map(after).contains_key(k) implies as_map(after)[k] == as_map(
                        before,
                    ).remove(*key)[k] by {
                        let j = index_of(after, k);
                        let j2 = if j < p {
                            j
                        } else {
                            j + 1
                        };
                        lemma_at(after, j);
                        lemma_at(before, j2);
                    }
                    assert(as_map(after) =~= as_map(before).remove(*key));
                }
                Some(value)
            },
            None => {
                assert(self@.remove(*key) =~= self@);
                None
            },
        }
    }

    /// Takes out everybody.
    pub fn clear(&mut self)
        ensures
            final(self).wf(),
            final(self)@ == Map::<PeerId, Collaborator>::empty(),
    {
        self.entries.clear();
        assert(self@ =~= Map::empty());
    }

    /// The identifiers, each once.
    pub fn keys(&self) -> (keys: Vec<PeerId>)
        requires
            self.wf(),
        ensures
            keys@.no_duplicates(),
            forall|key: PeerId| keys@.contains(key) <==> self@.contains_key(key),
    {
        let mut keys: Vec<PeerId> = Vec::new();
        let mut i: usize = 0;
        while i < self.entries.len()
            invariant
                i <= self.entries.len(),
                keys@.len() == i,
                forall|j: int| 0 <= j < i ==> keys@[j] == (#[trigger] self.entries@[j]).0,
            decreases self.entries.len() - i,
        {
            keys.push(self.entries[i].0);
            i = i + 1;
        }
        proof {
            let entries = self.entries@;
            assert forall|a: int, b: int| 0 <= a < keys.len() && 0 <= b < keys.len() && a
                != b implies keys@[a] != keys@[b] by {
                if a < b {
                    assert(entries[a].0 != entries[b].0);
                } else {
                    assert(entries[b].0 != entries[a].0);
                }
            }
            assert forall|key: PeerId| keys@.contains(key) <==> self@.contains_key(key) by {
                if keys@.contains(key) {
                    let j = choose|j: int| 0 <= j < keys.len() && keys@[j] == key;
                    lemma_at(entries, j);
                }
                if self@.contains_key(key) {
                    let j = index_of(entries, key);
                    assert(keys@[j] == key);
                }
            }
        }
        keys
    }

    /// A participant who shares the project.
    pub fn host(&self) -> (res: Option<Collaborator>)
        requires
            self.wf(),
        ensures
            match res {
                Some(host) => host.is_host && self@.contains_value(host),
                None => forall|key: PeerId| #[trigger]
                    self@.contains_key(key) ==> !self@[key].is_host,
            },
    {
        let mut i: usize = 0;
        while i < self.entries.len()
            invariant
                self.wf(),
                i <= self.entries.len(),
                forall|j: int| 0 <= j < i ==> !(#[trigger] self.entries@[j]).1.is_host,
            decreases self.entries.len() - i,
        {
            if self.entries[i].1.is_host {
                proof {
                    lemma_at(self.entries@, i as int);
                }
                return Some(self.entries[i].1);
            }
            i = i + 1;
        }
        None
    }
}

proof fn lemma_push(before: Seq<(PeerId, Collaborator)>, key: PeerId, value: Collaborator)
    requires
        distinct(before),
        !has_key(before, key),
    ensures
        distinct(before.push((key, value))),
        as_map(before.push((key, value))) == as_map(before).insert(key, value),
{
    let after = before.push((key, value));
    assert forall|j: int| 0 <= j < before.len() implies (#[trigger] after[j]).0 != key by {
        assert(after[j] == before[j]);
    }
    assert(distinct(after));
    let n = before.len() as int;
    assert(after[n] == (key, value));
    assert forall|k: PeerId|
        as_map(after).contains_key(k) == as_map(before).insert(key, value).contains_key(k) by {
        if has_key(before, k) {
            let j = index_of(before, k);
            assert(after[j].0 == k);
        }
        if has_key(after, k) {
            let j = index_of(after, k);
            if j < n {
                assert(before[j].0 == k);
            }
        }
    }
    assert forall|k: PeerId| #[trigger] as_map(after).contains_key(k) implies as_map(after)[k]
        == as_map(before).insert(key, value)[k] by {
        let j = index_of(after, k);
        lemma_at(after, j);
        lemma_at(after, n);
        if j < n {
            lemma_at(before, j);
        }
    }
    assert(as_map(after) =~= as_map(before).insert(key, value));
}

proof fn lemma_len(entries: Seq<(PeerId, Collaborator)>)
    requires
        distinct(entries),
    ensures
        as_map(entries).dom().finite(),
        as_map(entries).len() == entries.len(),
    decreases entries.len(),
{
    if entries.len() == 0 {
        assert(as_map(entries) =~= Map::empty());
    } else {
        let before = entries.drop_last();
        let (key, value) = entries.last();
        assert forall|j: int| 0 <= j < before.len() implies (#[trigger] before[j]).0 != key by {
            assert(entries[j].0 != entries[entries.len() - 1].0);
        }
        assert forall|i: int, j: int| 0 <= i < j < before.len() implies (#[trigger] before[i]).0
            != (#[trigger] before[j]).0 by {
            assert(entries[i].0 != entries[j].0);
        }
        lemma_len(before);
        lemma_push(before, key, value);
        assert(before.push((key, value)) =~= entries);
    }
}

} // verus!
