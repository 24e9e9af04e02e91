//! Shard bookkeeping of a distributed merge: round-robin assignment of each
//! tensor's shards to the cluster's nodes, and owner lookup.
use vstd::prelude::*;
use crate::text::str_eq;

verus! {

/// Role of a node in the cluster.
#[derive(Debug, Clone)]
pub enum NodeRole {
    Coordinator,
    Worker { shard_ids: Vec<usize> },
}

/// Round-robin owners of `world_size` shards: shard `i` goes to node
/// `i mod (number of nodes)`.
pub open spec fn ring_owners(nodes: Seq<String>, world_size: nat) -> Seq<Seq<char>> {
    Seq::new(world_size, |i: int| nodes[i % (nodes.len() as int)]@)
}

/// View of a list of node ids.
pub open spec fn ids_view(v: Seq<String>) -> Seq<Seq<char>> {
    v.map_values(|s: String| s@)
}

/// `after` is `before` with every named tensor's shards assigned round-robin.
pub open spec fn assigned(
    before: Map<Seq<char>, Seq<Seq<char>>>,
    after: Map<Seq<char>, Seq<Seq<char>>>,
    names: Seq<String>,
    nodes: Seq<String>,
    world_size: nat,
) -> bool {
    &&& forall|k: Seq<char>|
        #[trigger] after.contains_key(k) == (before.contains_key(k) || exists|j: int|
            0 <= j < names.len() && names[j]@ == k)
    &&& forall|k: Seq<char>|
        #[trigger] after.contains_key(k) ==> after[k] == if exists|j: int| 0 <= j < names.len() && names[j]@ == k {
            ring_owners(nodes, world_size)
        } else {
            before[k]
        }
}

/// After an assignment, the owner of shard `i < world_size` of an assigned
/// tensor is node `i mod (number of nodes)`, and tensors not named keep
/// their owners.
pub proof fn lemma_owner_after_assign(
    before: Map<Seq<char>, Seq<Seq<char>>>,
    after: Map<Seq<char>, Seq<Seq<char>>>,
    names: Seq<String>,
    nodes: Seq<String>,
    world_size: nat,
    key: Seq<char>,
    i: int,
)
    requires
        nodes.len() > 0,
        assigned(before, after, names, nodes, world_size),
    ensures
        (exists|j: int| 0 <= j < names.len() && names[j]@ == key) && 0 <= i < world_size ==> after.contains_key(key)
            && i < after[key].len() && after[key][i] == nodes[i % (nodes.len() as int)]@,
        !(exists|j: int| 0 <= j < names.len() && names[j]@ == key) ==> (after.contains_key(key) == before.contains_key(
            key,
        ) && (before.contains_key(key) ==> after[key] == before[key])),
{
    assert(after.contains_key(key) == (before.contains_key(key) || exists|j: int|
        0 <= j < names.len() && names[j]@ == key));
}

/// Shard owners by tensor name.
pub struct ShardTable {
    entries: Vec<(String, Vec<String>)>,
}

/// Entry `i` is the first one for its key.
pub open spec fn keys_distinct(e: Seq<(String, Vec<String>)>) -> bool {
    forall|i: int, j: int| 0 <= i < j < e.len() ==> (#[trigger] e[i]).0@ != (#[trigger] e[j]).0@
}

impl View for ShardTable {
    type V = Map<Seq<char>, Seq<Seq<char>>>;

    closed spec fn view(&self) -> Map<Seq<char>, Seq<Seq<char>>> {
        Map::new(
            |k: Seq<char>| exists|i: int| 0 <= i < self.entries@.len() && (#[trigger] self.entries@[i]).0@ == k,
            |k: Seq<char>|
                ids_view(
                    self.entries@[choose|i: int|
                        0 <= i < self.entries@.len() && (#[trigger] self.entries@[i]).0@ == k].1@,
                ),
        )
    }
}

impl ShardTable {
    /// Distinct keys.
    pub closed spec fn wf(&self) -> bool {
        keys_distinct(self.entries@)
    }

    /// An empty table.
    pub fn new() -> (t: Self)
        ensures
            t.wf(),
            t@ == Map::<Seq<char>, Seq<Seq<char>>>::empty(),
    {
        let t = ShardTable { entries: Vec::new() };
        assert(t@ =~= Map::<Seq<char>, Seq<Seq<char>>>::empty());
        t
    }

    fn index_of(&self, name: &str) -> (r: Option<usize>)
        requires
            self.wf(),
        ensures
            match r {
                Some(i) => i < self.entries@.len() && self.entries@[i as int].0@ == name@,
                None => forall|i: int| 0 <= i < self.entries@.len() ==> (#[trigger] self.entries@[i]).0@ != name@,
            },
    {
        let mut i: usize = 0;
        while i < self.entries.len()
            invariant
                i <= self.entries@.len(),
                forall|k: int| 0 <= k < i ==> (#[trigger] self.entries@[k]).0@ != name@,
            decreases self.entries.len() - i,
        {
            if str_eq(self.entries[i].0.as_str(), name) {
                return Some(i);
            }
            i = i + 1;
        }
        None
    }

    /// Owner of shard `shard_id` of a tensor, if assigned.
    pub fn get_shard_owner(&self, tensor_name: &str, shard_id: usize) -> (r: Option<String>)
        requires
            self.wf(),
        ensures
            match r {
                Some(o) => self@.contains_key(tensor_name@) && shard_id < self@[tensor_name@].len() && o@
                    == self@[tensor_name@][shard_id as int],
                None => !self@.contains_key(tensor_name@) || shard_id >= self@[tensor_name@].len(),
            },
    {
        match self.index_of(tensor_name) {
            Some(i) => {
                let ghost k = tensor_name@;
                proof {
                    assert(self@.contains_key(k));
                    let c = choose|j: int| 0 <= j < self.entries@.len() && (#[trigger] self.entries@[j]).0@ == k;
                    if c != i {
                        if c < i {
                            assert(self.entries@[c].0@ != self.entries@[i as int].0@);
                        } else {
                            assert(self.entries@[i as int].0@ != self.entries@[c].0@);
                        }
                    }
                    assert(self@[k] == ids_view(self.entries@[i as int].1@));
                }
                let nodes = &self.entries[i].1;
                if shard_id < nodes.len() {
                    Some(nodes[shard_id].clone())
                } else {
                    None
                }
            },
            None => {
                assert(!self@.contains_key(tensor_name@));
                None
            },
        }
    }

    /// Assigns every tensor's `world_size` shards round-robin over
    /// `node_ids`, replacing earlier assignments; nothing changes when there
    /// are no nodes.
    pub fn assign_shards(&mut self, tensor_names: &[String], node_ids: &[String], world_size: usize)
        requires
            old(self).wf(),
        ensures
            final(self).wf(),
            node_ids@.len() == 0 ==> final(self)@ == old(self)@,
            node_ids@.len() > 0 ==> assigned(old(self)@, final(self)@, tensor_names@, node_ids@, world_size as nat),
    {
        if node_ids.len() == 0 {
            return;
        }
        let n = node_ids.len();
        let mut owners: Vec<String> = Vec::new();
        let mut s: usize = 0;
        while s < world_size
            invariant
                n == node_ids@.len(),
                n > 0,
                s <= world_size,
                owners@.len() == s,
                ids_view(owners@) == ring_owners(node_ids@, s as nat),
            decreases world_size - s,
        {
            let ghost prev = owners@;
            let idx = s % n;
            let o = node_ids[idx].clone();
            owners.push(o);
            proof {
                assert forall|i: int| 0 <= i < s + 1 implies #[trigger] ids_view(owners@)[i] == ring_owners(
                    node_ids@,
                    (s + 1) as nat,
                )[i] by {
                    if i < s {
                        assert(owners@[i] == prev[i]);
                        assert(ids_view(prev)[i] == ring_owners(node_ids@, s as nat)[i]);
                    } else {
                        assert(owners@[i] == o);
                    }
                }
                assert(ids_view(owners@) =~= ring_owners(node_ids@, (s + 1) as nat));
            }
            s = s + 1;
        }
        let ghost old_view = self@;
        let ghost old_entries = self.entries@;
        let mut t: usize = 0;
        while t < tensor_names.len()
            invariant
                keys_distinct(self.entries@),
                t <= tensor_names@.len(),
                ids_view(owners@) == ring_owners(node_ids@, world_size as nat),
                forall|k: Seq<char>|
                    #[trigger] self@.contains_key(k) == (old_view.contains_key(k) || exists|j: int|
                        0 <= j < t && tensor_names@[j]@ == k),
                forall|k: Seq<char>|
                    #[trigger] self@.contains_key(k) ==> self@[k] == if exists|j: int|
                        0 <= j < t && tensor_names@[j]@ == k {
                        ring_owners(node_ids@, world_size as nat)
                    } else {
                        old_view[k]
                    },
            decreases tensor_names.len() - t,
        {
            let name = &tensor_names[t];
            let ghost before = self@;
            let ghost bt = *self;
            let ghost be = self.entries@;
            let ghost mut pos: int = 0;
            match self.index_of(name.as_str()) {
                Some(i) => {
                    self.entries.set(i, (name.clone(), owners.clone()));
                    proof {
                        pos = i as int;
                        assert forall|a: int, b: int|
                            0 <= a < b < self.entries@.len() implies (#[trigger] self.entries@[a]).0@
                            != (#[trigger] self.entries@[b]).0@ by {
                            assert(be[a].0@ != be[b].0@);
                        }
                    }
                },
                None => {
                    self.entries.push((name.clone(), owners.clone()));
                    proof {
                        pos = be.len() as int;
                        assert forall|a: int, b: int|
                            0 <= a < b < self.entries@.len() implies (#[trigger] self.entries@[a]).0@
                            != (#[trigger] self.entries@[b]).0@ by {
                            if b < be.len() {
                                assert(be[a].0@ != be[b].0@);
                            } else {
                                assert(be[a].0@ != name@);
                            }
                        }
                    }
                },
            }
            proof {
                let nk = name@;
                assert(self.entries@[pos].0@ == nk);
                assert(ids_view(self.entries@[pos].1@) == ids_view(owners@));
                lemma_view_entry(*self, pos);
                assert forall|j: int| 0 <= j < self.entries@.len() && j != pos implies j < be.len()
                    && #[trigger] self.entries@[j] == be[j] by {}
                assert forall|k: Seq<char>| k != nk implies (#[trigger] self@.contains_key(k) == before.contains_key(k)
                    && (self@.contains_key(k) ==> self@[k] == before[k])) by {
                    if before.contains_key(k) {
                        let j = choose|j: int| 0 <= j < be.len() && (#[trigger] be[j]).0@ == k;
                        lemma_view_entry(bt, j);
                        assert(j != pos);
                        assert(self.entries@[j] == be[j]);
                        lemma_view_entry(*self, j);
                    }
                    if self@.contains_key(k) {
                        let j = choose|j: int| 0 <= j < self.entries@.len() && (#[trigger] self.entries@[j]).0@ == k;
                        assert(j != pos);
                        assert(be[j] == self.entries@[j]);
                        lemma_view_entry(bt, j);
                    }
                }
                assert forall|k: Seq<char>|
                    #[trigger] self@.contains_key(k) == (old_view.contains_key(k) || exists|j: int|
                        0 <= j < t + 1 && tensor_names@[j]@ == k) by {
                    if k == nk {
                        assert(tensor_names@[t as int]@ == k);
                    } else {
                        if exists|j: int| 0 <= j < t + 1 && tensor_names@[j]@ == k {
                            let j = choose|j: int| 0 <= j < t + 1 && tensor_names@[j]@ == k;
                            assert(j < t);
                        }
                    }
                }
                assert forall|k: Seq<char>|
                    #[trigger] self@.contains_key(k) implies self@[k] == if exists|j: int|
                        0 <= j < t + 1 && tensor_names@[j]@ == k {
                        ring_owners(node_ids@, world_size as nat)
                    } else {
                        old_view[k]
                    } by {
                    if k == nk {
                        assert(tensor_names@[t as int]@ == k);
                    } else {
                        if exists|j: int| 0 <= j < t + 1 && tensor_names@[j]@ == k {
                            let j = choose|j: int| 0 <= j < t + 1 && tensor_names@[j]@ == k;
                            assert(j < t);
                        }
                    }
                }
            }
            t = t + 1;
        }
    }
}

/// In a table with distinct keys, each entry's key is present with that
/// entry's owners.
proof fn lemma_view_entry(t: ShardTable, i: int)
    requires
        keys_distinct(t.entries@),
        0 <= i < t.entries@.len(),
    ensures
        t@.contains_key(t.entries@[i].0@),
        t@[t.entries@[i].0@] == ids_view(t.entries@[i].1@),
{
    let k = t.entries@[i].0@;
    assert(t@.contains_key(k));
    let c = choose|j: int| 0 <= j < t.entries@.len() && (#[trigger] t.entries@[j]).0@ == k;
    if c < i {
        assert(t.entries@[c].0@ != t.entries@[i].0@);
    } else if c > i {
        assert(t.entries@[i].0@ != t.entries@[c].0@);
    }
}

/// Element range of shard `shard_id` when a tensor of `len` elements is cut
/// into four equal shards (the last elements beyond `4 * (len / 4)` belong
/// to no shard).
pub fn shard_bounds(len: usize, shard_id: usize) -> (r: (usize, usize))
    requires
        shard_id < usize::MAX,
        (shard_id + 1) * (len / 4) <= usize::MAX,
    ensures
        r.0 == shard_id * (len / 4),
        r.1 == if (shard_id + 1) * (len / 4) <= len {
            (shard_id + 1) * (len / 4)
        } else {
            len as int
        },
{
    let q = len / 4;
    assert(0 <= shard_id * q <= (shard_id + 1) * q) by (nonlinear_arith)
        requires
            q >= 0,
    ;
    let start = shard_id * q;
    let end = (shard_id + 1) * q;
    (start, if end <= len {
        end
    } else {
        len
    })
}

} // verus!
