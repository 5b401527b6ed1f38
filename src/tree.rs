//! Account leaves and the sparse Merkle balance tree over them.
use vstd::prelude::*;
use std::collections::HashMap;
use crate::params::BALANCE_TREE_DEPTH;

verus! {

broadcast use vstd::std_specs::hash::group_hash_axioms;

/// A scalar of the circuit's field, as two 128-bit halves of its big-endian form.
#[derive(Clone, Copy, Debug, PartialEq, Eq, Structural)]
pub struct Fr {
    pub hi: u128,
    pub lo: u128,
}

impl Fr {
    pub open spec fn spec_zero() -> Fr {
        Fr { hi: 0, lo: 0 }
    }

    pub fn zero() -> (r: Fr)
        ensures
            r == Fr::spec_zero(),
    {
        Fr { hi: 0, lo: 0 }
    }
}

/// An account leaf: balance, nonce and the two coordinates of its signing key.
#[derive(Clone, Copy, Debug, PartialEq, Eq, Structural)]
pub struct Account {
    pub balance: u128,
    pub nonce: u32,
    pub pub_x: Fr,
    pub pub_y: Fr,
}

impl Account {
    /// The leaf at every position that was never set.
    pub open spec fn spec_empty() -> Account {
        Account { balance: 0, nonce: 0, pub_x: Fr::spec_zero(), pub_y: Fr::spec_zero() }
    }

    pub fn empty() -> (r: Account)
        ensures
            r == Account::spec_empty(),
    {
        Account { balance: 0, nonce: 0, pub_x: Fr::zero(), pub_y: Fr::zero() }
    }
}

/// The hash and curve of the circuit that proofs are made for: the leaf hash, the
/// two-to-one compression at each level of the tree, and the check that a key's
/// coordinates lie on the curve. Each depends on its arguments alone.
pub trait CircuitParams {
    spec fn spec_hash_leaf(leaf: Account) -> Fr;

    spec fn spec_compress(level: nat, left: Fr, right: Fr) -> Fr;

    spec fn spec_is_on_curve(x: Fr, y: Fr) -> bool;

    fn hash_leaf(&self, leaf: &Account) -> (r: Fr)
        ensures
            r == Self::spec_hash_leaf(*leaf),
    ;

    /// Hash of a node from its two children, which stand at `level`.
    fn compress(&self, level: usize, left: &Fr, right: &Fr) -> (r: Fr)
        ensures
            r == Self::spec_compress(level as nat, *left, *right),
    ;

    fn is_on_curve(&self, x: &Fr, y: &Fr) -> (r: bool)
        ensures
            r == Self::spec_is_on_curve(*x, *y),
    ;
}

/// The leaf at position `id`: the stored one, or the empty leaf.
pub open spec fn leaf_at(leaves: Map<u32, Account>, id: int) -> Account {
    if 0 <= id <= u32::MAX && leaves.contains_key(id as u32) {
        leaves[id as u32]
    } else {
        Account::spec_empty()
    }
}

/// Hash of the node at `level` (leaves at 0) and position `index` within it.
pub open spec fn node_hash<P: CircuitParams>(level: nat, index: int, leaves: Map<u32, Account>) -> Fr
    decreases level,
{
    if level == 0 {
        P::spec_hash_leaf(leaf_at(leaves, index))
    } else {
        P::spec_compress(
            (level - 1) as nat,
            node_hash::<P>((level - 1) as nat, 2 * index, leaves),
            node_hash::<P>((level - 1) as nat, 2 * index + 1, leaves),
        )
    }
}

/// Hash of a node at `level` over empty leaves only.
pub open spec fn empty_hash<P: CircuitParams>(level: nat) -> Fr
    decreases level,
{
    if level == 0 {
        P::spec_hash_leaf(Account::spec_empty())
    } else {
        P::spec_compress((level - 1) as nat, empty_hash::<P>((level - 1) as nat), empty_hash::<P>((level - 1) as nat))
    }
}

/// Root hash of the tree holding `leaves`.
pub open spec fn root_of<P: CircuitParams>(leaves: Map<u32, Account>) -> Fr {
    node_hash::<P>(BALANCE_TREE_DEPTH as nat, 0, leaves)
}

/// Position at `level` of the ancestor of leaf `id`.
pub open spec fn ancestor(id: int, level: nat) -> int
    decreases level,
{
    if level == 0 {
        id
    } else {
        ancestor(id, (level - 1) as nat) / 2
    }
}

/// Position of the other child of the same parent.
pub open spec fn sibling(index: int) -> int {
    if index % 2 == 0 {
        index + 1
    } else {
        index - 1
    }
}

/// Root reached from a leaf hash and the sibling hashes of its path, leaf upward,
/// after `level` steps.
pub open spec fn path_root<P: CircuitParams>(leaf_hash: Fr, id: int, path: Seq<Fr>, level: nat) -> Fr
    decreases level,
{
    if level == 0 {
        leaf_hash
    } else {
        let l = (level - 1) as nat;
        let below = path_root::<P>(leaf_hash, id, path, l);
        if ancestor(id, l) % 2 == 0 {
            P::spec_compress(l, below, path[l as int])
        } else {
            P::spec_compress(l, path[l as int], below)
        }
    }
}

/// Whether `path` proves that `leaf` stands at position `id` under `root`.
pub open spec fn spec_verify_merkle<P: CircuitParams>(path: Seq<Fr>, id: int, leaf: Account, root: Fr) -> bool {
    &&& path.len() == BALANCE_TREE_DEPTH
    &&& path_root::<P>(P::spec_hash_leaf(leaf), id, path, BALANCE_TREE_DEPTH as nat) == root
}

/// The number of leaves the tree holds: `2^BALANCE_TREE_DEPTH`.
pub const TREE_CAPACITY: u32 = 16777216;

/// Key of a stored node hash.
pub open spec fn node_key(level: nat, index: int) -> int {
    level * 0x1_0000_0000 + index
}

/// Changing the leaf at `id` changes no node off the path from `id` to the root.
proof fn lemma_frame<P: CircuitParams>(
    m1: Map<u32, Account>,
    m2: Map<u32, Account>,
    id: int,
    level: nat,
    index: int,
)
    requires
        forall|k: int| k != id ==> leaf_at(m1, k) == leaf_at(m2, k),
        ancestor(id, level) != index,
    ensures
        node_hash::<P>(level, index, m1) == node_hash::<P>(level, index, m2),
    decreases level,
{
    if level > 0 {
        let l = (level - 1) as nat;
        assert(ancestor(id, l) != 2 * index);
        assert(ancestor(id, l) != 2 * index + 1);
        lemma_frame::<P>(m1, m2, id, l, 2 * index);
        lemma_frame::<P>(m1, m2, id, l, 2 * index + 1);
    }
}

/// With no leaf stored, every node hash is the empty hash of its level.
proof fn lemma_empty_tree<P: CircuitParams>(level: nat, index: int)
    ensures
        node_hash::<P>(level, index, Map::empty()) == empty_hash::<P>(level),
    decreases level,
{
    if level > 0 {
        lemma_empty_tree::<P>((level - 1) as nat, 2 * index);
        lemma_empty_tree::<P>((level - 1) as nat, 2 * index + 1);
    }
}

/// The ancestor of a leaf below the capacity at the top level is the root.
proof fn lemma_ancestor_bound(id: int, level: nat)
    requires
        0 <= id < TREE_CAPACITY,
        level <= BALANCE_TREE_DEPTH,
    ensures
        0 <= ancestor(id, level) < pow2_of((BALANCE_TREE_DEPTH - level) as nat),
    decreases level,
{
    if level == 0 {
        reveal_with_fuel(pow2_of, 25);
    } else {
        lemma_ancestor_bound(id, (level - 1) as nat);
        let n = (BALANCE_TREE_DEPTH - level) as nat;
        assert(pow2_of(n + 1) == 2 * pow2_of(n));
    }
}

/// `2^n`.
pub open spec fn pow2_of(n: nat) -> int
    decreases n,
{
    if n == 0 {
        1
    } else {
        2 * pow2_of((n - 1) as nat)
    }
}

/// Folding the tree's own path from a leaf reaches each ancestor's hash.
proof fn lemma_path_reaches<P: CircuitParams>(leaves: Map<u32, Account>, id: int, path: Seq<Fr>, level: nat)
    requires
        level <= BALANCE_TREE_DEPTH,
        path.len() == BALANCE_TREE_DEPTH,
        forall|l: int|
            0 <= l < BALANCE_TREE_DEPTH ==> path[l] == node_hash::<P>(
                l as nat,
                sibling(ancestor(id, l as nat)),
                leaves,
            ),
    ensures
        path_root::<P>(P::spec_hash_leaf(leaf_at(leaves, id)), id, path, level) == node_hash::<P>(
            level,
            ancestor(id, level),
            leaves,
        ),
    decreases level,
{
    if level > 0 {
        let l = (level - 1) as nat;
        lemma_path_reaches::<P>(leaves, id, path, l);
        let a = ancestor(id, l);
        assert(a % 2 == 0 ==> 2 * (a / 2) == a && 2 * (a / 2) + 1 == sibling(a));
        assert(a % 2 != 0 ==> 2 * (a / 2) + 1 == a && 2 * (a / 2) == sibling(a));
    }
}

/// The sparse Merkle tree of all accounts.
#[derive(Debug)]
pub struct BalanceTree {
    leaves: HashMap<u32, Account>,
    nodes: HashMap<u64, Fr>,
    empty_hashes: Vec<Fr>,
}

impl View for BalanceTree {
    type V = Map<u32, Account>;

    closed spec fn view(&self) -> Map<u32, Account> {
        self.leaves@
    }
}

impl BalanceTree {
    /// Hash of node (`level`, `index`) as stored, or the empty hash where none is.
    pub closed spec fn stored<P: CircuitParams>(&self, level: nat, index: int) -> Fr {
        if self.nodes@.contains_key(node_key(level, index) as u64) {
            self.nodes@[node_key(level, index) as u64]
        } else {
            empty_hash::<P>(level)
        }
    }

    /// Stored hashes agree with the leaves under `P`'s hash; every leaf lies
    /// within the capacity.
    pub closed spec fn wf<P: CircuitParams>(&self) -> bool {
        &&& self.empty_hashes@.len() == BALANCE_TREE_DEPTH + 1
        &&& forall|l: int|
            0 <= l <= BALANCE_TREE_DEPTH ==> self.empty_hashes@[l] == empty_hash::<P>(l as nat)
        &&& forall|l: nat, i: int|
            l <= BALANCE_TREE_DEPTH && 0 <= i < 0x1_0000_0000 ==> #[trigger] self.stored::<P>(l, i)
                == node_hash::<P>(l, i, self.leaves@)
        &&& forall|k: u32| self.leaves@.contains_key(k) ==> k < TREE_CAPACITY
    }

    /// Root hash of the tree.
    pub open spec fn spec_root<P: CircuitParams>(&self) -> Fr {
        root_of::<P>(self@)
    }

    /// Every stored leaf lies within the capacity.
    pub proof fn lemma_keys_in_range<P: CircuitParams>(&self)
        requires
            self.wf::<P>(),
        ensures
            forall|k: u32| self@.contains_key(k) ==> k < TREE_CAPACITY,
    {
    }

    /// An empty tree.
    pub fn new<P: CircuitParams>(params: &P) -> (r: BalanceTree)
        ensures
            r.wf::<P>(),
            r@ == Map::<u32, Account>::empty(),
    {
        let mut empty_hashes: Vec<Fr> = Vec::new();
        let mut h = params.hash_leaf(&Account::empty());
        empty_hashes.push(h);
        let mut level: usize = 0;
        while level < BALANCE_TREE_DEPTH
            invariant
                level <= BALANCE_TREE_DEPTH,
                empty_hashes@.len() == level + 1,
                h == empty_hash::<P>(level as nat),
                forall|l: int| 0 <= l <= level ==> empty_hashes@[l] == empty_hash::<P>(l as nat),
            decreases BALANCE_TREE_DEPTH - level,
        {
            h = params.compress(level, &h, &h);
            level = level + 1;
            empty_hashes.push(h);
        }
        let r = BalanceTree { leaves: HashMap::new(), nodes: HashMap::new(), empty_hashes };
        assert forall|l: nat, i: int| l <= BALANCE_TREE_DEPTH && 0 <= i < 0x1_0000_0000 implies #[trigger] r.stored::<P>(l, i)
            == node_hash::<P>(l, i, r.leaves@) by {
            lemma_empty_tree::<P>(l, i);
        }
        r
    }

    /// The stored leaf at `id`, if one was set.
    pub fn get(&self, id: u32) -> (r: Option<Account>)
        ensures
            match r {
                Some(a) => self@.contains_key(id) && self@[id] == a,
                None => !self@.contains_key(id),
            },
    {
        match self.leaves.get(&id) {
            Some(a) => Some(*a),
            None => None,
        }
    }

    fn node(&self, level: usize, index: u64) -> (r: Fr)
        requires
            self.empty_hashes@.len() == BALANCE_TREE_DEPTH + 1,
            level <= BALANCE_TREE_DEPTH,
            index < 0x1_0000_0000,
        ensures
            r == (if self.nodes@.contains_key(node_key(level as nat, index as int) as u64) {
                self.nodes@[node_key(level as nat, index as int) as u64]
            } else {
                self.empty_hashes@[level as int]
            }),
    {
        let key: u64 = level as u64 * 0x1_0000_0000 + index;
        match self.nodes.get(&key) {
            Some(h) => *h,
            None => self.empty_hashes[level],
        }
    }

    /// Root hash of the tree.
    pub fn root_hash<P: CircuitParams>(&self) -> (r: Fr)
        requires
            self.wf::<P>(),
        ensures
            r == self.spec_root::<P>(),
    {
        let r = self.node(BALANCE_TREE_DEPTH, 0);
        assert(self.stored::<P>(BALANCE_TREE_DEPTH as nat, 0) == node_hash::<P>(BALANCE_TREE_DEPTH as nat, 0, self.leaves@));
        r
    }

    /// The sibling hashes on the path from leaf `id` to the root, leaf upward.
    pub fn merkle_path<P: CircuitParams>(&self, id: u32) -> (r: Vec<Fr>)
        requires
            self.wf::<P>(),
            id < TREE_CAPACITY,
        ensures
            r@.len() == BALANCE_TREE_DEPTH,
            forall|l: int|
                0 <= l < BALANCE_TREE_DEPTH ==> r@[l] == node_hash::<P>(
                    l as nat,
                    sibling(ancestor(id as int, l as nat)),
                    self@,
                ),
            spec_verify_merkle::<P>(r@, id as int, leaf_at(self@, id as int), self.spec_root::<P>()),
    {
        let mut path: Vec<Fr> = Vec::new();
        let mut idx: u64 = id as u64;
        let mut level: usize = 0;
        while level < BALANCE_TREE_DEPTH
            invariant
                self.wf::<P>(),
                id < TREE_CAPACITY,
                level <= BALANCE_TREE_DEPTH,
                path@.len() == level,
                idx == ancestor(id as int, level as nat),
                forall|l: int|
                    0 <= l < level ==> path@[l] == node_hash::<P>(
                        l as nat,
                        sibling(ancestor(id as int, l as nat)),
                        self@,
                    ),
            decreases BALANCE_TREE_DEPTH - level,
        {
            proof {
                lemma_ancestor_bound(id as int, level as nat);
                reveal_with_fuel(pow2_of, 25);
            }
            let sib: u64 = if idx % 2 == 0 { idx + 1 } else { idx - 1 };
            let h = self.node(level, sib);
            assert(self.stored::<P>(level as nat, sib as int) == node_hash::<P>(level as nat, sib as int, self.leaves@));
            path.push(h);
            idx = idx / 2;
            level = level + 1;
        }
        proof {
            lemma_path_reaches::<P>(self@, id as int, path@, BALANCE_TREE_DEPTH as nat);
            lemma_ancestor_bound(id as int, BALANCE_TREE_DEPTH as nat);
            reveal_with_fuel(pow2_of, 2);
        }
        path
    }
    /// Sets the leaf at `id`, updating the hashes on its path to the root.
    pub fn insert<P: CircuitParams>(&mut self, params: &P, id: u32, leaf: Account)
        requires
            old(self).wf::<P>(),
            id < TREE_CAPACITY,
        ensures
            final(self).wf::<P>(),
            final(self)@ == old(self)@.insert(id, leaf),
    {
        let ghost old_leaves = self.leaves@;
        self.leaves.insert(id, leaf);
        let ghost new_leaves = self.leaves@;
        assert forall|k: int| k != id implies leaf_at(old_leaves, k) == leaf_at(new_leaves, k) by {
            if 0 <= k <= u32::MAX {
                assert(new_leaves.contains_key(k as u32) == old_leaves.contains_key(k as u32));
            }
        }
        let mut h = params.hash_leaf(&leaf);
        let mut idx: u64 = id as u64;
        let mut level: usize = 0;
        self.nodes.insert(idx, h);
        assert(leaf_at(new_leaves, id as int) == leaf);
        assert forall|l: nat, i: int|
            l <= BALANCE_TREE_DEPTH && 0 <= i < 0x1_0000_0000 && !(l > 0 && i == ancestor(id as int, l))
            implies #[trigger] self.stored::<P>(l, i) == node_hash::<P>(l, i, self.leaves@) by {
            if l == 0 && i == id {
            } else {
                assert(node_key(l, i) != node_key(0, id as int));
                assert(old(self).stored::<P>(l, i) == node_hash::<P>(l, i, old_leaves));
                assert(ancestor(id as int, l) != i);
                lemma_frame::<P>(old_leaves, new_leaves, id as int, l, i);
            }
        }
        while level < BALANCE_TREE_DEPTH
            invariant
                level <= BALANCE_TREE_DEPTH,
                id < TREE_CAPACITY,
                self.leaves@ == new_leaves,
                new_leaves == old_leaves.insert(id, leaf),
                self.empty_hashes == old(self).empty_hashes,
                self.empty_hashes@.len() == BALANCE_TREE_DEPTH + 1,
                forall|l: int|
                    0 <= l <= BALANCE_TREE_DEPTH ==> self.empty_hashes@[l] == empty_hash::<P>(l as nat),
                forall|k: u32| old_leaves.contains_key(k) ==> k < TREE_CAPACITY,
                idx == ancestor(id as int, level as nat),
                h == node_hash::<P>(level as nat, idx as int, new_leaves),
                forall|l: nat, i: int|
                    l <= BALANCE_TREE_DEPTH && 0 <= i < 0x1_0000_0000 && !(l > level && i == ancestor(id as int, l))
                    ==> #[trigger] self.stored::<P>(l, i) == node_hash::<P>(l, i, new_leaves),
            decreases BALANCE_TREE_DEPTH - level,
        {
            proof {
                lemma_ancestor_bound(id as int, level as nat);
                lemma_ancestor_bound(id as int, (level + 1) as nat);
                reveal_with_fuel(pow2_of, 25);
            }
            let sib: u64 = if idx % 2 == 0 { idx + 1 } else { idx - 1 };
            let s = self.node(level, sib);
            assert(s == self.stored::<P>(level as nat, sib as int));
            assert(ancestor(id as int, level as nat) != sib);
            let parent: Fr = if idx % 2 == 0 {
                params.compress(level, &h, &s)
            } else {
                params.compress(level, &s, &h)
            };
            idx = idx / 2;
            level = level + 1;
            h = parent;
            let key: u64 = level as u64 * 0x1_0000_0000 + idx;
            let ghost before = *self;
            self.nodes.insert(key, h);
            assert forall|l: nat, i: int|
                l <= BALANCE_TREE_DEPTH && 0 <= i < 0x1_0000_0000 && !(l > level && i == ancestor(id as int, l))
                implies #[trigger] self.stored::<P>(l, i) == node_hash::<P>(l, i, new_leaves) by {
                if l == level && i == idx {
                } else {
                    assert(node_key(l, i) != node_key(level as nat, idx as int));
                    assert(self.stored::<P>(l, i) == before.stored::<P>(l, i));
                }
            }
        }
        assert forall|k: u32| self.leaves@.contains_key(k) implies k < TREE_CAPACITY by {
            if k != id {
                assert(old_leaves.contains_key(k));
            }
        }
    }

    /// A copy of the tree.
    pub fn snapshot<P: CircuitParams>(&self) -> (r: BalanceTree)
        requires
            self.wf::<P>(),
        ensures
            r.wf::<P>(),
            r@ == self@,
    {
        let r = BalanceTree {
            leaves: self.leaves.clone(),
            nodes: self.nodes.clone(),
            empty_hashes: self.empty_hashes.clone(),
        };
        assert(r.empty_hashes@ =~= self.empty_hashes@);
        assert forall|l: nat, i: int| l <= BALANCE_TREE_DEPTH && 0 <= i < 0x1_0000_0000 implies #[trigger] r.stored::<P>(l, i)
            == node_hash::<P>(l, i, r.leaves@) by {
            assert(r.stored::<P>(l, i) == self.stored::<P>(l, i));
        }
        r
    }
}

/// Whether `path` proves that `leaf` stands at position `id` under `root`.
pub fn verify_merkle<P: CircuitParams>(params: &P, path: &Vec<Fr>, id: u32, leaf: &Account, root: &Fr) -> (r: bool)
    ensures
        r == spec_verify_merkle::<P>(path@, id as int, *leaf, *root),
{
    if path.len() != BALANCE_TREE_DEPTH {
        return false;
    }
    let mut h = params.hash_leaf(leaf);
    let mut idx: u32 = id;
    let mut level: usize = 0;
    while level < BALANCE_TREE_DEPTH
        invariant
            level <= BALANCE_TREE_DEPTH,
            path@.len() == BALANCE_TREE_DEPTH,
            idx == ancestor(id as int, level as nat),
            h == path_root::<P>(P::spec_hash_leaf(*leaf), id as int, path@, level as nat),
        decreases BALANCE_TREE_DEPTH - level,
    {
        if idx % 2 == 0 {
            h = params.compress(level, &h, &path[level]);
        } else {
            h = params.compress(level, &path[level], &h);
        }
        idx = idx / 2;
        level = level + 1;
    }
    h == *root
}

/// Trees whose positions all hold the same leaves, stored or empty, have the same
/// node hashes.
pub proof fn lemma_same_leaves<P: CircuitParams>(m1: Map<u32, Account>, m2: Map<u32, Account>, level: nat, index: int)
    requires
        forall|k: int| leaf_at(m1, k) == leaf_at(m2, k),
    ensures
        node_hash::<P>(level, index, m1) == node_hash::<P>(level, index, m2),
    decreases level,
{
    if level > 0 {
        lemma_same_leaves::<P>(m1, m2, (level - 1) as nat, 2 * index);
        lemma_same_leaves::<P>(m1, m2, (level - 1) as nat, 2 * index + 1);
    }
}

/// Inserting the leaf a position already holds, or the empty leaf at a position
/// never set, leaves the root as it was.
pub proof fn lemma_insert_same_leaf<P: CircuitParams>(m: Map<u32, Account>, id: u32, leaf: Account)
    requires
        leaf == leaf_at(m, id as int),
    ensures
        root_of::<P>(m.insert(id, leaf)) == root_of::<P>(m),
{
    assert forall|k: int| leaf_at(m.insert(id, leaf), k) == leaf_at(m, k) by {
        if k == id {
        } else if 0 <= k <= u32::MAX {
            assert(m.insert(id, leaf).contains_key(k as u32) == m.contains_key(k as u32));
        }
    }
    lemma_same_leaves::<P>(m.insert(id, leaf), m, BALANCE_TREE_DEPTH as nat, 0);
}

} // verus!
