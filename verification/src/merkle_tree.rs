//! The append-only Merkle accumulator and its bounded root history.
//!
//! The tree keeps one cached subtree hash per level and a ring buffer of the
//! most recent roots; a proof may therefore be checked against any root that
//! has not yet been overwritten, not only the latest one.

use vstd::prelude::*;

use crate::error::ErrorCode;
use crate::field::{be_val, field_modulus, spec_below_modulus};

verus! {

/// What the two-to-one Poseidon hash returns for a given pair of 32-byte
/// big-endian field elements, `None` standing for its error.
pub uninterp spec fn spec_poseidon2(left: Seq<u8>, right: Seq<u8>) -> Option<Seq<u8>>;

/// Relies on `light_hasher::Poseidon::hashv` (the circom-parameterized
/// Poseidon over the BN254 scalar field): deterministic in the input bytes;
/// it accepts two 32-byte inputs exactly when both are canonical field
/// elements, and a successful result is the canonical 32-byte big-endian
/// form of a field element.
#[verifier::external_body]
fn poseidon_hash2(left: &[u8; 32], right: &[u8; 32]) -> (r: Option<[u8; 32]>)
    ensures
        match r {
            Some(v) => spec_poseidon2(left@, right@) == Some(v@) && spec_below_modulus(v@)
                && spec_below_modulus(left@) && spec_below_modulus(right@),
            None => spec_poseidon2(left@, right@) is None && !(spec_below_modulus(left@)
                && spec_below_modulus(right@)),
        },
{
    match <light_hasher::Poseidon as light_hasher::Hasher>::hashv(&[left, right]) {
        Ok(h) => Some(h),
        Err(_) => None,
    }
}

/// The all-zero 32-byte string: the empty leaf, and the content of a history
/// slot that nothing was written to yet.
pub open spec fn zero_bytes32() -> Seq<u8> {
    Seq::new(32, |i: int| 0u8)
}

/// 2^n.
pub open spec fn pow2(n: nat) -> nat
    decreases n,
{
    if n == 0 {
        1
    } else {
        2 * pow2((n - 1) as nat)
    }
}

/// The all-zero 32-byte string is a field element.
proof fn lemma_zero_below_modulus()
    ensures
        spec_below_modulus(zero_bytes32()),
{
    crate::field::lemma_be_val_all_zero(zero_bytes32());
}

pub proof fn lemma_pow2_pos(n: nat)
    ensures
        pow2(n) >= 1,
    decreases n,
{
    if n > 0 {
        lemma_pow2_pos((n - 1) as nat);
    }
}

/// The capacity of the deepest supported tree.
proof fn lemma_pow2_26()
    ensures
        pow2(26) == 0x4000000,
{
    assert(pow2(0) == 1);
    assert(pow2(1) == 2);
    assert(pow2(2) == 4);
    assert(pow2(3) == 8);
    assert(pow2(4) == 0x10);
    assert(pow2(5) == 0x20);
    assert(pow2(6) == 0x40);
    assert(pow2(7) == 0x80);
    assert(pow2(8) == 0x100);
    assert(pow2(9) == 0x200);
    assert(pow2(10) == 0x400);
    assert(pow2(11) == 0x800);
    assert(pow2(12) == 0x1000);
    assert(pow2(13) == 0x2000);
    assert(pow2(14) == 0x4000);
    assert(pow2(15) == 0x8000);
    assert(pow2(16) == 0x10000);
    assert(pow2(17) == 0x20000);
    assert(pow2(18) == 0x40000);
    assert(pow2(19) == 0x80000);
    assert(pow2(20) == 0x100000);
    assert(pow2(21) == 0x200000);
    assert(pow2(22) == 0x400000);
    assert(pow2(23) == 0x800000);
    assert(pow2(24) == 0x1000000);
    assert(pow2(25) == 0x2000000);
    assert(pow2(26) == 0x4000000);
}

/// Equality of two 32-byte strings.
pub fn bytes32_eq(a: &[u8; 32], b: &[u8; 32]) -> (r: bool)
    ensures
        r == (a@ == b@),
{
    let mut i: usize = 0;
    while i < 32
        invariant
            i <= 32,
            forall|k: int| 0 <= k < i ==> a@[k] == b@[k],
        decreases 32 - i,
    {
        if a[i] != b[i] {
            return false;
        }
        i = i + 1;
    }
    proof {
        assert(a@ =~= b@);
    }
    true
}

/// A 32-byte array holding only zeros.
fn make_zero32() -> (r: [u8; 32])
    ensures
        r@ == zero_bytes32(),
{
    let r = [0u8; 32];
    proof {
        assert(r@ =~= zero_bytes32());
    }
    r
}

/// The fixed-height accumulator: per-level cached subtree hashes, per-level
/// empty-subtree hashes, and the ring buffer of recent roots.
///
/// `root_log` is the ghost trace of every root the tree ever had, the initial
/// all-empty root first; the ring buffer always holds its most recent
/// entries.
pub struct MerkleTreeAccount {
    pub authority: [u8; 32],
    pub next_index: u64,
    pub subtrees: Vec<[u8; 32]>,
    pub zeros: Vec<[u8; 32]>,
    pub root: [u8; 32],
    pub root_history: Vec<[u8; 32]>,
    pub root_index: u64,
    pub max_deposit_amount: u64,
    pub height: u8,
    pub root_history_size: u8,
    pub root_log: Ghost<Seq<Seq<u8>>>,
}

impl MerkleTreeAccount {
    /// How many of the ring buffer's slots hold a real root.
    pub open spec fn spec_window(self) -> int {
        if self.root_log@.len() < self.root_history_size as int {
            self.root_log@.len() as int
        } else {
            self.root_history_size as int
        }
    }

    /// How many appends ago slot `i` was written, with the buffer's size
    /// standing for "not yet".
    pub open spec fn spec_slot_age(self, i: int) -> int {
        (self.root_index - i) % (self.root_history_size as int)
    }

    /// What slot `i` must hold: one of the most recent roots, or zero where
    /// nothing was written yet.
    pub open spec fn spec_slot_value(self, i: int) -> Seq<u8> {
        let j = self.spec_slot_age(i);
        if j < self.spec_window() {
            self.root_log@[self.root_log@.len() - 1 - j]
        } else {
            zero_bytes32()
        }
    }

    /// The tree's well-formedness: sized caches, a chained zero ladder, all
    /// values canonical field elements, and a ring buffer that matches the
    /// ghost root trace.
    pub open spec fn wf(self) -> bool {
        &&& 1 <= self.height <= 26
        &&& self.root_history_size >= 1
        &&& self.subtrees@.len() == self.height as int
        &&& self.zeros@.len() == self.height as int + 1
        &&& self.zeros@[0]@ == zero_bytes32()
        &&& forall|l: int|
            0 <= l < self.height ==> spec_poseidon2(
                (#[trigger] self.zeros@[l])@,
                self.zeros@[l]@,
            ) == Some(self.zeros@[l + 1]@)
        &&& forall|l: int| 0 <= l <= self.height ==> spec_below_modulus((#[trigger] self.zeros@[l])@)
        &&& forall|l: int|
            0 <= l < self.height ==> spec_below_modulus((#[trigger] self.subtrees@[l])@)
        &&& self.next_index <= pow2(self.height as nat)
        &&& self.root_history@.len() == self.root_history_size as int
        &&& self.root_index < self.root_history_size as u64
        &&& self.root@ == self.root_history@[self.root_index as int]@
        &&& self.root_log@.len() == self.next_index as int + 1
        &&& self.root_log@[self.root_log@.len() - 1] == self.root@
        &&& forall|i: int|
            0 <= i < self.root_history_size ==> (#[trigger] self.root_history@[i])@
                == self.spec_slot_value(i)
    }

    /// How many leaves the tree can hold in all.
    pub fn capacity(&self) -> (r: u64)
        requires
            self.wf(),
        ensures
            r == pow2(self.height as nat),
    {
        let height = self.height as usize;
        let mut cap: u64 = 1;
        let mut c: usize = 0;
        while c < height
            invariant
                c <= height,
                height <= 26,
                cap == pow2(c as nat),
                cap <= 0x4000000,
            decreases height - c,
        {
            proof {
                lemma_pow2_monotone((c + 1) as nat, 26);
                lemma_pow2_26();
            }
            cap = cap * 2;
            c = c + 1;
        }
        cap
    }

    /// Whether `candidate` is one of the roots still present in the history.
    ///
    /// The all-zero string is never a known root: unwritten slots hold it.
    pub open spec fn spec_known_root(self, candidate: Seq<u8>) -> bool {
        &&& candidate != zero_bytes32()
        &&& exists|j: int|
            0 <= j < self.spec_window() && #[trigger] self.root_log@[self.root_log@.len() - 1 - j]
                == candidate
    }
}

/// The node value reached after climbing `l` levels of the append path for
/// `leaf` at position `t.next_index`: a left child pairs with the level's
/// empty subtree, a right child with the level's cached subtree.
pub open spec fn spec_append_node(t: MerkleTreeAccount, leaf: Seq<u8>, l: int) -> Option<Seq<u8>>
    decreases l,
{
    if l <= 0 {
        Some(leaf)
    } else {
        match spec_append_node(t, leaf, l - 1) {
            None => None,
            Some(cur) => {
                if ((t.next_index as nat) / pow2((l - 1) as nat)) % 2 == 0 {
                    spec_poseidon2(cur, t.zeros@[l - 1]@)
                } else {
                    spec_poseidon2(t.subtrees@[l - 1]@, cur)
                }
            },
        }
    }
}

/// The cached subtree hash level `l` holds after appending `leaf`: the fresh
/// node where the append path was a left child, the old cache elsewhere.
pub open spec fn spec_new_subtree(t: MerkleTreeAccount, leaf: Seq<u8>, l: int) -> Seq<u8> {
    if ((t.next_index as nat) / pow2(l as nat)) % 2 == 0 {
        spec_append_node(t, leaf, l)->Some_0
    } else {
        t.subtrees@[l]@
    }
}

/// The node value reached after climbing `l` levels when appending `leaf1`
/// right after `leaf0` went in at `t.next_index`: the caches it pairs with
/// are the ones the first append left behind.
pub open spec fn spec_append_node_second(
    t: MerkleTreeAccount,
    leaf0: Seq<u8>,
    leaf1: Seq<u8>,
    l: int,
) -> Option<Seq<u8>>
    decreases l,
{
    if l <= 0 {
        Some(leaf1)
    } else {
        match spec_append_node_second(t, leaf0, leaf1, l - 1) {
            None => None,
            Some(cur) => {
                if (((t.next_index + 1) as nat) / pow2((l - 1) as nat)) % 2 == 0 {
                    spec_poseidon2(cur, t.zeros@[l - 1]@)
                } else {
                    spec_poseidon2(spec_new_subtree(t, leaf0, l - 1), cur)
                }
            },
        }
    }
}

/// Climbing from the state one append left behind follows the two-leaf
/// path of the state before it.
pub proof fn lemma_second_append_node(
    t0: MerkleTreeAccount,
    t1: MerkleTreeAccount,
    leaf0: Seq<u8>,
    leaf1: Seq<u8>,
    l: int,
)
    requires
        0 <= l <= t0.height,
        t1.height == t0.height,
        t1.zeros@ == t0.zeros@,
        t1.next_index == t0.next_index + 1,
        forall|k: int|
            0 <= k < t0.height ==> (#[trigger] t1.subtrees@[k])@ == spec_new_subtree(t0, leaf0, k),
    ensures
        spec_append_node(t1, leaf1, l) == spec_append_node_second(t0, leaf0, leaf1, l),
    decreases l,
{
    if l > 0 {
        lemma_second_append_node(t0, t1, leaf0, leaf1, l - 1);
    }
}

/// The append-only engine over `MerkleTreeAccount`.
pub struct MerkleTree;

impl MerkleTree {
    /// Builds the tree of the given height: every cached subtree starts as
    /// the empty subtree of its level, and the history starts with the root
    /// of the all-empty tree.
    pub fn initialize(authority: [u8; 32], height: u8, root_history_size: u8, max_deposit_amount: u64) -> (t:
        MerkleTreeAccount)
        requires
            1 <= height <= 26,
            root_history_size >= 1,
        ensures
            t.wf(),
            t.next_index == 0,
            t.height == height,
            t.root_history_size == root_history_size,
            t.max_deposit_amount == max_deposit_amount,
            t.authority == authority,
            t.root_log@.len() == 1,
            t.root_log@[0] == t.root@,
            forall|l: int| 0 <= l < height ==> #[trigger] t.subtrees@[l] == t.zeros@[l],
            t.root == t.zeros@[height as int],
            t.root_index == 0,
            t.root_history@[0] == t.root,
    {
        let mut zeros: Vec<[u8; 32]> = Vec::new();
        let mut current = make_zero32();
        zeros.push(current);
        proof {
            lemma_zero_below_modulus();
        }
        let mut l: usize = 0;
        while l < height as usize
            invariant
                l <= height as usize,
                zeros@.len() == l + 1,
                current == zeros@[l as int],
                zeros@[0]@ == zero_bytes32(),
                forall|k: int|
                    0 <= k < l ==> spec_poseidon2((#[trigger] zeros@[k])@, zeros@[k]@) == Some(
                        zeros@[k + 1]@,
                    ),
                forall|k: int| 0 <= k <= l ==> spec_below_modulus((#[trigger] zeros@[k])@),
            decreases height as usize - l,
        {
            let next = match poseidon_hash2(&current, &current) {
                Some(v) => v,
                None => {
                    proof {
                        assert(false);
                    }
                    unreached()
                },
            };
            zeros.push(next);
            current = next;
            l = l + 1;
        }
        let root = current;
        let mut subtrees: Vec<[u8; 32]> = Vec::new();
        let mut s: usize = 0;
        while s < height as usize
            invariant
                s <= height as usize,
                zeros@.len() == height as int + 1,
                subtrees@.len() == s,
                forall|k: int| 0 <= k < s ==> #[trigger] subtrees@[k] == zeros@[k],
            decreases height as usize - s,
        {
            subtrees.push(zeros[s]);
            s = s + 1;
        }
        let mut root_history: Vec<[u8; 32]> = Vec::new();
        root_history.push(root);
        let mut h: usize = 1;
        while h < root_history_size as usize
            invariant
                1 <= h <= root_history_size as usize,
                root_history@.len() == h,
                root_history@[0] == root,
                forall|k: int| 1 <= k < h ==> (#[trigger] root_history@[k])@ == zero_bytes32(),
            decreases root_history_size as usize - h,
        {
            root_history.push(make_zero32());
            h = h + 1;
        }
        let ghost initial_log: Seq<Seq<u8>> = seq![root@];
        let t = MerkleTreeAccount {
            authority,
            next_index: 0,
            subtrees,
            zeros,
            root,
            root_history,
            root_index: 0,
            max_deposit_amount,
            height,
            root_history_size,
            root_log: Ghost(initial_log),
        };
        proof {
            assert forall|i: int| 0 <= i < t.root_history_size implies (
            #[trigger] t.root_history@[i])@ == t.spec_slot_value(i) by {
                let m = t.root_history_size as int;
                if i == 0 {
                    vstd::arithmetic::div_mod::lemma_small_mod(0, m as nat);
                } else {
                    assert((0 - i) % m == m - i) by {
                        vstd::arithmetic::div_mod::lemma_mod_add_multiples_vanish(0 - i, m);
                        vstd::arithmetic::div_mod::lemma_small_mod((m - i) as nat, m as nat);
                    }
                }
            }
        }
        t
    }

    /// Whether `candidate` is one of the roots the history still holds.
    pub fn is_known_root(tree: &MerkleTreeAccount, candidate: [u8; 32]) -> (r: bool)
        requires
            tree.wf(),
        ensures
            r == tree.spec_known_root(candidate@),
    {
        let zero = make_zero32();
        if bytes32_eq(&candidate, &zero) {
            return false;
        }
        let size = tree.root_history.len();
        let mut i: usize = 0;
        while i < size
            invariant
                tree.wf(),
                size == tree.root_history@.len(),
                i <= size,
                candidate@ != zero_bytes32(),
                forall|k: int| 0 <= k < i ==> (#[trigger] tree.root_history@[k])@ != candidate@,
            decreases size - i,
        {
            if bytes32_eq(&tree.root_history[i], &candidate) {
                proof {
                    let m = tree.root_history_size as int;
                    let j = tree.spec_slot_age(i as int);
                    vstd::arithmetic::div_mod::lemma_mod_bound(tree.root_index - i, m);
                    assert(tree.root_history@[i as int]@ == tree.spec_slot_value(i as int));
                    assert(j < tree.spec_window());
                }
                return true;
            }
            i = i + 1;
        }
        proof {
            let m = tree.root_history_size as int;
            let log = tree.root_log@;
            if tree.spec_known_root(candidate@) {
                let j = choose|j: int|
                    0 <= j < tree.spec_window() && #[trigger] log[log.len() - 1 - j]
                        == candidate@;
                let i = (tree.root_index - j) % m;
                vstd::arithmetic::div_mod::lemma_mod_bound(tree.root_index - j, m);
                assert(tree.spec_slot_age(i) == j) by {
                    let d = tree.root_index - j;
                    let k = d / m;
                    vstd::arithmetic::div_mod::lemma_fundamental_div_mod(d, m);
                    assert(i == d - m * k);
                    assert(tree.root_index - i == m * k + j);
                    vstd::arithmetic::div_mod::lemma_mod_multiples_vanish(k, j, m);
                    vstd::arithmetic::div_mod::lemma_small_mod(j as nat, m as nat);
                }
                assert(tree.root_history@[i]@ == tree.spec_slot_value(i));
                assert(tree.root_history@[i]@ == candidate@);
                assert(false);
            }
        }
        false
    }

    /// Appends `leaf` at the next free position and records the new root in
    /// the history; the returned index is the position the leaf went to.
    ///
    /// Fails with `MerkleTreeFull` exactly when the tree already holds
    /// `2^height` leaves, and with `HashFailed` only when a hash input is
    /// not a canonical field element — never for a leaf below the modulus.
    pub fn append(leaf: [u8; 32], tree: &mut MerkleTreeAccount) -> (r: Result<u64, ErrorCode>)
        requires
            old(tree).wf(),
        ensures
            final(tree).wf(),
            match r {
                Ok(idx) => {
                    &&& old(tree).next_index < pow2(old(tree).height as nat)
                    &&& spec_below_modulus(leaf@)
                    &&& idx == old(tree).next_index
                    &&& final(tree).next_index == old(tree).next_index + 1
                    &&& spec_append_node(*old(tree), leaf@, old(tree).height as int) == Some(
                        final(tree).root@,
                    )
                    &&& final(tree).root_log@ == old(tree).root_log@.push(final(tree).root@)
                    &&& final(tree).height == old(tree).height
                    &&& final(tree).root_history_size == old(tree).root_history_size
                    &&& final(tree).zeros@ == old(tree).zeros@
                    &&& final(tree).authority == old(tree).authority
                    &&& final(tree).max_deposit_amount == old(tree).max_deposit_amount
                    &&& final(tree).root_index == ((old(tree).root_index + 1) as int % (
                    old(tree).root_history_size as int)) as u64
                    &&& forall|l: int|
                        0 <= l < old(tree).height ==> (#[trigger] final(tree).subtrees@[l])@
                            == spec_new_subtree(*old(tree), leaf@, l)
                },
                Err(ErrorCode::MerkleTreeFull) => {
                    &&& old(tree).next_index == pow2(old(tree).height as nat)
                    &&& *final(tree) == *old(tree)
                },
                Err(ErrorCode::HashFailed) => {
                    &&& old(tree).next_index < pow2(old(tree).height as nat)
                    &&& !spec_below_modulus(leaf@)
                    &&& spec_append_node(*old(tree), leaf@, old(tree).height as int) is None
                    &&& *final(tree) == *old(tree)
                },
                _ => false,
            },
    {
        let ghost t0 = *tree;
        let height = tree.height as usize;
        let mut cap: u64 = 1;
        let mut c: usize = 0;
        while c < height
            invariant
                c <= height,
                height <= 26,
                cap == pow2(c as nat),
                cap <= 0x4000000,
            decreases height - c,
        {
            proof {
                lemma_pow2_monotone((c + 1) as nat, 26);
                lemma_pow2_26();
            }
            cap = cap * 2;
            c = c + 1;
        }
        if tree.next_index >= cap {
            return Err(ErrorCode::MerkleTreeFull);
        }
        let mut current = leaf;
        let mut idx = tree.next_index;
        let mut new_subtrees: Vec<[u8; 32]> = Vec::new();
        let mut l: usize = 0;
        while l < height
            invariant
                l <= height,
                *tree == t0,
                t0.wf(),
                height == t0.height as usize,
                t0.next_index < pow2(t0.height as nat),
                idx == (t0.next_index as nat) / pow2(l as nat),
                spec_append_node(t0, leaf@, l as int) == Some(current@),
                l > 0 ==> spec_below_modulus(leaf@) && spec_below_modulus(current@),
                l == 0 ==> current == leaf,
                new_subtrees@.len() == l,
                forall|k: int|
                    0 <= k < l ==> (#[trigger] new_subtrees@[k])@ == spec_new_subtree(
                        t0,
                        leaf@,
                        k,
                    ),
                forall|k: int| 0 <= k < l ==> spec_below_modulus((#[trigger] new_subtrees@[k])@),
            decreases height - l,
        {
            let next;
            if idx % 2 == 0 {
                new_subtrees.push(current);
                next = poseidon_hash2(&current, &tree.zeros[l]);
            } else {
                new_subtrees.push(tree.subtrees[l]);
                next = poseidon_hash2(&tree.subtrees[l], &current);
            }
            current = match next {
                Some(v) => v,
                None => {
                    proof {
                        // The level's cached values are field elements, so
                        // only `current` can be at fault, and only the leaf
                        // itself enters the walk unchecked.
                        assert(!spec_below_modulus(current@));
                        assert(l == 0 && !spec_below_modulus(leaf@));
                        lemma_append_node_error(t0, leaf@, (l + 1) as int, t0.height as int);
                    }
                    return Err(ErrorCode::HashFailed);
                },
            };
            proof {
                lemma_pow2_pos(l as nat);
                vstd::arithmetic::div_mod::lemma_div_denominator(
                    t0.next_index as int,
                    pow2(l as nat) as int,
                    2,
                );
            }
            idx = idx / 2;
            l = l + 1;
        }
        let new_root = current;
        let size = tree.root_history.len();
        let new_root_index = ((tree.root_index + 1) as usize) % size;
        let mut new_history: Vec<[u8; 32]> = Vec::new();
        let mut h: usize = 0;
        while h < size
            invariant
                h <= size,
                *tree == t0,
                size == t0.root_history@.len(),
                new_root_index < size,
                new_history@.len() == h,
                forall|k: int|
                    0 <= k < h && k != new_root_index ==> #[trigger] new_history@[k]
                        == t0.root_history@[k],
                new_root_index < h ==> new_history@[new_root_index as int] == new_root,
            decreases size - h,
        {
            if h == new_root_index {
                new_history.push(new_root);
            } else {
                new_history.push(tree.root_history[h]);
            }
            h = h + 1;
        }
        let index = tree.next_index;
        tree.subtrees = new_subtrees;
        tree.root = new_root;
        tree.root_history = new_history;
        tree.root_index = new_root_index as u64;
        tree.next_index = index + 1;
        let ghost grown_log: Seq<Seq<u8>> = t0.root_log@.push(new_root@);
        tree.root_log = Ghost(grown_log);
        proof {
            lemma_append_ring_wf(t0, *tree, new_root@);
        }
        Ok(index)
    }
}

/// If the climb fails at or before level `k`, it fails at the top, and it
/// can only fail when a hash input was not a canonical field element.
proof fn lemma_append_node_error(t: MerkleTreeAccount, leaf: Seq<u8>, k: int, top: int)
    requires
        t.wf(),
        0 <= k <= top,
        top == t.height as int,
        spec_append_node(t, leaf, k) is None,
    ensures
        spec_append_node(t, leaf, top) is None,
    decreases top - k,
{
    if k < top {
        lemma_append_node_error(t, leaf, k + 1, top);
    }
}

pub proof fn lemma_pow2_monotone(a: nat, b: nat)
    requires
        a <= b,
    ensures
        pow2(a) <= pow2(b),
    decreases b,
{
    if a < b {
        lemma_pow2_monotone(a, (b - 1) as nat);
    }
}

/// After an append wrote the new root over the oldest slot, the ring buffer
/// again matches the ghost trace.
proof fn lemma_append_ring_wf(t0: MerkleTreeAccount, t1: MerkleTreeAccount, new_root: Seq<u8>)
    requires
        t0.wf(),
        t1.root_log@ == t0.root_log@.push(new_root),
        t1.root_history_size == t0.root_history_size,
        t1.root_index == ((t0.root_index + 1) as int % (t0.root_history_size as int)) as u64,
        t1.root_history@.len() == t0.root_history@.len(),
        t1.root_history@[t1.root_index as int]@ == new_root,
        forall|k: int|
            0 <= k < t0.root_history@.len() && k != t1.root_index ==> #[trigger] t1.root_history@[k]
                == t0.root_history@[k],
    ensures
        forall|i: int|
            0 <= i < t1.root_history_size ==> (#[trigger] t1.root_history@[i])@
                == t1.spec_slot_value(i),
        t1.root_index < t1.root_history_size as u64,
{
    let m = t0.root_history_size as int;
    vstd::arithmetic::div_mod::lemma_mod_bound(t0.root_index + 1, m);
    assert forall|i: int| 0 <= i < m implies (#[trigger] t1.root_history@[i])@
        == t1.spec_slot_value(i) by {
        let j1 = t1.spec_slot_age(i);
        let j0 = t0.spec_slot_age(i);
        vstd::arithmetic::div_mod::lemma_mod_bound(t1.root_index - i, m);
        vstd::arithmetic::div_mod::lemma_mod_bound(t0.root_index - i, m);
        if i == t1.root_index {
            assert(j1 == 0) by {
                vstd::arithmetic::div_mod::lemma_small_mod(0, m as nat);
            }
        } else {
            // One append ago: this slot's age grew by exactly one.
            assert(j1 == j0 + 1) by {
                let d0 = t0.root_index - i;
                let r1 = t1.root_index as int;
                // r1 == (t0.root_index + 1) - m * q for the euclidean quotient q
                let q = (t0.root_index + 1) / m;
                vstd::arithmetic::div_mod::lemma_fundamental_div_mod(t0.root_index + 1, m);
                assert(r1 == t0.root_index + 1 - m * q);
                assert(r1 - i == d0 + 1 - m * q);
                assert(m * (-q) == -(m * q)) by {
                    vstd::arithmetic::mul::lemma_mul_unary_negation(m, q);
                }
                assert(r1 - i == m * (-q) + (d0 + 1));
                vstd::arithmetic::div_mod::lemma_mod_multiples_vanish(-q, d0 + 1, m);
                assert((r1 - i) % m == (d0 + 1) % m);
                if j0 == m - 1 {
                    // then the slot being written is i itself
                    assert((d0 + 1) % m == 0) by {
                        let k0 = d0 / m;
                        vstd::arithmetic::div_mod::lemma_fundamental_div_mod(d0, m);
                        assert(d0 == m * k0 + (m - 1));
                        assert(m * (k0 + 1) == m * k0 + m) by {
                            vstd::arithmetic::mul::lemma_mul_is_distributive_add(m, k0, 1);
                            vstd::arithmetic::mul::lemma_mul_basics(m);
                        }
                        assert(d0 + 1 == m * (k0 + 1) + 0);
                        vstd::arithmetic::div_mod::lemma_mod_multiples_vanish(k0 + 1, 0, m);
                        vstd::arithmetic::div_mod::lemma_small_mod(0, m as nat);
                    }
                    assert(j1 == 0);
                    // i == t1.root_index, contradiction with the branch
                    assert((t1.root_index - i) % m == 0);
                    let dd = t1.root_index - i;
                    vstd::arithmetic::div_mod::lemma_fundamental_div_mod(dd, m);
                    let kk = dd / m;
                    assert(dd == m * kk);
                    assert(-m < dd < m);
                    assert(dd == 0) by {
                        if kk >= 1 {
                            vstd::arithmetic::mul::lemma_mul_inequality(1, kk, m);
                            assert(false);
                        }
                        if kk <= -1 {
                            vstd::arithmetic::mul::lemma_mul_inequality(kk, -1, m);
                            assert(false);
                        }
                        vstd::arithmetic::mul::lemma_mul_basics(m);
                    }
                    assert(false);
                } else {
                    let k0 = d0 / m;
                    vstd::arithmetic::div_mod::lemma_fundamental_div_mod(d0, m);
                    assert(d0 + 1 == m * k0 + (j0 + 1));
                    vstd::arithmetic::div_mod::lemma_mod_multiples_vanish(k0, j0 + 1, m);
                    vstd::arithmetic::div_mod::lemma_small_mod((j0 + 1) as nat, m as nat);
                }
            }
        }
    }
}


/// Law: the root window. After `k` appends the log holds `k + 1` roots, and
/// every nonzero root among the most recent `min(k + 1, capacity)` of them
/// is still known.
pub proof fn lemma_root_window_known(t: MerkleTreeAccount, j: int)
    requires
        t.wf(),
        0 <= j < t.spec_window(),
        t.root_log@[t.root_log@.len() - 1 - j] != zero_bytes32(),
    ensures
        t.spec_window() == if t.next_index + 1 < t.root_history_size as int {
            t.next_index + 1
        } else {
            t.root_history_size as int
        },
        t.spec_known_root(t.root_log@[t.root_log@.len() - 1 - j]),
{
    let c = t.root_log@[t.root_log@.len() - 1 - j];
    assert(0 <= j < t.spec_window() && t.root_log@[t.root_log@.len() - 1 - j] == c);
}

/// Law: the root window, outward. A candidate that none of the most recent
/// `min(k + 1, capacity)` roots equals -- one from before the window slid
/// past it, or one the tree never had -- is not known.
pub proof fn lemma_root_outside_window_unknown(t: MerkleTreeAccount, candidate: Seq<u8>)
    requires
        t.wf(),
        forall|j: int|
            0 <= j < t.spec_window() ==> #[trigger] t.root_log@[t.root_log@.len() - 1 - j]
                != candidate,
    ensures
        !t.spec_known_root(candidate),
{
}

} // verus!
