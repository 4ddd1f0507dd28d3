//! The double-spend guard: an insert-if-absent set of consumed nullifiers.
//!
//! The host ledger realizes this as exclusive creation of a marker record at
//! an address derived from the namespace tag and the nullifier value; the
//! guard's semantics is the transactional set over those keys.

use vstd::prelude::*;

use crate::error::ErrorCode;

verus! {

/// The set of nullifiers consumed so far, keyed by `(namespace tag, value)`.
///
/// The two input slots of a transfer use distinct namespace tags, so equal
/// raw values in different slots never collide.
pub struct NullifierSet {
    pub entries: Vec<(u8, [u8; 32])>,
}

impl NullifierSet {
    /// Whether `(ns, value)` was consumed already.
    pub open spec fn spec_contains(self, ns: u8, value: Seq<u8>) -> bool {
        exists|i: int|
            0 <= i < self.entries@.len() && (#[trigger] self.entries@[i]).0 == ns
                && self.entries@[i].1@ == value
    }

    /// What one consume attempt must answer on this state.
    pub open spec fn spec_consume_result(self, ns: u8, value: Seq<u8>) -> Result<(), ErrorCode> {
        if self.spec_contains(ns, value) {
            Err(ErrorCode::NullifierAlreadyUsed)
        } else {
            Ok(())
        }
    }

    /// An empty guard: nothing consumed yet.
    pub fn new() -> (r: NullifierSet)
        ensures
            r.entries@.len() == 0,
            forall|ns: u8, v: Seq<u8>| !r.spec_contains(ns, v),
    {
        NullifierSet { entries: Vec::new() }
    }

    /// Whether the marker for `(ns, value)` exists.
    pub fn is_spent(&self, ns: u8, value: &[u8; 32]) -> (r: bool)
        ensures
            r == self.spec_contains(ns, value@),
    {
        let mut i: usize = 0;
        while i < self.entries.len()
            invariant
                i <= self.entries@.len(),
                forall|k: int|
                    0 <= k < i ==> !((#[trigger] self.entries@[k]).0 == ns && self.entries@[k].1@
                        == value@),
            decreases self.entries@.len() - i,
        {
            let (ens, evalue) = self.entries[i];
            if ens == ns && crate::merkle_tree::bytes32_eq(&evalue, value) {
                return true;
            }
            i = i + 1;
        }
        false
    }

    /// Consumes one nullifier: creates its marker, exclusively.
    ///
    /// Fails, changing nothing, exactly when the marker already exists.
    pub fn consume(&mut self, ns: u8, value: &[u8; 32]) -> (r: Result<(), ErrorCode>)
        ensures
            r == old(self).spec_consume_result(ns, value@),
            match r {
                Ok(()) => final(self).entries@ == old(self).entries@.push((ns, *value)),
                Err(_) => *final(self) == *old(self),
            },
    {
        if self.is_spent(ns, value) {
            return Err(ErrorCode::NullifierAlreadyUsed);
        }
        self.entries.push((ns, *value));
        Ok(())
    }

    /// Consumes the two input nullifiers of one transfer, all or nothing:
    /// slot 0 under tag 0, slot 1 under tag 1.
    ///
    /// Fails, changing nothing, exactly when either marker already exists.
    pub fn consume_pair(&mut self, value0: &[u8; 32], value1: &[u8; 32]) -> (r: Result<
        (),
        ErrorCode,
    >)
        ensures
            match r {
                Ok(()) => {
                    &&& !old(self).spec_contains(0, value0@)
                    &&& !old(self).spec_contains(1, value1@)
                    &&& final(self).entries@ == old(self).entries@.push((0u8, *value0)).push(
                        (1u8, *value1),
                    )
                    &&& final(self).spec_contains(0, value0@)
                    &&& final(self).spec_contains(1, value1@)
                },
                Err(e) => {
                    &&& e == ErrorCode::NullifierAlreadyUsed
                    &&& old(self).spec_contains(0, value0@) || old(self).spec_contains(1, value1@)
                    &&& *final(self) == *old(self)
                },
            },
    {
        if self.is_spent(0, value0) || self.is_spent(1, value1) {
            return Err(ErrorCode::NullifierAlreadyUsed);
        }
        let ghost before = self.entries@;
        self.entries.push((0, *value0));
        self.entries.push((1, *value1));
        proof {
            assert(self.entries@[before.len() as int] == (0u8, *value0));
            assert(self.entries@[before.len() as int + 1] == (1u8, *value1));
        }
        Ok(())
    }
}

/// Law: a nullifier can be consumed once. If a consume attempt on `s`
/// succeeds and adds the key, any later state that still contains the key
/// answers the same attempt with an error.
pub proof fn lemma_nullifier_exclusivity(s: NullifierSet, t: NullifierSet, ns: u8, value: Seq<u8>)
    requires
        s.spec_consume_result(ns, value) == Ok::<(), ErrorCode>(()),
        t.spec_contains(ns, value),
    ensures
        !s.spec_contains(ns, value),
        t.spec_consume_result(ns, value) == Err::<(), ErrorCode>(ErrorCode::NullifierAlreadyUsed),
{
}

} // verus!
