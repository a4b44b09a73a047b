//! The equipment borrow ledger.
//!
//! Each record tracks one borrow of one item: who took it, when, and
//! — once it came back — when it was returned.  A record with no
//! return date is an open borrow; returning an item closes its first
//! open record.  Who may edit equipment at all is decided by
//! [`crate::ownership::check_equip_perm`].

use vstd::prelude::*;
use crate::OpError;
use crate::models::EquipmentHistory;

verus! {

/// The first record of the item that is still open (no return date),
/// if any.
pub open spec fn find_open_borrow(s: Seq<EquipmentHistory>, item_id: i64) -> Option<int>
    decreases s.len(),
{
    if s.len() == 0 {
        None
    } else if s[0].item_id == item_id && s[0].returned_date is None {
        Some(0)
    } else {
        match find_open_borrow(s.subrange(1, s.len() as int), item_id) {
            None => None,
            Some(i) => Some(i + 1),
        }
    }
}

/// The open-borrow lookup returns a valid index of an open record of
/// the item, the first one; or nothing when no record is open.
pub proof fn lemma_find_open_borrow_props(s: Seq<EquipmentHistory>, item_id: i64)
    ensures
        match find_open_borrow(s, item_id) {
            Some(i) => 0 <= i < s.len() && s[i].item_id == item_id && s[i].returned_date is None
                && forall|j: int|
                0 <= j < i ==> !((#[trigger] s[j]).item_id == item_id && s[j].returned_date
                    is None),
            None => forall|j: int|
                0 <= j < s.len() ==> !((#[trigger] s[j]).item_id == item_id && s[j].returned_date
                    is None),
        },
    decreases s.len(),
{
    if s.len() > 0 && !(s[0].item_id == item_id && s[0].returned_date is None) {
        let sub = s.subrange(1, s.len() as int);
        lemma_find_open_borrow_props(sub, item_id);
        match find_open_borrow(s, item_id) {
            Some(i) => {
                assert(sub[i - 1] == s[i]);
                assert forall|j: int|
                    0 <= j < i implies !((#[trigger] s[j]).item_id == item_id
                    && s[j].returned_date is None) by {
                    if j >= 1 {
                        assert(sub[j - 1] == s[j]);
                    }
                }
            },
            None => {
                assert forall|j: int|
                    0 <= j < s.len() implies !((#[trigger] s[j]).item_id == item_id
                    && s[j].returned_date is None) by {
                    if j >= 1 {
                        assert(sub[j - 1] == s[j]);
                    }
                }
            },
        }
    }
}

/// The first record with the given id, if any.
pub open spec fn find_history(s: Seq<EquipmentHistory>, id: i64) -> Option<EquipmentHistory>
    decreases s.len(),
{
    if s.len() == 0 {
        None
    } else if s[0].id == id {
        Some(s[0])
    } else {
        find_history(s.subrange(1, s.len() as int), id)
    }
}

/// When the first match of `id` stands at index `k`, the lookup
/// returns exactly that entry.
pub proof fn lemma_find_history_present(s: Seq<EquipmentHistory>, id: i64, k: int)
    requires
        0 <= k < s.len(),
        s[k].id == id,
        forall|j: int| 0 <= j < k ==> (#[trigger] s[j]).id != id,
    ensures
        find_history(s, id) == Some(s[k]),
    decreases s.len(),
{
    if s[0].id == id {
        assert(k == 0);
    } else {
        lemma_find_history_present(s.subrange(1, s.len() as int), id, k - 1);
    }
}

/// When no entry carries `id`, the lookup returns nothing.
pub proof fn lemma_find_history_absent(s: Seq<EquipmentHistory>, id: i64)
    requires
        forall|j: int| 0 <= j < s.len() ==> (#[trigger] s[j]).id != id,
    ensures
        find_history(s, id) is None,
    decreases s.len(),
{
    if s.len() > 0 {
        lemma_find_history_absent(s.subrange(1, s.len() as int), id);
    }
}

/// The records of one item, in stored order.
pub open spec fn histories_of_item(s: Seq<EquipmentHistory>, item_id: i64) -> Seq<EquipmentHistory>
    decreases s.len(),
{
    if s.len() == 0 {
        Seq::empty()
    } else {
        let rest = histories_of_item(s.drop_last(), item_id);
        if s.last().item_id == item_id {
            rest.push(s.last())
        } else {
            rest
        }
    }
}

/// An exact copy of a borrow record.
pub fn clone_history(h: &EquipmentHistory) -> (r: EquipmentHistory)
    ensures
        r == *h,
{
    EquipmentHistory {
        id: h.id,
        user: h.user.clone(),
        borrowed_date: h.borrowed_date,
        telephone: h.telephone.clone(),
        note: h.note.clone(),
        returned_date: h.returned_date,
        item_id: h.item_id,
    }
}

/// The borrow ledger.
pub struct EquipmentLedger {
    pub histories: Vec<EquipmentHistory>,
    pub next_id: i64,
}

impl EquipmentLedger {
    /// Well-formedness: unique record ids below the id counter.
    pub open spec fn wf(&self) -> bool {
        &&& self.next_id >= 1
        &&& forall|i: int|
            0 <= i < self.histories@.len() ==> 1 <= (#[trigger] self.histories@[i]).id
                < self.next_id
        &&& forall|i: int, j: int|
            0 <= i < j < self.histories@.len() ==> (#[trigger] self.histories@[i]).id != (
            #[trigger] self.histories@[j]).id
    }

    /// An empty ledger.
    pub fn new() -> (r: Self)
        ensures
            r.wf(),
            r.histories@.len() == 0,
            r.next_id == 1,
    {
        EquipmentLedger { histories: Vec::new(), next_id: 1 }
    }

    /// Records a borrow under a fresh id, which is returned.
    pub fn add_equipment_history(&mut self, rec: EquipmentHistory) -> (r: Result<i64, OpError>)
        requires
            old(self).wf(),
        ensures
            final(self).wf(),
            r is Err ==> *final(self) == *old(self) && r == Err::<i64, OpError>(OpError::Invalid)
                && old(self).next_id == i64::MAX,
            r matches Ok(id) ==> {
                &&& id == old(self).next_id
                &&& final(self).histories@ == old(self).histories@.push(
                    EquipmentHistory { id, ..rec },
                )
                &&& final(self).next_id == old(self).next_id + 1
            },
            old(self).next_id < i64::MAX ==> r is Ok,
    {
        if self.next_id == i64::MAX {
            return Err(OpError::Invalid);
        }
        let id = self.next_id;
        let stored = EquipmentHistory { id, ..rec };
        self.histories.push(stored);
        self.next_id = id + 1;
        Ok(id)
    }

    /// Closes the item's first open borrow by stamping the return
    /// date.  `NotFound` when the item has no open borrow.
    pub fn update_equipment_history(&mut self, item_id: i64, returned_date: i64) -> (r: Result<
        (),
        OpError,
    >)
        requires
            old(self).wf(),
        ensures
            final(self).wf(),
            final(self).next_id == old(self).next_id,
            r is Err ==> *final(self) == *old(self) && r == Err::<(), OpError>(OpError::NotFound)
                && find_open_borrow(old(self).histories@, item_id) is None,
            r is Ok ==> ({
                let i = find_open_borrow(old(self).histories@, item_id).unwrap();
                &&& find_open_borrow(old(self).histories@, item_id) is Some
                &&& final(self).histories@ == old(self).histories@.update(
                    i,
                    EquipmentHistory {
                        returned_date: Some(returned_date),
                        ..old(self).histories@[i]
                    },
                )
            }),
    {
        let n = self.histories.len();
        let mut k: usize = 0;
        while k < n
            invariant
                *self == *old(self),
                old(self).wf(),
                n == self.histories@.len(),
                0 <= k <= n,
                forall|j: int|
                    0 <= j < k ==> !((#[trigger] self.histories@[j]).item_id == item_id
                        && self.histories@[j].returned_date is None),
            decreases n - k,
        {
            let is_open = self.histories[k].item_id == item_id && self.histories[k].returned_date
                .is_none();
            if is_open {
                let mut rec = clone_history(&self.histories[k]);
                rec.returned_date = Some(returned_date);
                proof {
                    lemma_find_open_borrow_props(self.histories@, item_id);
                    assert(find_open_borrow(self.histories@, item_id) == Some(k as int)) by {
                        lemma_find_open_borrow_first(self.histories@, item_id, k as int);
                    }
                }
                self.histories.set(k, rec);
                return Ok(());
            }
            k += 1;
        }
        proof {
            lemma_find_open_borrow_props(self.histories@, item_id);
        }
        Err(OpError::NotFound)
    }

    /// Removes the record with the given id; reports whether one was
    /// removed.
    pub fn delete_equipment_history(&mut self, id: i64) -> (r: bool)
        requires
            old(self).wf(),
        ensures
            final(self).wf(),
            final(self).next_id == old(self).next_id,
            !r ==> *final(self) == *old(self) && find_history(old(self).histories@, id) is None,
            r ==> exists|k: int|
                {
                    &&& 0 <= k < old(self).histories@.len()
                    &&& (#[trigger] old(self).histories@[k]).id == id
                    &&& final(self).histories@ == old(self).histories@.remove(k)
                },
    {
        let n = self.histories.len();
        let mut k: usize = 0;
        while k < n
            invariant
                *self == *old(self),
                old(self).wf(),
                n == self.histories@.len(),
                0 <= k <= n,
                forall|j: int| 0 <= j < k ==> (#[trigger] self.histories@[j]).id != id,
            decreases n - k,
        {
            if self.histories[k].id == id {
                self.histories.remove(k);
                return true;
            }
            k += 1;
        }
        proof {
            lemma_find_history_absent(self.histories@, id);
        }
        false
    }

    /// A copy of the record with the given id.
    pub fn get_equipment_history_by_id(&self, id: i64) -> (r: Result<EquipmentHistory, OpError>)
        ensures
            r == match find_history(self.histories@, id) {
                Some(h) => Ok::<EquipmentHistory, OpError>(h),
                None => Err::<EquipmentHistory, OpError>(OpError::NotFound),
            },
    {
        let n = self.histories.len();
        let mut k: usize = 0;
        while k < n
            invariant
                n == self.histories@.len(),
                0 <= k <= n,
                forall|j: int| 0 <= j < k ==> (#[trigger] self.histories@[j]).id != id,
            decreases n - k,
        {
            if self.histories[k].id == id {
                proof {
                    lemma_find_history_present(self.histories@, id, k as int);
                }
                return Ok(clone_history(&self.histories[k]));
            }
            k += 1;
        }
        proof {
            lemma_find_history_absent(self.histories@, id);
        }
        Err(OpError::NotFound)
    }

    /// Copies of the records of one item — exactly those, nothing
    /// else — sorted by borrow date in descending order (most recent
    /// first).
    pub fn list_equipment_histories_by_item(&self, item_id: i64) -> (r: Vec<EquipmentHistory>)
        ensures
            r@.to_multiset() == histories_of_item(self.histories@, item_id).to_multiset(),
            forall|a: int, b: int|
                0 <= a < b < r@.len() ==> r@[a].borrowed_date >= r@[b].borrowed_date,
    {
        let n = self.histories.len();
        let mut out: Vec<EquipmentHistory> = Vec::new();
        let mut i: usize = 0;
        proof {
            assert(self.histories@.subrange(0, 0) =~= Seq::<EquipmentHistory>::empty());
            assert(out@.to_multiset() =~= Seq::<EquipmentHistory>::empty().to_multiset());
        }
        while i < n
            invariant
                n == self.histories@.len(),
                0 <= i <= n,
                out@.to_multiset() == histories_of_item(
                    self.histories@.subrange(0, i as int),
                    item_id,
                ).to_multiset(),
                forall|a: int, b: int|
                    0 <= a < b < out@.len() ==> out@[a].borrowed_date >= out@[b].borrowed_date,
            decreases n - i,
        {
            proof {
                assert(self.histories@.subrange(0, i + 1).drop_last() =~= self.histories@.subrange(
                    0,
                    i as int,
                ));
                assert(self.histories@.subrange(0, i + 1).last() == self.histories@[i as int]);
            }
            if self.histories[i].item_id == item_id {
                let m = clone_history(&self.histories[i]);
                let len = out.len();
                let mut p: usize = 0;
                while p < len && out[p].borrowed_date >= m.borrowed_date
                    invariant
                        len == out@.len(),
                        0 <= p <= len,
                        forall|q: int|
                            0 <= q < p ==> (#[trigger] out@[q]).borrowed_date >= m.borrowed_date,
                    decreases len - p,
                {
                    p += 1;
                }
                let ghost pre = out@;
                proof {
                    vstd::seq_lib::to_multiset_insert(pre, p as int, m);
                    vstd::seq_lib::to_multiset_build(
                        histories_of_item(self.histories@.subrange(0, i as int), item_id),
                        self.histories@[i as int],
                    );
                }
                out.insert(p, m);
                proof {
                    assert forall|a: int, b: int|
                        0 <= a < b < out@.len() implies out@[a].borrowed_date
                        >= out@[b].borrowed_date by {
                        if b < p as int {
                            assert(out@[a] == pre[a] && out@[b] == pre[b]);
                        } else if a < p as int && b == p as int {
                            assert(out@[a] == pre[a] && out@[b] == m);
                        } else if a < p as int && b > p as int {
                            assert(out@[a] == pre[a] && out@[b] == pre[b - 1]);
                        } else if a == p as int && b > p as int {
                            assert(out@[b] == pre[b - 1]);
                            assert(pre[p as int].borrowed_date < m.borrowed_date);
                        } else {
                            assert(out@[a] == pre[a - 1] && out@[b] == pre[b - 1]);
                        }
                    }
                }
            }
            i += 1;
        }
        proof {
            assert(self.histories@.subrange(0, n as int) =~= self.histories@);
        }
        out
    }
}

/// When the first open record of the item stands at index `k`, the
/// lookup returns exactly that index.
pub proof fn lemma_find_open_borrow_first(s: Seq<EquipmentHistory>, item_id: i64, k: int)
    requires
        0 <= k < s.len(),
        s[k].item_id == item_id && s[k].returned_date is None,
        forall|j: int|
            0 <= j < k ==> !((#[trigger] s[j]).item_id == item_id && s[j].returned_date is None),
    ensures
        find_open_borrow(s, item_id) == Some(k),
    decreases s.len(),
{
    if s[0].item_id == item_id && s[0].returned_date is None {
        assert(k == 0);
    } else {
        lemma_find_open_borrow_first(s.subrange(1, s.len() as int), item_id, k - 1);
    }
}

} // verus!
