//! The ledger: the records of one program, each at its address.
//!
//! The ledger knows nothing of keys. It is a map from addresses to records
//! in which a record can be created, looked up, written and closed.

use vstd::prelude::*;
use crate::address::same_address;
use crate::state::{Candidate, Counter, Poll, Registrations, Voter};

verus! {

/// A record of any of the five kinds.
#[derive(Debug)]
pub enum Record {
    Counter(Counter),
    Registrations(Registrations),
    Poll(Poll),
    Candidate(Candidate),
    Voter(Voter),
}

impl Clone for Record {
    fn clone(&self) -> (copy: Record)
        ensures
            copy == *self,
    {
        match self {
            Record::Counter(counter) => Record::Counter(*counter),
            Record::Registrations(registrations) => Record::Registrations(*registrations),
            Record::Poll(poll) => Record::Poll(poll.clone()),
            Record::Candidate(candidate) => Record::Candidate(candidate.clone()),
            Record::Voter(voter) => Record::Voter(*voter),
        }
    }
}

struct Slot {
    address: [u8; 32],
    record: Record,
}

/// The records of one program. No two of them share an address.
pub struct Ledger {
    program_id: [u8; 32],
    slots: Vec<Slot>,
}

impl View for Ledger {
    type V = Map<Seq<u8>, Record>;

    /// The ledger as a map from addresses to records. The program that the
    /// records belong to is not part of it: that is `id`.
    closed spec fn view(&self) -> Map<Seq<u8>, Record> {
        Map::new(
            |address: Seq<u8>| exists|i: int| self.holds(address, i),
            |address: Seq<u8>| self.slots@[choose|i: int| self.holds(address, i)].record,
        )
    }
}

impl Ledger {
    /// No address occurs twice.
    pub closed spec fn wf(&self) -> bool {
        forall|i: int, j: int|
            0 <= i < j < self.slots@.len() ==> self.slots@[i].address@ != self.slots@[j].address@
    }

    /// The program whose records these are.
    pub closed spec fn id(&self) -> [u8; 32] {
        self.program_id
    }

    closed spec fn holds(&self, address: Seq<u8>, i: int) -> bool {
        0 <= i < self.slots@.len() && self.slots@[i].address@ == address
    }

    proof fn lemma_slots(&self)
        requires
            self.wf(),
        ensures
            forall|address: Seq<u8>, i: int| #[trigger]
                self.holds(address, i) ==> self@.dom().contains(address) && self@[address]
                    == self.slots@[i].record,
            forall|address: Seq<u8>| #[trigger]
                self@.dom().contains(address) ==> exists|i: int| self.holds(address, i),
    {
        assert forall|address: Seq<u8>, i: int| #[trigger] self.holds(address, i) implies self@[address]
            == self.slots@[i].record by {
            let j = choose|j: int| self.holds(address, j);
            assert(self.holds(address, j));
            assert(i == j);
        }
    }

    proof fn lemma_view_is(&self, records: Map<Seq<u8>, Record>)
        requires
            self.wf(),
            forall|address: Seq<u8>, i: int| #[trigger]
                self.holds(address, i) ==> records.dom().contains(address) && records[address]
                    == self.slots@[i].record,
            forall|address: Seq<u8>| #[trigger]
                records.dom().contains(address) ==> exists|i: int| self.holds(address, i),
        ensures
            self@ == records,
    {
        self.lemma_slots();
        assert(self@ =~= records);
    }

    /// A ledger without records.
    pub fn new(program_id: [u8; 32]) -> (ledger: Ledger)
        ensures
            ledger.wf(),
            ledger.id() == program_id,
            ledger@ == Map::<Seq<u8>, Record>::empty(),
    {
        let ledger = Ledger { program_id, slots: Vec::new() };
        proof {
            ledger.lemma_view_is(Map::empty());
        }
        ledger
    }

    /// The program whose records these are.
    pub fn program_id(&self) -> (program_id: [u8; 32])
        ensures
            program_id == self.id(),
    {
        self.program_id
    }

    fn find(&self, address: &[u8; 32]) -> (found: Option<usize>)
        requires
            self.wf(),
        ensures
            match found {
                Some(i) => self.holds(address@, i as int),
                None => !self@.dom().contains(address@),
            },
    {
        let mut i: usize = 0;
        while i < self.slots.len()
            invariant
                i <= self.slots@.len(),
                forall|k: int| 0 <= k < i ==> !self.holds(address@, k),
            decreases self.slots@.len() - i,
        {
            if same_address(&self.slots[i].address, address) {
                return Some(i);
            }
            i += 1;
        }
        proof {
            self.lemma_slots();
        }
        None
    }

    /// Whether a record lives at the address.
    pub fn contains(&self, address: &[u8; 32]) -> (present: bool)
        requires
            self.wf(),
        ensures
            present == self@.dom().contains(address@),
    {
        proof {
            self.lemma_slots();
        }
        self.find(address).is_some()
    }

    /// The record at the address, if one lives there.
    pub fn get(&self, address: &[u8; 32]) -> (record: Option<Record>)
        requires
            self.wf(),
        ensures
            match record {
                Some(r) => self@.dom().contains(address@) && self@[address@] == r,
                None => !self@.dom().contains(address@),
            },
    {
        proof {
            self.lemma_slots();
        }
        match self.find(address) {
            Some(i) => Some(self.slots[i].record.clone()),
            None => None,
        }
    }

    /// Writes a record to the address, over the one that lives there or as a
    /// new one.
    pub fn put(&mut self, address: [u8; 32], record: Record)
        requires
            old(self).wf(),
        ensures
            final(self).wf(),
            final(self).id() == old(self).id(),
            final(self)@ == old(self)@.insert(address@, record),
    {
        let ghost before = *self;
        proof {
            before.lemma_slots();
        }
        match self.find(&address) {
            Some(i) => {
                self.slots.remove(i);
            },
            None => {},
        }
        let ghost middle = *self;
        self.slots.push(Slot { address, record });
        proof {
            assert forall|x: Seq<u8>, k: int| #[trigger] middle.holds(x, k) implies x != address@
                && exists|j: int| before.holds(x, j) && before.slots@[j] == middle.slots@[k] by {
                if before.slots@.len() == middle.slots@.len() {
                    assert(before.holds(x, k));
                } else {
                    let i = choose|i: int| before.holds(address@, i);
                    if k < i {
                        assert(before.holds(x, k));
                    } else {
                        assert(before.holds(x, k + 1));
                    }
                }
            }
            assert forall|x: Seq<u8>, j: int| #[trigger]
                before.holds(x, j) && x != address@ implies exists|k: int| middle.holds(x, k) by {
                if before.slots@.len() == middle.slots@.len() {
                    assert(middle.holds(x, j));
                } else {
                    let i = choose|i: int| before.holds(address@, i);
                    if j < i {
                        assert(middle.holds(x, j));
                    } else {
                        assert(middle.holds(x, j - 1));
                    }
                }
            }
            let last = middle.slots@.len() as int;
            assert(self.holds(address@, last));
            assert forall|x: Seq<u8>, k: int| #[trigger] self.holds(x, k) implies (k == last && x
                == address@) || (k < last && middle.holds(x, k)) by {}
            assert(self.wf()) by {
                assert forall|i: int, j: int| 0 <= i < j < self.slots@.len() implies self.slots@[i].address@
                    != self.slots@[j].address@ by {
                    assert(self.holds(self.slots@[i].address@, i));
                    assert(self.holds(self.slots@[j].address@, j));
                    assert(middle.holds(self.slots@[i].address@, i));
                    if j < last {
                        assert(middle.holds(self.slots@[j].address@, j));
                        let a = choose|a: int|
                            before.holds(self.slots@[i].address@, a) && before.slots@[a]
                                == middle.slots@[i];
                        let b = choose|b: int|
                            before.holds(self.slots@[j].address@, b) && before.slots@[b]
                                == middle.slots@[j];
                        if self.slots@[i].address@ == self.slots@[j].address@ {
                            assert(a == b);
                            if before.slots@.len() == middle.slots@.len() {
                            } else {
                                let r = choose|r: int| before.holds(address@, r);
                                assert(before.slots@[if i < r { i } else { i + 1 }]
                                    == middle.slots@[i]);
                                assert(before.slots@[if j < r { j } else { j + 1 }]
                                    == middle.slots@[j]);
                            }
                        }
                    }
                }
            }
            let target = before@.insert(address@, record);
            assert forall|x: Seq<u8>, k: int| #[trigger] self.holds(x, k) implies target.dom().contains(
                x,
            ) && target[x] == self.slots@[k].record by {
                if k < last {
                    assert(middle.holds(x, k));
                }
            }
            assert forall|x: Seq<u8>| #[trigger] target.dom().contains(x) implies exists|k: int|
                self.holds(x, k) by {
                if x != address@ {
                    let j = choose|j: int| before.holds(x, j);
                    assert(before.holds(x, j));
                    let k = choose|k: int| middle.holds(x, k);
                    assert(self.holds(x, k));
                }
            }
            self.lemma_view_is(target);
        }
    }

    /// Closes the record at the address, if one lives there.
    pub fn close(&mut self, address: &[u8; 32])
        requires
            old(self).wf(),
        ensures
            final(self).wf(),
            final(self).id() == old(self).id(),
            final(self)@ == old(self)@.remove(address@),
    {
        let ghost before = *self;
        proof {
            before.lemma_slots();
        }
        match self.find(address) {
            Some(i) => {
                self.slots.remove(i);
                proof {
                    let r = i as int;
                    assert forall|x: Seq<u8>, k: int| #[trigger] self.holds(x, k) implies x
                        != address@ && before.holds(x, if k < r { k } else { k + 1 })
                        && before.slots@[if k < r { k } else { k + 1 }] == self.slots@[k] by {
                        if k < r {
                            assert(before.holds(x, k));
                        } else {
                            assert(before.holds(x, k + 1));
                        }
                    }
                    assert(self.wf()) by {
                        assert forall|i: int, j: int| 0 <= i < j < self.slots@.len() implies self.slots@[i].address@
                            != self.slots@[j].address@ by {
                            assert(self.holds(self.slots@[i].address@, i));
                            assert(self.holds(self.slots@[j].address@, j));
                        }
                    }
                    let target = before@.remove(address@);
                    assert forall|x: Seq<u8>| #[trigger] target.dom().contains(x) implies exists|
                        k: int,
                    | self.holds(x, k) by {
                        let j = choose|j: int| before.holds(x, j);
                        assert(before.holds(x, j));
                        if j < r {
                            assert(self.holds(x, j));
                        } else {
                            assert(self.holds(x, j - 1));
                        }
                    }
                    self.lemma_view_is(target);
                }
            },
            None => {
                proof {
                    assert(before@.remove(address@) =~= before@);
                }
            },
        }
    }
}

} // verus!
