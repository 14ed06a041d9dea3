//! The palette's slot map: an association vector from addresses to slots,
//! kept in increasing lexicographic address order, viewed as a map from
//! addresses to the elements the slots hold.

use vstd::prelude::*;
use vstd::arithmetic::div_mod::lemma_fundamental_div_mod_converse;
use crate::address::Address;
use crate::assoc::{
    assoc_map_of, has_key, lemma_assoc_insert, lemma_assoc_map_of, lemma_assoc_update,
    unique_keys,
};
use crate::element::{ColorElement, Slot};

verus! {

/// The entries are strictly increasing in the lexicographic address order;
/// map iteration therefore runs in address order, which fixes the
/// serialization order of any palette format walking the map.
pub open spec fn sorted_by_ord(s: Seq<(Address, Slot)>) -> bool {
    forall|i: int, j: int|
        0 <= i < j < s.len() ==> (#[trigger] s[i]).0.ord() < (#[trigger] s[j]).0.ord()
}

/// The lexicographic key determines the address completely.
pub proof fn lemma_ord_injective(a: Address, b: Address)
    requires
        a.ord() == b.ord(),
    ensures
        a == b,
{
    let qa = a.page as int * 0x100 + a.line as int;
    let qb = b.page as int * 0x100 + b.line as int;
    assert(a.ord() == qa * 0x100 + a.column as int);
    assert(b.ord() == qb * 0x100 + b.column as int);
    lemma_fundamental_div_mod_converse(a.ord(), 0x100, qa, a.column as int);
    lemma_fundamental_div_mod_converse(b.ord(), 0x100, qb, b.column as int);
    lemma_fundamental_div_mod_converse(qa, 0x100, a.page as int, a.line as int);
    lemma_fundamental_div_mod_converse(qb, 0x100, b.page as int, b.line as int);
}

/// Strictly sorted entries have pairwise distinct keys.
pub proof fn lemma_sorted_implies_unique(s: Seq<(Address, Slot)>)
    requires
        sorted_by_ord(s),
    ensures
        unique_keys(s),
{
}

/// A map from addresses to palette slots with unique keys, iterated in
/// address order.
#[derive(Debug)]
pub struct SlotMap {
    pub entries: Vec<(Address, Slot)>,
}

impl View for SlotMap {
    type V = Map<Address, ColorElement>;

    open spec fn view(&self) -> Map<Address, ColorElement> {
        assoc_map_of(self.entries@, |s: Slot| s.element)
    }
}

/// The lexicographic key of an address, as a machine integer.
fn ord_key(a: Address) -> (r: u32)
    ensures
        r == a.ord(),
{
    a.page as u32 * 0x10000 + a.line as u32 * 0x100 + a.column as u32
}

impl SlotMap {
    pub open spec fn wf(&self) -> bool {
        sorted_by_ord(self.entries@)
    }

    pub fn new() -> (r: SlotMap)
        ensures
            r.wf(),
            r@ == Map::<Address, ColorElement>::empty(),
    {
        SlotMap { entries: Vec::new() }
    }

    /// Number of occupied addresses.
    pub fn len(&self) -> (r: usize)
        requires
            self.wf(),
        ensures
            r == self@.len(),
    {
        proof {
            lemma_sorted_implies_unique(self.entries@);
            lemma_assoc_map_of(self.entries@, |s: Slot| s.element);
        }
        self.entries.len()
    }

    /// Index of the address's entry, if the address is occupied.
    fn find(&self, address: Address) -> (r: Option<usize>)
        ensures
            match r {
                Some(i) => i < self.entries@.len() && self.entries@[i as int].0 == address,
                None => !has_key(self.entries@, address),
            },
    {
        let mut i: usize = 0;
        while i < self.entries.len()
            invariant
                i <= self.entries@.len(),
                forall|j: int| 0 <= j < i ==> (#[trigger] self.entries@[j]).0 != address,
            decreases self.entries@.len() - i,
        {
            if self.entries[i].0 == address {
                return Some(i);
            }
            i = i + 1;
        }
        None
    }

    /// The slot stored at the address, if any.
    pub fn get(&self, address: Address) -> (r: Option<&Slot>)
        requires
            self.wf(),
        ensures
            match r {
                Some(s) => self@.contains_key(address) && self@[address] == s.element,
                None => !self@.contains_key(address),
            },
    {
        proof {
            lemma_sorted_implies_unique(self.entries@);
            lemma_assoc_map_of(self.entries@, |s: Slot| s.element);
        }
        match self.find(address) {
            Some(i) => Some(&self.entries[i].1),
            None => None,
        }
    }

    /// Whether the address is occupied by a slot.
    pub fn contains_key(&self, address: Address) -> (r: bool)
        requires
            self.wf(),
        ensures
            r == self@.contains_key(address),
    {
        match self.get(address) {
            Some(_) => true,
            None => false,
        }
    }

    /// Stores the slot at the address, replacing any slot already there and
    /// keeping the entries in address order.
    pub fn set(&mut self, address: Address, slot: Slot)
        requires
            old(self).wf(),
        ensures
            final(self).wf(),
            final(self)@ == old(self)@.insert(address, slot.element),
    {
        proof {
            lemma_sorted_implies_unique(self.entries@);
            lemma_assoc_map_of(self.entries@, |s: Slot| s.element);
        }
        match self.find(address) {
            Some(i) => {
                let ghost s = self.entries@;
                self.entries.remove(i);
                self.entries.insert(i, (address, slot));
                proof {
                    let v = self.entries@[i as int];
                    assert(self.entries@ =~= s.update(i as int, v));
                    lemma_assoc_update(s, |x: Slot| x.element, i as int, v);
                    assert forall|p: int, q: int| 0 <= p < q < self.entries@.len() implies (
                    #[trigger] self.entries@[p]).0.ord() < (#[trigger] self.entries@[q]).0.ord() by {
                        assert((self.entries@[p]).0 == (s[p]).0);
                        assert((self.entries@[q]).0 == (s[q]).0);
                    }
                }
            },
            None => {
                let key = ord_key(address);
                let mut p: usize = 0;
                while p < self.entries.len() && ord_key(self.entries[p].0) < key
                    invariant
                        p <= self.entries@.len(),
                        key == address.ord(),
                        forall|j: int| 0 <= j < p ==> (#[trigger] self.entries@[j]).0.ord()
                            < address.ord(),
                        self.wf(),
                        !has_key(self.entries@, address),
                        self.entries@ == old(self).entries@,
                    decreases self.entries@.len() - p,
                {
                    p = p + 1;
                }
                let ghost s = self.entries@;
                self.entries.insert(p, (address, slot));
                proof {
                    lemma_assoc_insert(s, |x: Slot| x.element, p as int, (address, slot));
                    let t = self.entries@;
                    assert forall|i: int, j: int| 0 <= i < j < t.len() implies (
                    #[trigger] t[i]).0.ord() < (#[trigger] t[j]).0.ord() by {
                        if p < s.len() && (s[p as int]).0.ord() == address.ord() {
                            lemma_ord_injective((s[p as int]).0, address);
                            assert((s[p as int]).0 == address);
                            assert(false);
                        }
                        if i != p && j != p {
                            let i2: int = if i < p { i } else { i - 1 };
                            let j2: int = if j < p { j } else { j - 1 };
                            assert(t[i] == s[i2] && t[j] == s[j2]);
                        } else if i == p {
                            assert(t[j] == s[j - 1]);
                            assert((s[j - 1]).0.ord() > address.ord());
                        } else {
                            assert(t[i] == s[i]);
                        }
                    }
                }
            },
        }
    }
}

} // verus!
