use vstd::prelude::*;

use crate::item::Item;

verus! {

/// Every record of `m` is stored under its own id.
pub open spec fn keyed_by_id(m: Map<Seq<char>, Item>) -> bool {
    forall|k: Seq<char>| #[trigger] m.contains_key(k) ==> m[k].id@ == k
}

/// No two records of `s` share an id.
pub open spec fn distinct_ids(s: Seq<Item>) -> bool {
    forall|i: int, j: int|
        0 <= i < s.len() && 0 <= j < s.len() && i != j ==> #[trigger] s[i].id@ != #[trigger] s[j].id@
}

/// `s` holds every record of `m` exactly once, in some order.
pub open spec fn lists(m: Map<Seq<char>, Item>, s: Seq<Item>) -> bool {
    &&& s.len() == m.dom().len()
    &&& distinct_ids(s)
    &&& forall|i: int| 0 <= i < s.len() ==> m.contains_key(#[trigger] s[i].id@) && m[s[i].id@] == s[i]
    &&& forall|k: Seq<char>| #[trigger] m.contains_key(k) ==> exists|i: int| 0 <= i < s.len() && s[i].id@ == k
}

/// A keyed table of records: at most one record per id, a later insert replacing the earlier.
pub struct Store {
    items: Vec<Item>,
    model: Ghost<Map<Seq<char>, Item>>,
}

impl View for Store {
    type V = Map<Seq<char>, Item>;

    closed spec fn view(&self) -> Map<Seq<char>, Item> {
        self.model@
    }
}

impl Store {
    /// The records are stored once each, under their ids, and are exactly the model's.
    pub closed spec fn wf(&self) -> bool {
        &&& self.model@.dom().finite()
        &&& keyed_by_id(self.model@)
        &&& lists(self.model@, self.items@)
    }

    pub fn new() -> (s: Store)
        ensures
            s.wf(),
            s@ == Map::<Seq<char>, Item>::empty(),
    {
        Store { items: Vec::new(), model: Ghost(Map::empty()) }
    }

    /// Inserts `item` under its id, replacing any record held under that id.
    /// The empty id is an ordinary key: it is stored like any other.
    pub fn put(&mut self, item: Item)
        requires
            old(self).wf(),
        ensures
            final(self).wf(),
            final(self)@ == old(self)@.insert(item.id@, item),
    {
        let ghost m = self.model@;
        let mut i: usize = 0;
        while i < self.items.len()
            invariant
                0 <= i <= self.items.len(),
                self.wf(),
                self.model@ == m,
                m == old(self)@,
                forall|j: int| 0 <= j < i ==> self.items@[j].id@ != item.id@,
            decreases self.items.len() - i,
        {
            if self.items[i].id == item.id {
                let ghost prev = self.items@;
                proof {
                    self.model@ = m.insert(item.id@, item);
                    assert(m.dom().insert(item.id@) =~= m.dom());
                }
                self.items.set(i, item);
                proof {
                    let nm = self.model@;
                    let s = self.items@;
                    assert forall|k: Seq<char>| #[trigger] nm.contains_key(k)
                        implies exists|j: int| 0 <= j < s.len() && s[j].id@ == k by {
                        if k == item.id@ {
                            assert(s[i as int].id@ == k);
                        } else {
                            let j = choose|j: int| 0 <= j < prev.len() && prev[j].id@ == k;
                            assert(j != i);
                            assert(s[j].id@ == k);
                        }
                    }
                }
                return;
            }
            i = i + 1;
        }
        proof {
            assert(!m.contains_key(item.id@));
            self.model@ = m.insert(item.id@, item);
        }
        let ghost prev = self.items@;
        self.items.push(item);
        proof {
            let nm = self.model@;
            let s = self.items@;
            assert(s[prev.len() as int] == item);
            assert forall|k: Seq<char>| #[trigger] nm.contains_key(k)
                implies exists|j: int| 0 <= j < s.len() && s[j].id@ == k by {
                if k == item.id@ {
                    assert(s[prev.len() as int].id@ == k);
                } else {
                    let j = choose|j: int| 0 <= j < prev.len() && prev[j].id@ == k;
                    assert(s[j].id@ == k);
                }
            }
        }
    }

    /// Copies of all stored records, one per id, in no particular order.
    pub fn list(&self) -> (r: Vec<Item>)
        requires
            self.wf(),
        ensures
            lists(self@, r@),
    {
        let mut r: Vec<Item> = Vec::new();
        let mut i: usize = 0;
        while i < self.items.len()
            invariant
                0 <= i <= self.items.len(),
                r@ =~= self.items@.subrange(0, i as int),
            decreases self.items.len() - i,
        {
            r.push(self.items[i].clone());
            i = i + 1;
        }
        assert(r@ =~= self.items@);
        r
    }
}

} // verus!
