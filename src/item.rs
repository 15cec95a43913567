use vstd::prelude::*;

verus! {

/// A record held by the store: a caller-chosen identifier and the caller's payload.
#[derive(Debug)]
pub struct Item {
    pub id: String,
    pub value: i64,
}

impl Item {
    pub fn new(id: String, value: i64) -> (r: Item)
        ensures
            r.id@ == id@,
            r.value == value,
    {
        Item { id, value }
    }
}

impl Clone for Item {
    fn clone(&self) -> (r: Self)
        ensures
            r == *self,
    {
        Item { id: self.id.clone(), value: self.value }
    }
}

/// Two records are equal when their fields are.
impl PartialEq for Item {
    fn eq(&self, o: &Item) -> (r: bool) {
        self.id == o.id && self.value == o.value
    }
}

impl vstd::std_specs::cmp::PartialEqSpecImpl for Item {
    open spec fn obeys_eq_spec() -> bool {
        true
    }

    open spec fn eq_spec(&self, o: &Item) -> bool {
        self.id@ == o.id@ && self.value == o.value
    }
}

impl Eq for Item {
}

} // verus!
