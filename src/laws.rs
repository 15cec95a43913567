use vstd::prelude::*;

use crate::item::Item;
use crate::store::{distinct_ids, lists};

verus! {

/// The table reached from `m` by storing the records of `s` one after another.
pub open spec fn puts(m: Map<Seq<char>, Item>, s: Seq<Item>) -> Map<Seq<char>, Item>
    decreases s.len(),
{
    if s.len() == 0 {
        m
    } else {
        puts(m, s.drop_last()).insert(s.last().id@, s.last())
    }
}

/// The ids that occur in `s`.
pub open spec fn ids(s: Seq<Item>) -> Set<Seq<char>> {
    s.map_values(|x: Item| x.id@).to_set()
}

/// Storing `a` and then `b` under the same id leaves exactly `b` there, as if `a` had never
/// been stored; a listing afterwards shows `b` whole and nothing of `a`.
pub proof fn lemma_replace_not_merge(m: Map<Seq<char>, Item>, a: Item, b: Item, r: Seq<Item>)
    requires
        a.id@ == b.id@,
        lists(puts(m, seq![a, b]), r),
    ensures
        puts(m, seq![a, b]) == puts(m, seq![b]),
        puts(m, seq![a, b])[b.id@] == b,
        exists|i: int| 0 <= i < r.len() && r[i] == b,
        forall|i: int| 0 <= i < r.len() && #[trigger] r[i].id@ == b.id@ ==> r[i] == b,
{
    let ab = seq![a, b];
    assert(ab.drop_last() =~= seq![a]);
    assert(seq![a].drop_last() =~= Seq::<Item>::empty());
    assert(seq![b].drop_last() =~= Seq::<Item>::empty());
    assert(puts(m, Seq::<Item>::empty()) == m);
    assert(seq![a].last() == a && seq![b].last() == b && ab.last() == b);
    assert(puts(m, seq![a]) == m.insert(a.id@, a));
    assert(puts(m, seq![b]) == m.insert(b.id@, b));
    assert(puts(m, ab) == puts(m, seq![a]).insert(b.id@, b));
    assert(puts(m, ab) =~= puts(m, seq![b]));
    let t = puts(m, ab);
    assert(t.contains_key(b.id@));
    let i = choose|i: int| 0 <= i < r.len() && r[i].id@ == b.id@;
    assert(r[i] == b);
}

/// The domain of `puts(m, s)` is the domain of `m` together with the ids of `s`.
pub proof fn lemma_puts_domain(m: Map<Seq<char>, Item>, s: Seq<Item>)
    ensures
        puts(m, s).dom() == m.dom().union(ids(s)),
    decreases s.len(),
{
    if s.len() == 0 {
        assert(ids(s) =~= Set::<Seq<char>>::empty());
        assert(m.dom().union(ids(s)) =~= m.dom());
    } else {
        let p = s.drop_last();
        lemma_puts_domain(m, p);
        assert(s.map_values(|x: Item| x.id@) =~= p.map_values(|x: Item| x.id@).push(s.last().id@));
        assert forall|k: Seq<char>| ids(s).contains(k) <==> ids(p).contains(k) || k == s.last().id@ by {
            let sv = s.map_values(|x: Item| x.id@);
            let pv = p.map_values(|x: Item| x.id@);
            if ids(s).contains(k) {
                let j = choose|j: int| 0 <= j < sv.len() && sv[j] == k;
                if j < pv.len() {
                    assert(pv[j] == k);
                }
            }
            if ids(p).contains(k) {
                let j = choose|j: int| 0 <= j < pv.len() && pv[j] == k;
                assert(sv[j] == k);
            }
            if k == s.last().id@ {
                assert(sv[sv.len() - 1] == k);
            }
        }
        assert(puts(m, s).dom() =~= m.dom().union(ids(s)));
    }
}

/// However many records are stored into a new table, a listing holds one record per
/// distinct id stored, and no id twice.
pub proof fn lemma_key_uniqueness(s: Seq<Item>, r: Seq<Item>)
    requires
        lists(puts(Map::empty(), s), r),
    ensures
        r.len() == ids(s).len(),
        r.map_values(|x: Item| x.id@).to_set() == ids(s),
        distinct_ids(r),
{
    lemma_puts_domain(Map::empty(), s);
    let t = puts(Map::<Seq<char>, Item>::empty(), s);
    assert(t.dom() =~= ids(s));
    let rv = r.map_values(|x: Item| x.id@);
    assert forall|k: Seq<char>| rv.to_set().contains(k) <==> t.dom().contains(k) by {
        if rv.to_set().contains(k) {
            let j = choose|j: int| 0 <= j < rv.len() && rv[j] == k;
            assert(t.contains_key(r[j].id@));
        }
        if t.contains_key(k) {
            let j = choose|j: int| 0 <= j < r.len() && r[j].id@ == k;
            assert(rv[j] == k);
        }
    }
    assert(rv.to_set() =~= ids(s));
}

/// Two listings of one table hold the same records: what a caller does with the copies one
/// listing handed out does not show in the next.
pub proof fn lemma_listings_agree(m: Map<Seq<char>, Item>, r1: Seq<Item>, r2: Seq<Item>)
    requires
        lists(m, r1),
        lists(m, r2),
    ensures
        r1.to_set() == r2.to_set(),
{
    assert forall|x: Item| r1.to_set().contains(x) <==> r2.to_set().contains(x) by {
        if r1.to_set().contains(x) {
            let i = choose|i: int| 0 <= i < r1.len() && r1[i] == x;
            let j = choose|j: int| 0 <= j < r2.len() && r2[j].id@ == x.id@;
            assert(r2[j] == x);
        }
        if r2.to_set().contains(x) {
            let i = choose|i: int| 0 <= i < r2.len() && r2[i] == x;
            let j = choose|j: int| 0 <= j < r1.len() && r1[j].id@ == x.id@;
            assert(r1[j] == x);
        }
    }
    assert(r1.to_set() =~= r2.to_set());
}

/// A new table lists nothing.
pub proof fn lemma_empty_lists_nothing(r: Seq<Item>)
    requires
        lists(Map::empty(), r),
    ensures
        r.len() == 0,
{
}

} // verus!
