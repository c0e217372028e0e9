use vstd::prelude::*;
use crate::model::{ItemError, ItemView, ShoppingListItem, ShoppingListItemState};

verus! {

broadcast use vstd::seq_lib::group_filter_ensures;

/// Some item of `s` has identifier `id`.
pub open spec fn contains_id(s: Seq<ItemView>, id: Seq<char>) -> bool {
    exists|i: int| 0 <= i < s.len() && (#[trigger] s[i]).id == id
}

/// No two items of `s` share an identifier.
pub open spec fn unique_ids(s: Seq<ItemView>) -> bool {
    forall|i: int, j: int|
        0 <= i < s.len() && 0 <= j < s.len() && (#[trigger] s[i]).id == (#[trigger] s[j]).id
            ==> i == j
}

/// Every item of `s` is well formed and identifiers are unique.
pub open spec fn table_wf(s: Seq<ItemView>) -> bool {
    &&& forall|i: int| 0 <= i < s.len() ==> (#[trigger] s[i]).wf()
    &&& unique_ids(s)
}

/// The items of `s` in state `st`, in table order.
pub open spec fn listed(s: Seq<ItemView>, st: ShoppingListItemState) -> Seq<ItemView> {
    s.filter(|v: ItemView| v.state == st)
}

/// The item with identifier `id` changed to state `st` with completion time `at`.
pub open spec fn with_state(
    v: ItemView,
    id: Seq<char>,
    st: ShoppingListItemState,
    at: Option<int>,
) -> ItemView {
    if v.id == id {
        ItemView { state: st, completed_at: at, ..v }
    } else {
        v
    }
}

/// `s` after every item with identifier `id` took state `st` and completion time `at`.
pub open spec fn updated(
    s: Seq<ItemView>,
    id: Seq<char>,
    st: ShoppingListItemState,
    at: Option<int>,
) -> Seq<ItemView> {
    s.map_values(|v: ItemView| with_state(v, id, st, at))
}

/// `s` without the items whose identifier is `id`.
pub open spec fn removed(s: Seq<ItemView>, id: Seq<char>) -> Seq<ItemView> {
    s.filter(|v: ItemView| v.id != id)
}

/// One more element of `s` seen by a filtering loop.
pub(crate) proof fn lemma_filter_take_step(s: Seq<ItemView>, p: spec_fn(ItemView) -> bool, i: int)
    requires
        0 <= i < s.len(),
    ensures
        s.take(i + 1).filter(p) == (if p(s[i]) {
            s.take(i).filter(p).push(s[i])
        } else {
            s.take(i).filter(p)
        }),
{
    reveal(Seq::filter);
    assert(s.take(i + 1).drop_last() =~= s.take(i));
}

/// Every item that filtering keeps comes from the filtered sequence.
pub(crate) proof fn lemma_filter_from(s: Seq<ItemView>, p: spec_fn(ItemView) -> bool)
    ensures
        forall|i: int| 0 <= i < s.filter(p).len() ==> s.contains(#[trigger] s.filter(p)[i]),
    decreases s.len(),
{
    reveal(Seq::filter);
    if s.len() > 0 {
        let d = s.drop_last();
        lemma_filter_from(d, p);
        let f = s.filter(p);
        assert forall|i: int| 0 <= i < f.len() implies s.contains(#[trigger] f[i]) by {
            if i < d.filter(p).len() {
                assert(f[i] == d.filter(p)[i]);
                assert(d.contains(f[i]));
                let k = choose|k: int| 0 <= k < d.len() && d[k] == f[i];
                assert(s[k] == d[k]);
            } else {
                assert(f[i] == s[s.len() - 1]);
            }
        }
    }
}

/// Filtering keeps identifiers unique and items well formed.
pub(crate) proof fn lemma_filter_keeps_wf(s: Seq<ItemView>, p: spec_fn(ItemView) -> bool)
    requires
        table_wf(s),
    ensures
        table_wf(s.filter(p)),
    decreases s.len(),
{
    let f = s.filter(p);
    lemma_filter_from(s, p);
    assert forall|i: int| 0 <= i < f.len() implies (#[trigger] f[i]).wf() by {
        assert(s.contains(f[i]));
    }
    if s.len() > 0 {
        let d = s.drop_last();
        assert(table_wf(d)) by {
            assert forall|i: int| 0 <= i < d.len() implies (#[trigger] d[i]).wf() by {
                assert(d[i] == s[i]);
            }
            assert forall|i: int, j: int|
                0 <= i < d.len() && 0 <= j < d.len() && (#[trigger] d[i]).id == (#[trigger] d[j]).id
                implies i == j by {
                assert(d[i] == s[i] && d[j] == s[j]);
            }
        }
        lemma_filter_keeps_wf(d, p);
        lemma_filter_from(d, p);
        reveal(Seq::filter);
        let df = d.filter(p);
        if p(s.last()) {
            assert(f == df.push(s.last()));
            assert forall|i: int, j: int|
                0 <= i < f.len() && 0 <= j < f.len() && (#[trigger] f[i]).id == (#[trigger] f[j]).id
                implies i == j by {
                if i < df.len() && j == df.len() {
                    assert(d.contains(df[i]));
                    let k = choose|k: int| 0 <= k < d.len() && d[k] == df[i];
                    assert(s[k] == d[k]);
                    assert(s[s.len() - 1].id == s[k].id);
                } else if j < df.len() && i == df.len() {
                    assert(d.contains(df[j]));
                    let k = choose|k: int| 0 <= k < d.len() && d[k] == df[j];
                    assert(s[k] == d[k]);
                    assert(s[s.len() - 1].id == s[k].id);
                } else if i < df.len() && j < df.len() {
                    assert(f[i] == df[i] && f[j] == df[j]);
                }
            }
        } else {
            assert(f == df);
        }
    }
}

/// The item table: the durable collection of shopping-list items, keyed by
/// identifier. It also remembers the identifiers of deleted items, so that
/// none of them is taken again.
pub struct ShoppingList {
    items: Vec<ShoppingListItem>,
    retired: Vec<String>,
}

impl View for ShoppingList {
    type V = Seq<ItemView>;

    closed spec fn view(&self) -> Seq<ItemView> {
        self.items@.map_values(|it: ShoppingListItem| it@)
    }
}

impl ShoppingList {
    /// `id` belonged to an item that was deleted from this table.
    pub closed spec fn is_retired(&self, id: Seq<char>) -> bool {
        exists|i: int| 0 <= i < self.retired@.len() && (#[trigger] self.retired@[i])@ == id
    }

    /// The items are well formed with unique identifiers, and no retired
    /// identifier is in use.
    pub open spec fn wf(&self) -> bool {
        &&& table_wf(self@)
        &&& forall|id: Seq<char>| #[trigger] self.is_retired(id) ==> !contains_id(self@, id)
    }

    /// An empty table with no retired identifiers.
    pub fn new() -> (r: ShoppingList)
        ensures
            r@ == Seq::<ItemView>::empty(),
            r.wf(),
            forall|id: Seq<char>| !#[trigger] r.is_retired(id),
    {
        let r = ShoppingList { items: Vec::new(), retired: Vec::new() };
        assert(r@ =~= Seq::<ItemView>::empty());
        r
    }

    /// Whether `id` belonged to an item deleted from this table.
    pub fn was_retired(&self, id: &String) -> (r: bool)
        ensures
            r == self.is_retired(id@),
    {
        let mut i: usize = 0;
        while i < self.retired.len()
            invariant
                i <= self.retired@.len(),
                forall|k: int| 0 <= k < i ==> (#[trigger] self.retired@[k])@ != id@,
            decreases self.retired@.len() - i,
        {
            if self.retired[i] == *id {
                return true;
            }
            i += 1;
        }
        false
    }

    pub fn len(&self) -> (r: usize)
        ensures
            r == self@.len(),
    {
        self.items.len()
    }

    /// Whether some item has identifier `id`.
    pub fn contains(&self, id: &String) -> (r: bool)
        ensures
            r == contains_id(self@, id@),
    {
        let mut i: usize = 0;
        while i < self.items.len()
            invariant
                i <= self.items@.len(),
                forall|k: int| 0 <= k < i ==> (#[trigger] self@[k]).id != id@,
            decreases self.items@.len() - i,
        {
            if self.items[i].id == *id {
                assert(self@[i as int].id == id@);
                return true;
            }
            i += 1;
        }
        false
    }

    /// The table holding `items` in order; refused when an item is not well
    /// formed or two items share an identifier.
    pub fn from_items(items: Vec<ShoppingListItem>) -> (r: Result<ShoppingList, ItemError>)
        ensures
            r is Ok <==> table_wf(items@.map_values(|it: ShoppingListItem| it@)),
            r matches Ok(l) ==> l.wf() && l@ == items@.map_values(|it: ShoppingListItem| it@)
                && forall|id: Seq<char>| !#[trigger] l.is_retired(id),
            r matches Err(e) ==> e == ItemError::Malformed,
    {
        let ghost s = items@.map_values(|it: ShoppingListItem| it@);
        let mut list = ShoppingList::new();
        let mut i: usize = 0;
        while i < items.len()
            invariant
                i <= items@.len(),
                s == items@.map_values(|it: ShoppingListItem| it@),
                list.wf(),
                list@ == s.take(i as int),
                forall|id: Seq<char>| !#[trigger] list.is_retired(id),
            decreases items@.len() - i,
        {
            let item = items[i].duplicate();
            if !item.is_well_formed() {
                assert(!s[i as int].wf());
                return Err(ItemError::Malformed);
            }
            let ghost before = list@;
            match list.insert(item) {
                Ok(()) => {},
                Err(_) => {
                    assert(!list.is_retired(s[i as int].id));
                    proof {
                        let k = choose|k: int|
                            0 <= k < before.len() && (#[trigger] before[k]).id == s[i as int].id;
                        assert(s[k] == before[k]);
                    }
                    return Err(ItemError::Malformed);
                },
            }
            assert(s.take(i + 1) =~= before.push(s[i as int]));
            i += 1;
        }
        assert(s.take(s.len() as int) =~= s);
        Ok(list)
    }

    /// A copy of the item with identifier `id`, if there is one.
    pub fn find(&self, id: &String) -> (r: Option<ShoppingListItem>)
        requires
            self.wf(),
        ensures
            r is None <==> !contains_id(self@, id@),
            r matches Some(it) ==> self@.contains(it@) && it@.id == id@,
    {
        let mut i: usize = 0;
        while i < self.items.len()
            invariant
                i <= self.items@.len(),
                forall|k: int| 0 <= k < i ==> (#[trigger] self@[k]).id != id@,
            decreases self.items@.len() - i,
        {
            assert(self@[i as int] == self.items@[i as int]@);
            if self.items[i].id == *id {
                return Some(self.items[i].duplicate());
            }
            i += 1;
        }
        None
    }

    /// Adds `item` at the end, unless its identifier is taken.
    pub fn insert(&mut self, item: ShoppingListItem) -> (r: Result<(), ItemError>)
        requires
            old(self).wf(),
            item@.wf(),
        ensures
            final(self).wf(),
            forall|id: Seq<char>| #[trigger] final(self).is_retired(id) == old(self).is_retired(id),
            r == (if contains_id(old(self)@, item@.id) || old(self).is_retired(item@.id) {
                Err(ItemError::DuplicateId)
            } else {
                Ok(())
            }),
            r is Ok ==> final(self)@ == old(self)@.push(item@),
            r is Err ==> final(self)@ == old(self)@,
    {
        if self.contains(&item.id) || self.was_retired(&item.id) {
            return Err(ItemError::DuplicateId);
        }
        let ghost s0 = self@;
        let ghost v = item@;
        self.items.push(item);
        assert(self@ =~= s0.push(v));
        assert(self.retired@ == old(self).retired@);
        assert forall|id: Seq<char>| #[trigger] self.is_retired(id) == old(self).is_retired(id) by {}
        assert forall|id: Seq<char>| #[trigger] self.is_retired(id) implies !contains_id(self@, id) by {
            assert(old(self).is_retired(id));
            assert(!contains_id(s0, id));
            if contains_id(self@, id) {
                let k = choose|k: int| 0 <= k < self@.len() && (#[trigger] self@[k]).id == id;
                if k < s0.len() {
                    assert(s0[k].id == id);
                }
            }
        }
        assert forall|i: int, j: int|
            0 <= i < self@.len() && 0 <= j < self@.len() && (#[trigger] self@[i]).id == (
            #[trigger] self@[j]).id implies i == j by {
            if i < s0.len() && j == s0.len() {
                assert(s0[i].id == v.id);
            } else if j < s0.len() && i == s0.len() {
                assert(s0[j].id == v.id);
            }
        }
        Ok(())
    }

    /// Copies of the items in state `st`, in table order.
    pub fn select_by_state(&self, st: ShoppingListItemState) -> (r: Vec<ShoppingListItem>)
        ensures
            r@.map_values(|it: ShoppingListItem| it@) == listed(self@, st),
    {
        let ghost p = |v: ItemView| v.state == st;
        let mut out: Vec<ShoppingListItem> = Vec::new();
        let mut i: usize = 0;
        while i < self.items.len()
            invariant
                i <= self.items@.len(),
                p == (|v: ItemView| v.state == st),
                out@.map_values(|it: ShoppingListItem| it@) == self@.take(i as int).filter(p),
            decreases self.items@.len() - i,
        {
            proof {
                lemma_filter_take_step(self@, p, i as int);
            }
            assert(self@[i as int] == self.items@[i as int]@);
            if self.items[i].state == st {
                let ghost before = out@;
                out.push(self.items[i].duplicate());
                assert(out@.map_values(|it: ShoppingListItem| it@) =~= before.map_values(
                    |it: ShoppingListItem| it@,
                ).push(self@[i as int]));
            }
            i += 1;
        }
        assert(self@.take(self@.len() as int) =~= self@);
        out
    }

    /// Sets state `st` and completion time `at` on the item with identifier
    /// `id`; returns whether there was one.
    pub fn update_state(&mut self, id: &String, st: ShoppingListItemState, at: Option<i64>) -> (r:
        bool)
        requires
            old(self).wf(),
            (at is Some <==> st == ShoppingListItemState::Acquired),
        ensures
            final(self).wf(),
            forall|x: Seq<char>| #[trigger] final(self).is_retired(x) == old(self).is_retired(x),
            r == contains_id(old(self)@, id@),
            final(self)@ == updated(
                old(self)@,
                id@,
                st,
                match at {
                    Some(t) => Some(t as int),
                    None => None,
                },
            ),
    {
        let ghost s0 = self@;
        let ghost a: Option<int> = match at {
            Some(t) => Some(t as int),
            None => None,
        };
        let ghost r0 = self.retired@;
        let mut found = false;
        let mut i: usize = 0;
        while i < self.items.len()
            invariant
                i <= self.items@.len(),
                self.retired@ == r0,
                self@.len() == s0.len(),
                (at is Some <==> st == ShoppingListItemState::Acquired),
                a == (match at {
                    Some(t) => Some(t as int),
                    None => None,
                }),
                forall|k: int| 0 <= k < i ==> #[trigger] self@[k] == with_state(s0[k], id@, st, a),
                forall|k: int| i <= k < s0.len() ==> #[trigger] self@[k] == s0[k],
                found <==> exists|k: int| 0 <= k < i && (#[trigger] s0[k]).id == id@,
            decreases self.items@.len() - i,
        {
            assert(self@[i as int] == self.items@[i as int]@);
            if self.items[i].id == *id {
                let mut it = self.items[i].duplicate();
                it.state = st;
                it.completed_at = at;
                let ghost before = self.items@;
                self.items.set(i, it);
                assert(self@ =~= before.map_values(|it: ShoppingListItem| it@).update(
                    i as int,
                    it@,
                ));
                found = true;
            }
            i += 1;
        }
        assert(self@ =~= updated(s0, id@, st, a));
        proof {
            let s = self@;
            assert forall|k: int| 0 <= k < s.len() implies (#[trigger] s[k]).wf() by {
                assert(s[k] == with_state(s0[k], id@, st, a));
                assert(s0[k].wf());
            }
            assert forall|k: int, j: int|
                0 <= k < s.len() && 0 <= j < s.len() && (#[trigger] s[k]).id == (#[trigger] s[j]).id
                implies k == j by {
                assert(s[k].id == s0[k].id && s[j].id == s0[j].id);
            }
            assert forall|x: Seq<char>| #[trigger] self.is_retired(x) implies !contains_id(s, x) by {
                assert(old(self).is_retired(x));
                if contains_id(s, x) {
                    let k = choose|k: int| 0 <= k < s.len() && (#[trigger] s[k]).id == x;
                    assert(s[k].id == s0[k].id);
                }
            }
            if found {
                let k = choose|k: int| 0 <= k < i && (#[trigger] s0[k]).id == id@;
                assert(contains_id(s0, id@));
            }
        }
        found
    }

    /// Removes the item with identifier `id`; returns whether there was one.
    pub fn delete_by_id(&mut self, id: &String) -> (r: bool)
        requires
            old(self).wf(),
        ensures
            final(self).wf(),
            forall|x: Seq<char>|
                #[trigger] final(self).is_retired(x) == (old(self).is_retired(x) || (r && x == id@)),
            r == contains_id(old(self)@, id@),
            final(self)@ == removed(old(self)@, id@),
    {
        let ghost s0 = self@;
        let ghost p = |v: ItemView| v.id != id@;
        let mut kept: Vec<ShoppingListItem> = Vec::new();
        let mut found = false;
        let mut i: usize = 0;
        while i < self.items.len()
            invariant
                i <= self.items@.len(),
                self@ == s0,
                p == (|v: ItemView| v.id != id@),
                kept@.map_values(|it: ShoppingListItem| it@) == s0.take(i as int).filter(p),
                found <==> exists|k: int| 0 <= k < i && (#[trigger] s0[k]).id == id@,
            decreases self.items@.len() - i,
        {
            proof {
                lemma_filter_take_step(s0, p, i as int);
            }
            assert(s0[i as int] == self.items@[i as int]@);
            if self.items[i].id == *id {
                found = true;
            } else {
                let ghost before = kept@;
                kept.push(self.items[i].duplicate());
                assert(kept@.map_values(|it: ShoppingListItem| it@) =~= before.map_values(
                    |it: ShoppingListItem| it@,
                ).push(s0[i as int]));
            }
            i += 1;
        }
        assert(s0.take(s0.len() as int) =~= s0);
        self.items = kept;
        let ghost r0 = self.retired@;
        if found {
            self.retired.push(id.clone());
        }
        proof {
            lemma_filter_keeps_wf(s0, p);
            lemma_filter_from(s0, p);
            if found {
                let k = choose|k: int| 0 <= k < i && (#[trigger] s0[k]).id == id@;
                assert(contains_id(s0, id@));
            }
            let s = self@;
            assert forall|x: Seq<char>|
                #[trigger] self.is_retired(x) == (old(self).is_retired(x) || (found && x == id@)) by {
                if self.is_retired(x) {
                    let j = choose|j: int| 0 <= j < self.retired@.len() && (#[trigger] self.retired@[j])@ == x;
                    if j < r0.len() {
                        assert(r0[j] == self.retired@[j]);
                    }
                }
                if old(self).is_retired(x) {
                    let j = choose|j: int| 0 <= j < r0.len() && (#[trigger] r0[j])@ == x;
                    assert(self.retired@[j] == r0[j]);
                }
                if found && x == id@ {
                    assert(self.retired@[self.retired@.len() - 1]@ == x);
                }
            }
            assert forall|x: Seq<char>| #[trigger] self.is_retired(x) implies !contains_id(s, x) by {
                if contains_id(s, x) {
                    let k = choose|k: int| 0 <= k < s.len() && (#[trigger] s[k]).id == x;
                    assert(s0.contains(s[k]));
                    let m = choose|m: int| 0 <= m < s0.len() && s0[m] == s[k];
                    assert(p(s[k]));
                }
            }
        }
        found
    }
}

} // verus!
