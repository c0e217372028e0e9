use vstd::prelude::*;
use crate::model::{CreateShoppingListItemRequest, ItemError, ItemView, ShoppingListItemState};
use crate::service::{lookup_result, new_pending, request_error};
use crate::table::{
    contains_id, lemma_filter_from, listed, removed, table_wf, updated, ShoppingList,
};

verus! {

broadcast use vstd::seq_lib::group_filter_ensures;

/// Appending one item to `s` appends it to the listing of its state when it
/// satisfies `p`, and leaves the listing as it was otherwise.
proof fn lemma_filter_push(s: Seq<ItemView>, v: ItemView, p: spec_fn(ItemView) -> bool)
    ensures
        s.push(v).filter(p) == (if p(v) {
            s.filter(p).push(v)
        } else {
            s.filter(p)
        }),
{
    reveal(Seq::filter);
    assert(s.push(v).drop_last() =~= s);
}

/// Creating a valid item under a fresh identifier adds exactly that item,
/// pending and without a completion time, at the end of the pending listing,
/// which held no item with that identifier before; the acquired listing
/// stays as it was.
pub proof fn lemma_create_then_list(
    s: Seq<ItemView>,
    req: CreateShoppingListItemRequest,
    id: Seq<char>,
    now: int,
)
    requires
        table_wf(s),
        request_error(req) is None,
        !contains_id(s, id),
    ensures
        listed(s.push(new_pending(req, id, now)), ShoppingListItemState::Pending) == listed(
            s,
            ShoppingListItemState::Pending,
        ).push(new_pending(req, id, now)),
        !contains_id(listed(s, ShoppingListItemState::Pending), id),
        listed(s.push(new_pending(req, id, now)), ShoppingListItemState::Acquired) == listed(
            s,
            ShoppingListItemState::Acquired,
        ),
{
    let v = new_pending(req, id, now);
    lemma_filter_push(s, v, |x: ItemView| x.state == ShoppingListItemState::Pending);
    lemma_filter_push(s, v, |x: ItemView| x.state == ShoppingListItemState::Acquired);
    let l = listed(s, ShoppingListItemState::Pending);
    lemma_filter_from(s, |x: ItemView| x.state == ShoppingListItemState::Pending);
    if contains_id(l, id) {
        let i = choose|i: int| 0 <= i < l.len() && (#[trigger] l[i]).id == id;
        assert(s.contains(l[i]));
    }
}

/// Acquiring and then releasing an item leaves it pending, without a
/// completion time, and with every other field as before; an item that was
/// pending comes back exactly as it was. Other items do not change.
pub proof fn lemma_acquire_release_round_trip(s: Seq<ItemView>, id: Seq<char>, t: int)
    requires
        table_wf(s),
    ensures
        updated(
            updated(s, id, ShoppingListItemState::Acquired, Some(t)),
            id,
            ShoppingListItemState::Pending,
            None,
        ) == updated(s, id, ShoppingListItemState::Pending, None),
        forall|i: int|
            0 <= i < s.len() ==> #[trigger] updated(s, id, ShoppingListItemState::Pending, None)[i]
                == (if s[i].id == id {
                ItemView { state: ShoppingListItemState::Pending, completed_at: None, ..s[i] }
            } else {
                s[i]
            }),
        forall|i: int|
            0 <= i < s.len() && s[i].state == ShoppingListItemState::Pending ==> #[trigger] updated(
                s,
                id,
                ShoppingListItemState::Pending,
                None,
            )[i] == s[i],
{
    assert(updated(
        updated(s, id, ShoppingListItemState::Acquired, Some(t)),
        id,
        ShoppingListItemState::Pending,
        None,
    ) =~= updated(s, id, ShoppingListItemState::Pending, None));
    assert forall|i: int| 0 <= i < s.len() && s[i].state == ShoppingListItemState::Pending implies
        #[trigger] updated(s, id, ShoppingListItemState::Pending, None)[i] == s[i] by {
        assert(s[i].wf());
    }
}

/// Acquiring an item twice, at times `t1 <= t2`, leaves it acquired after
/// each call, the second completion time no earlier than the first.
pub proof fn lemma_acquire_twice(s: Seq<ItemView>, id: Seq<char>, t1: int, t2: int)
    requires
        t1 <= t2,
    ensures
        ({
            let a1 = updated(s, id, ShoppingListItemState::Acquired, Some(t1));
            let a2 = updated(a1, id, ShoppingListItemState::Acquired, Some(t2));
            forall|i: int|
                0 <= i < s.len() && (#[trigger] s[i]).id == id ==> {
                    &&& a1[i].state == ShoppingListItemState::Acquired
                    &&& a2[i].state == ShoppingListItemState::Acquired
                    &&& a1[i].completed_at == Some(t1)
                    &&& a2[i].completed_at == Some(t2)
                    &&& a2[i] == ItemView { completed_at: Some(t2), ..a1[i] }
                }
        }),
{
}

/// Every item is listed under exactly one of the two states, and no
/// identifier occurs in both listings.
pub proof fn lemma_partition(s: Seq<ItemView>)
    requires
        table_wf(s),
    ensures
        forall|v: ItemView|
            #[trigger] s.contains(v) ==> listed(s, ShoppingListItemState::Pending).contains(v)
                || listed(s, ShoppingListItemState::Acquired).contains(v),
        forall|v: ItemView|
            #[trigger] listed(s, ShoppingListItemState::Pending).contains(v) ==> s.contains(v),
        forall|v: ItemView|
            #[trigger] listed(s, ShoppingListItemState::Acquired).contains(v) ==> s.contains(v),
        forall|id: Seq<char>|
            !(#[trigger] contains_id(listed(s, ShoppingListItemState::Pending), id)
                && #[trigger] contains_id(listed(s, ShoppingListItemState::Acquired), id)),
{
    let pp = |x: ItemView| x.state == ShoppingListItemState::Pending;
    let pa = |x: ItemView| x.state == ShoppingListItemState::Acquired;
    lemma_filter_from(s, pp);
    lemma_filter_from(s, pa);
    let lp = listed(s, ShoppingListItemState::Pending);
    let la = listed(s, ShoppingListItemState::Acquired);
    assert forall|v: ItemView| s.contains(v) <==> (lp.contains(v) || la.contains(v)) by {
        if s.contains(v) {
            let i = choose|i: int| 0 <= i < s.len() && s[i] == v;
            if v.state == ShoppingListItemState::Pending {
                assert(lp.contains(s[i]));
            } else {
                assert(la.contains(s[i]));
            }
        }
        if lp.contains(v) {
            let j = choose|j: int| 0 <= j < lp.len() && lp[j] == v;
            assert(s.contains(lp[j]));
        }
        if la.contains(v) {
            let j = choose|j: int| 0 <= j < la.len() && la[j] == v;
            assert(s.contains(la[j]));
        }
    }
    assert forall|id: Seq<char>| !(#[trigger] contains_id(lp, id) && #[trigger] contains_id(la, id)) by {
        if contains_id(lp, id) && contains_id(la, id) {
            let i = choose|i: int| 0 <= i < lp.len() && (#[trigger] lp[i]).id == id;
            let j = choose|j: int| 0 <= j < la.len() && (#[trigger] la[j]).id == id;
            assert(s.contains(lp[i]));
            assert(s.contains(la[j]));
            let a = choose|a: int| 0 <= a < s.len() && s[a] == lp[i];
            let b = choose|b: int| 0 <= b < s.len() && s[b] == la[j];
            assert(s[a].id == s[b].id);
            assert(pp(lp[i]));
            assert(pa(la[j]));
        }
    }
}

/// After a delete the identifier is in neither listing, and any further
/// acquire, release or delete of it reports that it is not found and changes
/// nothing.
pub proof fn lemma_delete_final(s: Seq<ItemView>, id: Seq<char>, t: int)
    ensures
        ({
            let d = removed(s, id);
            &&& !contains_id(d, id)
            &&& !contains_id(listed(d, ShoppingListItemState::Pending), id)
            &&& !contains_id(listed(d, ShoppingListItemState::Acquired), id)
            &&& lookup_result(d, id) == Err::<(), ItemError>(ItemError::NotFound)
            &&& updated(d, id, ShoppingListItemState::Acquired, Some(t)) == d
            &&& updated(d, id, ShoppingListItemState::Pending, None) == d
            &&& removed(d, id) == d
        }),
{
    let d = removed(s, id);
    let pd = |x: ItemView| x.id != id;
    lemma_filter_from(s, pd);
    if contains_id(d, id) {
        let i = choose|i: int| 0 <= i < d.len() && (#[trigger] d[i]).id == id;
        assert(pd(d[i]));
    }
    let lp = listed(d, ShoppingListItemState::Pending);
    let la = listed(d, ShoppingListItemState::Acquired);
    lemma_filter_from(d, |x: ItemView| x.state == ShoppingListItemState::Pending);
    lemma_filter_from(d, |x: ItemView| x.state == ShoppingListItemState::Acquired);
    if contains_id(lp, id) {
        let i = choose|i: int| 0 <= i < lp.len() && (#[trigger] lp[i]).id == id;
        assert(d.contains(lp[i]));
    }
    if contains_id(la, id) {
        let i = choose|i: int| 0 <= i < la.len() && (#[trigger] la[i]).id == id;
        assert(d.contains(la[i]));
    }
    assert forall|i: int| 0 <= i < d.len() implies (#[trigger] d[i]).id != id by {}
    assert(updated(d, id, ShoppingListItemState::Acquired, Some(t)) =~= d);
    assert(updated(d, id, ShoppingListItemState::Pending, None) =~= d);
    lemma_filter_all(d, pd);
}

/// Filtering with a predicate that every element satisfies changes nothing.
proof fn lemma_filter_all(s: Seq<ItemView>, p: spec_fn(ItemView) -> bool)
    requires
        forall|i: int| 0 <= i < s.len() ==> p(#[trigger] s[i]),
    ensures
        s.filter(p) == s,
    decreases s.len(),
{
    reveal(Seq::filter);
    if s.len() > 0 {
        let d = s.drop_last();
        assert forall|i: int| 0 <= i < d.len() implies p(#[trigger] d[i]) by {
            assert(d[i] == s[i]);
        }
        lemma_filter_all(d, p);
        assert(d.push(s.last()) =~= s);
    }
}

/// A deleted identifier stays retired under every later operation (their
/// contracts keep the retired set and only `delete` adds to it), and
/// `create` refuses it. While it is retired no item has it, so it is in
/// neither listing.
pub proof fn lemma_retired_never_listed(list: ShoppingList, id: Seq<char>)
    requires
        list.wf(),
        list.is_retired(id),
    ensures
        !contains_id(list@, id),
        !contains_id(listed(list@, ShoppingListItemState::Pending), id),
        !contains_id(listed(list@, ShoppingListItemState::Acquired), id),
{
    let s = list@;
    let lp = listed(s, ShoppingListItemState::Pending);
    let la = listed(s, ShoppingListItemState::Acquired);
    lemma_filter_from(s, |x: ItemView| x.state == ShoppingListItemState::Pending);
    lemma_filter_from(s, |x: ItemView| x.state == ShoppingListItemState::Acquired);
    if contains_id(lp, id) {
        let i = choose|i: int| 0 <= i < lp.len() && (#[trigger] lp[i]).id == id;
        assert(s.contains(lp[i]));
    }
    if contains_id(la, id) {
        let i = choose|i: int| 0 <= i < la.len() && (#[trigger] la[i]).id == id;
        assert(s.contains(la[i]));
    }
}

} // verus!
