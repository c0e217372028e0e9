use vstd::prelude::*;
use crate::clock::utc_now_seconds;
use crate::ident::{is_id_char, new_id, ID_LEN};
use crate::model::{
    opt_view, CreateShoppingListItemRequest, FindAllShoppingListItemsResponse,
    ItemError, ItemView, ShoppingListItem, ShoppingListItemState,
};
use crate::table::{contains_id, listed, removed, updated, ShoppingList};

verus! {

/// The item that a request creates: pending, with no completion time.
pub open spec fn new_pending(
    req: CreateShoppingListItemRequest,
    id: Seq<char>,
    now: int,
) -> ItemView {
    ItemView {
        id: id,
        name: req.name@,
        quantity: req.quantity@,
        image: opt_view(req.image),
        state: ShoppingListItemState::Pending,
        created_at: now,
        completed_at: None,
    }
}

/// Why a request is invalid, if it is.
pub open spec fn request_error(req: CreateShoppingListItemRequest) -> Option<ItemError> {
    if req.name@.len() == 0 {
        Some(ItemError::MissingName)
    } else if req.quantity@.len() == 0 {
        Some(ItemError::MissingQuantity)
    } else {
        None
    }
}

/// The outcome of creating an item from `req` under identifier `id` in
/// table `list`: the identifier must be neither in use nor retired.
pub open spec fn create_result(
    list: ShoppingList,
    req: CreateShoppingListItemRequest,
    id: Seq<char>,
) -> Result<(), ItemError> {
    match request_error(req) {
        Some(e) => Err(e),
        None => if contains_id(list@, id) || list.is_retired(id) {
            Err(ItemError::DuplicateId)
        } else {
            Ok(())
        },
    }
}

/// A string of the shape that `create` generates as identifier.
pub open spec fn is_generated_id(id: Seq<char>) -> bool {
    &&& id.len() == ID_LEN
    &&& forall|i: int| 0 <= i < id.len() ==> is_id_char(#[trigger] id[i])
}

/// The outcome of an update or delete of identifier `id` in table `s`.
pub open spec fn lookup_result(s: Seq<ItemView>, id: Seq<char>) -> Result<(), ItemError> {
    if contains_id(s, id) {
        Ok(())
    } else {
        Err(ItemError::NotFound)
    }
}

impl CreateShoppingListItemRequest {
    /// Checks that name and quantity are present.
    pub fn validate(&self) -> (r: Result<(), ItemError>)
        ensures
            r == (match request_error(*self) {
                Some(e) => Err(e),
                None => Ok(()),
            }),
    {
        if self.name.as_str().is_empty() {
            Err(ItemError::MissingName)
        } else if self.quantity.as_str().is_empty() {
            Err(ItemError::MissingQuantity)
        } else {
            Ok(())
        }
    }
}

impl ShoppingListItem {
    /// Creates the item that `request` describes, under identifier `id` and
    /// with creation time `now`, and stores it at the end of `list`.
    pub fn create_with(
        request: CreateShoppingListItemRequest,
        id: String,
        now: i64,
        list: &mut ShoppingList,
    ) -> (r: Result<(), ItemError>)
        requires
            old(list).wf(),
        ensures
            final(list).wf(),
            forall|x: Seq<char>| #[trigger] final(list).is_retired(x) == old(list).is_retired(x),
            r == create_result(*old(list), request, id@),
            r is Ok ==> final(list)@ == old(list)@.push(new_pending(request, id@, now as int)),
            r is Err ==> final(list)@ == old(list)@,
    {
        match request.validate() {
            Err(e) => {
                return Err(e);
            },
            Ok(()) => {},
        }
        let ghost req = request;
        let item = ShoppingListItem {
            id: id,
            name: request.name,
            quantity: request.quantity,
            image: request.image,
            state: ShoppingListItemState::Pending,
            created_at: now,
            completed_at: None,
        };
        assert(item@ == new_pending(req, item.id@, now as int));
        list.insert(item)
    }

    /// Creates the item that `request` describes under a fresh random
    /// identifier, stamped with the current time, and returns the identifier.
    /// An invalid request is refused before anything else happens.
    pub fn create(request: CreateShoppingListItemRequest, list: &mut ShoppingList) -> (r: Result<
        String,
        ItemError,
    >)
        requires
            old(list).wf(),
        ensures
            final(list).wf(),
            request_error(request) matches Some(e) ==> r == Err::<String, ItemError>(e),
            request_error(request) is None ==> (r is Ok || r == Err::<String, ItemError>(
                ItemError::DuplicateId,
            )),
            forall|x: Seq<char>| #[trigger] final(list).is_retired(x) == old(list).is_retired(x),
            r is Err ==> final(list)@ == old(list)@,
            r == Err::<String, ItemError>(ItemError::DuplicateId) ==> exists|id: Seq<char>|
                #[trigger] is_generated_id(id) && (contains_id(old(list)@, id) || old(list).is_retired(
                    id,
                )),
            r matches Ok(id) ==> {
                &&& is_generated_id(id@)
                &&& !contains_id(old(list)@, id@)
                &&& !old(list).is_retired(id@)
                &&& exists|now: int|
                    now >= 0 && final(list)@ == old(list)@.push(
                        #[trigger] new_pending(request, id@, now),
                    )
            },
    {
        match request.validate() {
            Err(e) => {
                return Err(e);
            },
            Ok(()) => {},
        }
        let id = new_id();
        let now = utc_now_seconds();
        let kept = id.clone();
        match Self::create_with(request, id, now, list) {
            Ok(()) => {
                assert(final(list)@ == old(list)@.push(new_pending(request, kept@, now as int)));
                Ok(kept)
            },
            Err(e) => {
                assert(is_generated_id(kept@));
                Err(e)
            },
        }
    }

    /// The items of `list` in state `state`, in table order.
    pub fn fetch_all_by_state(state: ShoppingListItemState, list: &ShoppingList) -> (r:
        FindAllShoppingListItemsResponse)
        ensures
            r.spec_items() == listed(list@, state),
    {
        FindAllShoppingListItemsResponse { items: list.select_by_state(state) }
    }

    /// Marks the item with identifier `id` acquired at time `now`, whatever
    /// its state was.
    pub fn acquire_at(id: String, now: i64, list: &mut ShoppingList) -> (r: Result<(), ItemError>)
        requires
            old(list).wf(),
        ensures
            final(list).wf(),
            forall|x: Seq<char>| #[trigger] final(list).is_retired(x) == old(list).is_retired(x),
            r == lookup_result(old(list)@, id@),
            final(list)@ == updated(
                old(list)@,
                id@,
                ShoppingListItemState::Acquired,
                Some(now as int),
            ),
    {
        if list.update_state(&id, ShoppingListItemState::Acquired, Some(now)) {
            Ok(())
        } else {
            Err(ItemError::NotFound)
        }
    }

    /// Marks the item with identifier `id` acquired at the current time.
    pub fn acquire(id: String, list: &mut ShoppingList) -> (r: Result<(), ItemError>)
        requires
            old(list).wf(),
        ensures
            final(list).wf(),
            forall|x: Seq<char>| #[trigger] final(list).is_retired(x) == old(list).is_retired(x),
            r == lookup_result(old(list)@, id@),
            exists|now: int|
                now >= 0 && final(list)@ == #[trigger] updated(
                    old(list)@,
                    id@,
                    ShoppingListItemState::Acquired,
                    Some(now),
                ),
    {
        let now = utc_now_seconds();
        Self::acquire_at(id, now, list)
    }

    /// Marks the item with identifier `id` pending again and clears its
    /// completion time, whatever its state was.
    pub fn release(id: String, list: &mut ShoppingList) -> (r: Result<(), ItemError>)
        requires
            old(list).wf(),
        ensures
            final(list).wf(),
            forall|x: Seq<char>| #[trigger] final(list).is_retired(x) == old(list).is_retired(x),
            r == lookup_result(old(list)@, id@),
            final(list)@ == updated(old(list)@, id@, ShoppingListItemState::Pending, None),
    {
        if list.update_state(&id, ShoppingListItemState::Pending, None) {
            Ok(())
        } else {
            Err(ItemError::NotFound)
        }
    }

    /// Removes the item with identifier `id` for good.
    pub fn delete(id: String, list: &mut ShoppingList) -> (r: Result<(), ItemError>)
        requires
            old(list).wf(),
        ensures
            final(list).wf(),
            forall|x: Seq<char>|
                #[trigger] final(list).is_retired(x) == (old(list).is_retired(x) || (r is Ok && x
                    == id@)),
            r == lookup_result(old(list)@, id@),
            final(list)@ == removed(old(list)@, id@),
    {
        if list.delete_by_id(&id) {
            Ok(())
        } else {
            Err(ItemError::NotFound)
        }
    }
}

} // verus!
