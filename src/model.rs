use vstd::prelude::*;

verus! {

/// The two states of an item.
#[derive(Clone, Copy, Debug, PartialEq, Eq, Structural)]
pub enum ShoppingListItemState {
    Pending,
    Acquired,
}

impl ShoppingListItemState {
    /// The text under which a state is stored and exchanged.
    pub open spec fn spec_value(self) -> Seq<char> {
        match self {
            ShoppingListItemState::Pending => "PENDING"@,
            ShoppingListItemState::Acquired => "ACQUIRED"@,
        }
    }

    pub fn value(&self) -> (r: &'static str)
        ensures
            r@ == self.spec_value(),
    {
        match self {
            ShoppingListItemState::Pending => "PENDING",
            ShoppingListItemState::Acquired => "ACQUIRED",
        }
    }
}

impl ShoppingListItemState {
    /// The state whose text is `s`, if any.
    pub fn from_value(s: &String) -> (r: Option<ShoppingListItemState>)
        ensures
            r matches Some(st) ==> st.spec_value() == s@,
            r is None ==> s@ != ShoppingListItemState::Pending.spec_value() && s@
                != ShoppingListItemState::Acquired.spec_value(),
    {
        broadcast use vstd::string::to_string_from_display_ensures_for_str;

        let pending = ShoppingListItemState::Pending.value().to_string();
        let acquired = ShoppingListItemState::Acquired.value().to_string();
        if *s == pending {
            Some(ShoppingListItemState::Pending)
        } else if *s == acquired {
            Some(ShoppingListItemState::Acquired)
        } else {
            None
        }
    }
}

/// What a client sends to create an item.
#[derive(Clone, Debug)]
pub struct CreateShoppingListItemRequest {
    pub name: String,
    pub quantity: String,
    /// An already encoded binary payload (base64 text), never inspected.
    pub image: Option<String>,
}

pub open spec fn opt_view(o: Option<String>) -> Option<Seq<char>> {
    match o {
        Some(s) => Some(s@),
        None => None,
    }
}

/// The abstract value of an item: its fields as sequences and integers.
pub struct ItemView {
    pub id: Seq<char>,
    pub name: Seq<char>,
    pub quantity: Seq<char>,
    pub image: Option<Seq<char>>,
    pub state: ShoppingListItemState,
    pub created_at: int,
    pub completed_at: Option<int>,
}

impl ItemView {
    /// A completion time is present exactly when the item is acquired,
    /// and name and quantity are present.
    pub open spec fn wf(self) -> bool {
        &&& self.name.len() > 0
        &&& self.quantity.len() > 0
        &&& (self.completed_at is Some <==> self.state == ShoppingListItemState::Acquired)
    }
}

/// One entry of the shopping list. Timestamps are whole seconds since the
/// Unix epoch, in UTC.
#[derive(Clone, Debug)]
pub struct ShoppingListItem {
    pub id: String,
    pub name: String,
    pub quantity: String,
    pub image: Option<String>,
    pub state: ShoppingListItemState,
    pub created_at: i64,
    pub completed_at: Option<i64>,
}

impl View for ShoppingListItem {
    type V = ItemView;

    open spec fn view(&self) -> ItemView {
        ItemView {
            id: self.id@,
            name: self.name@,
            quantity: self.quantity@,
            image: opt_view(self.image),
            state: self.state,
            created_at: self.created_at as int,
            completed_at: match self.completed_at {
                Some(t) => Some(t as int),
                None => None,
            },
        }
    }
}

fn copy_text(o: &Option<String>) -> (r: Option<String>)
    ensures
        opt_view(r) == opt_view(*o),
{
    match o {
        Some(s) => Some(s.clone()),
        None => None,
    }
}

impl ShoppingListItem {
    /// Whether name and quantity are present and a completion time is
    /// present exactly when the item is acquired.
    pub fn is_well_formed(&self) -> (r: bool)
        ensures
            r == self@.wf(),
    {
        !self.name.as_str().is_empty() && !self.quantity.as_str().is_empty() && (
        self.completed_at.is_some() == (self.state == ShoppingListItemState::Acquired))
    }

    /// A copy of the item with the same abstract value.
    pub fn duplicate(&self) -> (r: ShoppingListItem)
        ensures
            r@ == self@,
    {
        ShoppingListItem {
            id: self.id.clone(),
            name: self.name.clone(),
            quantity: self.quantity.clone(),
            image: copy_text(&self.image),
            state: self.state,
            created_at: self.created_at,
            completed_at: self.completed_at,
        }
    }
}

/// Why an operation on the list did not take place.
#[derive(Clone, Copy, Debug, PartialEq, Eq, Structural)]
pub enum ItemError {
    /// The request has an empty name.
    MissingName,
    /// The request has a name but an empty quantity.
    MissingQuantity,
    /// An item with the generated identifier is already in the list.
    DuplicateId,
    /// No item has the given identifier.
    NotFound,
    /// Stored items are not well formed or share an identifier.
    Malformed,
}

/// The items of one state, as a listing returns them.
#[derive(Clone, Debug)]
pub struct FindAllShoppingListItemsResponse {
    pub items: Vec<ShoppingListItem>,
}

impl FindAllShoppingListItemsResponse {
    pub open spec fn spec_items(self) -> Seq<ItemView> {
        self.items@.map_values(|it: ShoppingListItem| it@)
    }
}

} // verus!
