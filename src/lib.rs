//! A shopping list: items move between a pending and an acquired state,
//! held in an item table with a unique identifier per item.

pub mod model;
pub mod clock;
pub mod ident;
pub mod table;
pub mod service;
pub mod laws;

pub use model::{
    CreateShoppingListItemRequest, FindAllShoppingListItemsResponse, ItemError, ShoppingListItem,
    ShoppingListItemState,
};
pub use table::ShoppingList;
