use shopping_list::clock::timestamp_text;
use shopping_list::{
    CreateShoppingListItemRequest, ItemError, ShoppingList, ShoppingListItem,
    ShoppingListItemState,
};
use std::time::{SystemTime, UNIX_EPOCH};

fn request(name: &str, quantity: &str, image: Option<&str>) -> CreateShoppingListItemRequest {
    CreateShoppingListItemRequest {
        name: name.to_string(),
        quantity: quantity.to_string(),
        image: image.map(|s| s.to_string()),
    }
}

fn now_secs() -> i64 {
    SystemTime::now().duration_since(UNIX_EPOCH).unwrap().as_secs() as i64
}

fn pending(list: &ShoppingList) -> Vec<ShoppingListItem> {
    ShoppingListItem::fetch_all_by_state(ShoppingListItemState::Pending, list).items
}

fn acquired(list: &ShoppingList) -> Vec<ShoppingListItem> {
    ShoppingListItem::fetch_all_by_state(ShoppingListItemState::Acquired, list).items
}

#[test]
fn milk_scenario() {
    let mut list = ShoppingList::new();
    let id = ShoppingListItem::create(request("Milk", "2L", None), &mut list).unwrap();

    let p = pending(&list);
    assert_eq!(p.len(), 1);
    assert_eq!(p[0].name, "Milk");
    assert_eq!(p[0].quantity, "2L");
    assert_eq!(p[0].state.value(), "PENDING");
    assert_eq!(p[0].completed_at, None);
    assert!(acquired(&list).is_empty());

    assert_eq!(ShoppingListItem::acquire(id.clone(), &mut list), Ok(()));
    let a = acquired(&list);
    assert_eq!(a.len(), 1);
    assert_eq!(a[0].id, id);
    assert_eq!(a[0].state.value(), "ACQUIRED");
    assert!(a[0].completed_at.is_some());
    assert!(pending(&list).is_empty());

    assert_eq!(ShoppingListItem::release(id.clone(), &mut list), Ok(()));
    let p = pending(&list);
    assert_eq!(p.len(), 1);
    assert_eq!(p[0].completed_at, None);
    assert!(acquired(&list).is_empty());

    assert_eq!(ShoppingListItem::delete(id, &mut list), Ok(()));
    assert!(pending(&list).is_empty());
    assert!(acquired(&list).is_empty());
}

#[test]
fn create_stores_a_pending_item_stamped_now() {
    let mut list = ShoppingList::new();
    let before = now_secs();
    let id = ShoppingListItem::create(request("Eggs", "12", Some("aGVsbG8=")), &mut list).unwrap();
    let after = now_secs();
    let p = pending(&list);
    assert_eq!(p.len(), 1);
    let item = &p[0];
    assert_eq!(item.id, id);
    assert_eq!(item.image.as_deref(), Some("aGVsbG8="));
    assert_eq!(item.state, ShoppingListItemState::Pending);
    assert_eq!(item.completed_at, None);
    assert!(before <= item.created_at && item.created_at <= after);
}

#[test]
fn generated_ids_are_url_safe_and_distinct() {
    let mut list = ShoppingList::new();
    let a = ShoppingListItem::create(request("Bread", "1", None), &mut list).unwrap();
    let b = ShoppingListItem::create(request("Bread", "1", None), &mut list).unwrap();
    for id in [&a, &b] {
        assert_eq!(id.chars().count(), 21);
        assert!(id.chars().all(|c| c.is_ascii_alphanumeric() || c == '_' || c == '-'));
    }
    assert_ne!(a, b);
    assert_eq!(pending(&list).len(), 2);
}

#[test]
fn create_rejects_missing_name_and_quantity() {
    let mut list = ShoppingList::new();
    assert_eq!(
        ShoppingListItem::create(request("", "2L", None), &mut list),
        Err(ItemError::MissingName)
    );
    assert_eq!(
        ShoppingListItem::create(request("", "", None), &mut list),
        Err(ItemError::MissingName)
    );
    assert_eq!(
        ShoppingListItem::create(request("Milk", "", None), &mut list),
        Err(ItemError::MissingQuantity)
    );
    assert_eq!(list.len(), 0);
}

#[test]
fn create_with_refuses_a_taken_id() {
    let mut list = ShoppingList::new();
    let id = "abc".to_string();
    assert_eq!(ShoppingListItem::create_with(request("Tea", "1 box", None), id.clone(), 10, &mut list), Ok(()));
    assert_eq!(
        ShoppingListItem::create_with(request("Coffee", "1 bag", None), id.clone(), 11, &mut list),
        Err(ItemError::DuplicateId)
    );
    let p = pending(&list);
    assert_eq!(p.len(), 1);
    assert_eq!(p[0].name, "Tea");
    assert_eq!(p[0].created_at, 10);
}

#[test]
fn acquire_then_release_restores_the_item() {
    let mut list = ShoppingList::new();
    let id = "x1".to_string();
    ShoppingListItem::create_with(request("Rice", "1kg", Some("AAAA")), id.clone(), 100, &mut list).unwrap();
    let before = list.find(&id).unwrap();
    ShoppingListItem::acquire_at(id.clone(), 200, &mut list).unwrap();
    let mid = list.find(&id).unwrap();
    assert_eq!(mid.state, ShoppingListItemState::Acquired);
    assert_eq!(mid.completed_at, Some(200));
    ShoppingListItem::release(id.clone(), &mut list).unwrap();
    let after = list.find(&id).unwrap();
    assert_eq!(after.id, before.id);
    assert_eq!(after.name, before.name);
    assert_eq!(after.quantity, before.quantity);
    assert_eq!(after.image, before.image);
    assert_eq!(after.created_at, 100);
    assert_eq!(after.state, ShoppingListItemState::Pending);
    assert_eq!(after.completed_at, None);
}

#[test]
fn acquire_twice_refreshes_the_completion_time() {
    let mut list = ShoppingList::new();
    let id = "x2".to_string();
    ShoppingListItem::create_with(request("Salt", "1", None), id.clone(), 5, &mut list).unwrap();
    ShoppingListItem::acquire_at(id.clone(), 50, &mut list).unwrap();
    ShoppingListItem::acquire_at(id.clone(), 60, &mut list).unwrap();
    let item = list.find(&id).unwrap();
    assert_eq!(item.state, ShoppingListItemState::Acquired);
    assert_eq!(item.completed_at, Some(60));
    assert_eq!(acquired(&list).len(), 1);
}

#[test]
fn release_of_a_pending_item_keeps_it_pending() {
    let mut list = ShoppingList::new();
    let id = "x3".to_string();
    ShoppingListItem::create_with(request("Oil", "1L", None), id.clone(), 7, &mut list).unwrap();
    assert_eq!(ShoppingListItem::release(id.clone(), &mut list), Ok(()));
    let item = list.find(&id).unwrap();
    assert_eq!(item.state, ShoppingListItemState::Pending);
    assert_eq!(item.completed_at, None);
    assert_eq!(item.created_at, 7);
}

#[test]
fn listings_partition_the_items() {
    let mut list = ShoppingList::new();
    for (i, name) in ["a", "b", "c", "d", "e"].iter().enumerate() {
        ShoppingListItem::create_with(request(name, "1", None), format!("id{}", i), i as i64, &mut list)
            .unwrap();
    }
    ShoppingListItem::acquire_at("id1".to_string(), 9, &mut list).unwrap();
    ShoppingListItem::acquire_at("id3".to_string(), 9, &mut list).unwrap();
    let p: Vec<String> = pending(&list).into_iter().map(|i| i.id).collect();
    let a: Vec<String> = acquired(&list).into_iter().map(|i| i.id).collect();
    assert_eq!(p, vec!["id0", "id2", "id4"]);
    assert_eq!(a, vec!["id1", "id3"]);
    assert_eq!(p.len() + a.len(), list.len());
}

#[test]
fn deleted_ids_are_not_found_afterwards() {
    let mut list = ShoppingList::new();
    let id = "gone".to_string();
    ShoppingListItem::create_with(request("Jam", "1 jar", None), id.clone(), 1, &mut list).unwrap();
    ShoppingListItem::acquire_at(id.clone(), 2, &mut list).unwrap();
    assert_eq!(ShoppingListItem::delete(id.clone(), &mut list), Ok(()));
    assert!(pending(&list).is_empty());
    assert!(acquired(&list).is_empty());
    assert!(list.find(&id).is_none());
    assert_eq!(ShoppingListItem::acquire_at(id.clone(), 3, &mut list), Err(ItemError::NotFound));
    assert_eq!(ShoppingListItem::acquire(id.clone(), &mut list), Err(ItemError::NotFound));
    assert_eq!(ShoppingListItem::release(id.clone(), &mut list), Err(ItemError::NotFound));
    assert_eq!(ShoppingListItem::delete(id, &mut list), Err(ItemError::NotFound));
    assert_eq!(list.len(), 0);
}

#[test]
fn state_text_round_trips() {
    assert_eq!(ShoppingListItemState::Pending.value(), "PENDING");
    assert_eq!(ShoppingListItemState::Acquired.value(), "ACQUIRED");
    assert_eq!(
        ShoppingListItemState::from_value(&"PENDING".to_string()),
        Some(ShoppingListItemState::Pending)
    );
    assert_eq!(
        ShoppingListItemState::from_value(&"ACQUIRED".to_string()),
        Some(ShoppingListItemState::Acquired)
    );
    assert_eq!(ShoppingListItemState::from_value(&"pending".to_string()), None);
}

#[test]
fn timestamps_format_as_rfc3339_utc() {
    assert_eq!(timestamp_text(0).as_deref(), Some("1970-01-01T00:00:00Z"));
    assert_eq!(timestamp_text(1704164645).as_deref(), Some("2024-01-02T03:04:05Z"));
}

fn stored(id: &str, state: ShoppingListItemState, completed_at: Option<i64>) -> ShoppingListItem {
    ShoppingListItem {
        id: id.to_string(),
        name: "n".to_string(),
        quantity: "q".to_string(),
        image: None,
        state,
        created_at: 1,
        completed_at,
    }
}

#[test]
fn loading_refuses_malformed_rows() {
    let ok = ShoppingList::from_items(vec![
        stored("a", ShoppingListItemState::Pending, None),
        stored("b", ShoppingListItemState::Acquired, Some(4)),
    ]);
    assert_eq!(ok.map(|l| l.len()).ok(), Some(2));
    let dup = ShoppingList::from_items(vec![
        stored("a", ShoppingListItemState::Pending, None),
        stored("a", ShoppingListItemState::Pending, None),
    ]);
    assert!(matches!(dup, Err(ItemError::Malformed)));
    let bad = ShoppingList::from_items(vec![stored("a", ShoppingListItemState::Acquired, None)]);
    assert!(matches!(bad, Err(ItemError::Malformed)));
}

#[test]
fn deleted_ids_are_never_taken_again() {
    let mut list = ShoppingList::new();
    let id = "once".to_string();
    ShoppingListItem::create_with(request("Figs", "6", None), id.clone(), 1, &mut list).unwrap();
    assert!(!list.was_retired(&id));
    ShoppingListItem::delete(id.clone(), &mut list).unwrap();
    assert!(list.was_retired(&id));
    assert_eq!(
        ShoppingListItem::create_with(request("Figs", "6", None), id.clone(), 2, &mut list),
        Err(ItemError::DuplicateId)
    );
    assert!(pending(&list).is_empty());
    assert!(acquired(&list).is_empty());
}
