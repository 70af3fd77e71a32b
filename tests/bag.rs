use roadiebag::api::{
    create_bag_item, create_update_bag_item, delete_bag_item, edit_bag_item, for_item,
    get_bag_item, last_taken, list_bag_items, take_random, take_random_with, update_taken,
};
use roadiebag::auth::User;
use roadiebag::errors::RoadieAppError;
use roadiebag::model::{BagItem, BagItemFilter, BagItemForm, ItemSize};
use roadiebag::store::BagStore;

fn user(id: i64, name: &str) -> User {
    User { id, username: name.to_string(), anonymous: false }
}

fn item(owner: &User, name: &str, quantity: i32, infinite: bool, size: ItemSize) -> BagItem {
    BagItem {
        id: -1,
        added_by: owner.clone(),
        name: name.to_string(),
        description: "Some description".to_string(),
        quantity,
        size,
        infinite,
        created_at: 1_700_000_000_000,
    }
}

fn filled_store(a: &User, b: &User) -> BagStore {
    let mut store = BagStore::new();
    for _ in 0..10 {
        store.insert(item(a, "Some item", 1, false, ItemSize::Small)).unwrap();
    }
    for _ in 0..10 {
        store.insert(item(a, "Some item", 1, true, ItemSize::Medium)).unwrap();
    }
    for _ in 0..10 {
        store.insert(item(b, "Some item", 50, false, ItemSize::Large)).unwrap();
    }
    store
}

#[test]
fn scenario_tent_single_draw() {
    let u = user(1, "scott");
    let mut store = BagStore::new();
    let tent = store.insert(item(&u, "Tent", 1, false, ItemSize::Large)).unwrap();
    assert_ne!(tent.id, -1);
    let first = take_random(&mut store, &u).unwrap();
    let first = first.expect("the tent can be drawn");
    assert_eq!(first.item_id, tent.id);
    assert_eq!(first.item.as_ref().unwrap().name, "Tent");
    assert!(first.rounds >= 1 && first.rounds <= 6);
    assert!(!first.done);
    let second = take_random(&mut store, &u).unwrap();
    assert!(second.is_none());
    assert_eq!(for_item(&store, tent.id).len(), 1);
    assert_eq!(store.by_id(tent.id).unwrap().quantity, 0);
}

#[test]
fn scenario_filter_by_owner() {
    let a = user(1, "scott");
    let b = user(2, "scott2");
    let store = filled_store(&a, &b);
    let filter = BagItemFilter { added_by: Some(vec![a.id]), page_size: Some(10), ..Default::default() };
    let page = list_bag_items(&store, Some(filter)).unwrap();
    assert_eq!(page.total_results, 20);
    assert_eq!(page.total_pages, 2);
    assert_eq!(page.items.len(), 10);
    assert_eq!(page.page_num, 1);
    // newest first
    assert_eq!(page.items[0].id, 20);
    assert_eq!(page.items[9].id, 11);
}

#[test]
fn scenario_filter_by_size() {
    let a = user(1, "scott");
    let b = user(2, "scott2");
    let store = filled_store(&a, &b);
    let filter = BagItemFilter { size: Some(vec![ItemSize::Large.into()]), ..Default::default() };
    let page = list_bag_items(&store, Some(filter)).unwrap();
    assert_eq!(page.total_results, 10);
    assert_eq!(page.total_pages, 1);
    assert_eq!(page.items.len(), 10);
    assert_eq!(page.page_size, 50);
}

#[test]
fn scenario_anonymous_mutations_refused() {
    let owner = user(1, "scott");
    let guest = User::default();
    assert!(guest.anonymous);
    let mut store = BagStore::new();
    let stored = store.insert(item(&owner, "Tent", 1, false, ItemSize::Large)).unwrap();
    let form = BagItemForm {
        id: -1,
        name: "Rope".to_string(),
        description: String::new(),
        quantity: 2,
        size: ItemSize::Small,
        infinite: false,
    };
    assert_eq!(create_update_bag_item(&mut store, &guest, form), Err(RoadieAppError::Unauthorized));
    assert_eq!(
        create_bag_item(&mut store, &guest, item(&owner, "Rope", 1, false, ItemSize::Small)),
        Err(RoadieAppError::Unauthorized)
    );
    let mut edited = stored.clone();
    edited.name = "Other".to_string();
    assert_eq!(edit_bag_item(&mut store, &guest, &edited), Err(RoadieAppError::Unauthorized));
    assert_eq!(delete_bag_item(&mut store, &guest, stored.id), Err(RoadieAppError::Unauthorized));
    assert_eq!(take_random(&mut store, &guest), Err(RoadieAppError::Unauthorized));
    assert_eq!(take_random_with(&mut store, &guest, 0, 3, 0), Err(RoadieAppError::Unauthorized));
    assert_eq!(store.count(&BagItemFilter::default()), 1);
    assert_eq!(get_bag_item(&store, stored.id), Ok(stored));
    assert!(last_taken(&store).is_none());
}

#[test]
fn scenario_zero_page_size_refused() {
    let a = user(1, "scott");
    let b = user(2, "scott2");
    let store = filled_store(&a, &b);
    let filter = BagItemFilter { page_size: Some(0), ..Default::default() };
    assert_eq!(list_bag_items(&store, Some(filter)), Err(RoadieAppError::ValidationFailedError));
}

#[test]
fn pages_cover_listing_once() {
    let a = user(1, "scott");
    let mut store = BagStore::new();
    for i in 0..23 {
        store.insert(item(&a, &format!("item {}", i), 1, false, ItemSize::Small)).unwrap();
    }
    let first = store
        .filter(&BagItemFilter { page_size: Some(5), ..Default::default() })
        .unwrap();
    assert_eq!(first.total_pages, 5);
    let mut seen: Vec<i64> = Vec::new();
    for p in 1..=first.total_pages {
        let page = store
            .filter(&BagItemFilter { page_size: Some(5), page_num: Some(p), ..Default::default() })
            .unwrap();
        assert_eq!(page.page_num, p);
        seen.extend(page.items.iter().map(|i| i.id));
    }
    assert_eq!(seen.len(), 23);
    let expected: Vec<i64> = (1..=23).rev().collect();
    assert_eq!(seen, expected);
    let beyond = store
        .filter(&BagItemFilter { page_size: Some(5), page_num: Some(6), ..Default::default() })
        .unwrap();
    assert!(beyond.items.is_empty());
}

#[test]
fn page_zero_is_first_page() {
    let a = user(1, "scott");
    let mut store = BagStore::new();
    for _ in 0..3 {
        store.insert(item(&a, "x", 1, false, ItemSize::Small)).unwrap();
    }
    let page = store
        .filter(&BagItemFilter { page_size: Some(2), page_num: Some(0), ..Default::default() })
        .unwrap();
    assert_eq!(page.page_num, 1);
    assert_eq!(page.items.len(), 2);
    assert_eq!(page.total_pages, 2);
}

#[test]
fn huge_page_number_gives_empty_page() {
    let a = user(1, "scott");
    let mut store = BagStore::new();
    store.insert(item(&a, "x", 1, false, ItemSize::Small)).unwrap();
    let page = store
        .filter(&BagItemFilter { page_size: Some(u64::MAX), page_num: Some(u64::MAX), ..Default::default() })
        .unwrap();
    assert!(page.items.is_empty());
    assert_eq!(page.total_results, 1);
    assert_eq!(page.total_pages, 1);
    assert_eq!(page.page_num, u64::MAX);
}

#[test]
fn filter_by_name_description_and_infinite() {
    let a = user(1, "scott");
    let mut store = BagStore::new();
    store.insert(item(&a, "Blue tent", 1, false, ItemSize::Large)).unwrap();
    store.insert(item(&a, "Red tent", 1, true, ItemSize::Large)).unwrap();
    store.insert(item(&a, "Rope", 1, false, ItemSize::Small)).unwrap();
    let by_name = BagItemFilter { name: Some("tent".to_string()), ..Default::default() };
    assert_eq!(store.count(&by_name), 2);
    let by_inf = BagItemFilter { name: Some("tent".to_string()), infinite: Some(true), ..Default::default() };
    let page = store.filter(&by_inf).unwrap();
    assert_eq!(page.items.len(), 1);
    assert_eq!(page.items[0].name, "Red tent");
    let by_desc = BagItemFilter { description: Some("nothing like it".to_string()), ..Default::default() };
    assert_eq!(store.count(&by_desc), 0);
    assert!(by_desc.any_filter());
    assert!(!BagItemFilter::default().any_filter());
}

#[test]
fn finite_item_drawn_exactly_quantity_times() {
    let a = user(1, "scott");
    let mut store = BagStore::new();
    let it = store.insert(item(&a, "Stakes", 3, false, ItemSize::Small)).unwrap();
    for _ in 0..3 {
        assert!(take_random(&mut store, &a).unwrap().is_some());
    }
    assert!(take_random(&mut store, &a).unwrap().is_none());
    assert_eq!(store.by_id(it.id).unwrap().quantity, 0);
    assert_eq!(for_item(&store, it.id).len(), 3);
}

#[test]
fn infinite_item_never_exhausts() {
    let a = user(1, "scott");
    let mut store = BagStore::new();
    let it = store.insert(item(&a, "Water", 1, true, ItemSize::Medium)).unwrap();
    for _ in 0..10 {
        let t = take_random(&mut store, &a).unwrap().unwrap();
        assert_eq!(t.item_id, it.id);
    }
    assert_eq!(store.by_id(it.id).unwrap().quantity, 1);
    assert_eq!(store.drawable_count(), 1);
}

#[test]
fn draw_picks_by_position_newest_first() {
    let a = user(1, "scott");
    let mut store = BagStore::new();
    let old_one = store.insert(item(&a, "Old", 2, false, ItemSize::Small)).unwrap();
    store.insert(item(&a, "Empty", 0, false, ItemSize::Small)).unwrap();
    let new_one = store.insert(item(&a, "New", 2, false, ItemSize::Small)).unwrap();
    assert_eq!(store.drawable_count(), 2);
    let t = take_random_with(&mut store, &a, 1, 4, 99).unwrap().unwrap();
    assert_eq!(t.item_id, old_one.id);
    assert_eq!(t.rounds, 4);
    assert_eq!(t.extraction_time, 99);
    assert_eq!(t.item.unwrap().quantity, 1);
    let t2 = take_random_with(&mut store, &a, 0, 6, 100).unwrap().unwrap();
    assert_eq!(t2.item_id, new_one.id);
    assert_eq!(t2.id, t.id + 1);
}

#[test]
fn last_draw_until_done() {
    let a = user(1, "scott");
    let mut store = BagStore::new();
    store.insert(item(&a, "Tent", 5, false, ItemSize::Large)).unwrap();
    let t = take_random(&mut store, &a).unwrap().unwrap();
    let current = last_taken(&store).unwrap();
    assert_eq!(current, t);
    assert!(!current.done);
    let mut done = current.clone();
    done.done = true;
    update_taken(&mut store, &a, &done).unwrap();
    assert!(last_taken(&store).is_none());
    assert!(store.taken_by_id(t.id).unwrap().done);
    let t2 = take_random(&mut store, &a).unwrap().unwrap();
    assert_eq!(last_taken(&store), Some(t2));
}

#[test]
fn insert_then_get_round_trip() {
    let a = user(1, "scott");
    let mut store = BagStore::new();
    let given = item(&a, "Tent", 2, false, ItemSize::Large);
    let stored = store.insert(given.clone()).unwrap();
    let fetched = get_bag_item(&store, stored.id).unwrap();
    let mut expected = given;
    expected.id = stored.id;
    assert_eq!(fetched, expected);
    assert_eq!(get_bag_item(&store, stored.id + 1), Err(RoadieAppError::NotFound));
}

#[test]
fn delete_keeps_history() {
    let a = user(1, "scott");
    let mut store = BagStore::new();
    let it = store.insert(item(&a, "Tent", 2, false, ItemSize::Large)).unwrap();
    take_random(&mut store, &a).unwrap().unwrap();
    assert_eq!(delete_bag_item(&mut store, &a, it.id), Ok(()));
    assert_eq!(delete_bag_item(&mut store, &a, it.id), Err(RoadieAppError::NotFound));
    let history = for_item(&store, it.id);
    assert_eq!(history.len(), 1);
    assert!(history[0].item.is_none());
    assert_eq!(get_bag_item(&store, it.id), Err(RoadieAppError::NotFound));
}

#[test]
fn form_create_then_edit() {
    let a = user(1, "scott");
    let mut store = BagStore::new();
    let form = BagItemForm {
        id: -1,
        name: "Tent".to_string(),
        description: "Two people".to_string(),
        quantity: 2,
        size: ItemSize::Large,
        infinite: false,
    };
    let saved = create_update_bag_item(&mut store, &a, form).unwrap();
    assert_eq!(saved.id, 1);
    let stored = store.by_id(1).unwrap();
    assert_eq!(stored.added_by, a);
    assert_eq!(stored.name, "Tent");
    let mut edit = saved.clone();
    edit.name = "Big tent".to_string();
    edit.quantity = 5;
    assert_eq!(create_update_bag_item(&mut store, &a, edit.clone()), Ok(edit));
    let after = store.by_id(1).unwrap();
    assert_eq!(after.name, "Big tent");
    assert_eq!(after.quantity, 5);
    assert_eq!(after.created_at, stored.created_at);
    let mut missing = saved;
    missing.id = 42;
    assert_eq!(create_update_bag_item(&mut store, &a, missing), Err(RoadieAppError::NotFound));
}

#[test]
fn form_validation_errors() {
    let a = user(1, "scott");
    let mut store = BagStore::new();
    let form = BagItemForm { name: "   ".to_string(), quantity: 0, ..Default::default() };
    let err = form.validate().unwrap();
    match &err {
        RoadieAppError::MultipleErrors(pairs) => {
            let fields: Vec<&str> = pairs.iter().map(|p| p.0.as_str()).collect();
            assert_eq!(fields, vec!["name", "size", "quantity"]);
            assert_eq!(pairs[0].1, "Item name can't be empty");
            assert_eq!(pairs[1].1, "Item size must be set");
            assert_eq!(pairs[2].1, "Item quantity must be > 0");
        }
        other => panic!("unexpected {:?}", other),
    }
    assert_eq!(create_update_bag_item(&mut store, &a, form), Err(err));
    assert_eq!(store.count(&BagItemFilter::default()), 0);
    let ok = BagItemForm { name: " x ".to_string(), size: ItemSize::Small, ..Default::default() };
    assert!(ok.validate().is_none());
    assert!(ok.validate_trimmed("").is_some());
}

#[test]
fn create_and_edit_item_id_rules() {
    let a = user(1, "scott");
    let mut store = BagStore::new();
    let mut with_id = item(&a, "Tent", 1, false, ItemSize::Large);
    with_id.id = 7;
    assert_eq!(create_bag_item(&mut store, &a, with_id), Err(RoadieAppError::ValidationFailedError));
    let created = create_bag_item(&mut store, &a, item(&a, "Tent", 1, false, ItemSize::Large)).unwrap();
    assert_eq!(created.id, 1);
    let fresh = item(&a, "Tent", 1, false, ItemSize::Large);
    assert_eq!(edit_bag_item(&mut store, &a, &fresh), Err(RoadieAppError::ValidationFailedError));
    let mut changed = created.clone();
    changed.quantity = 9;
    assert_eq!(edit_bag_item(&mut store, &a, &changed), Ok(()));
    assert_eq!(store.by_id(1).unwrap().quantity, 9);
}

#[test]
fn form_default_and_from_item() {
    let f = BagItemForm::default();
    assert_eq!(f.id, -1);
    assert_eq!(f.quantity, 1);
    assert_eq!(f.size, ItemSize::Unknown);
    let a = user(1, "scott");
    let mut it = item(&a, "Tent", 4, true, ItemSize::Medium);
    it.id = 3;
    let g = BagItemForm::from(it);
    assert_eq!(g.id, 3);
    assert_eq!(g.name, "Tent");
    assert_eq!(g.quantity, 4);
    assert!(g.infinite);
    assert_eq!(g.size, ItemSize::Medium);
}

#[test]
fn filter_with_page_keeps_restrictions() {
    let f = BagItemFilter { name: Some("tent".to_string()), size: Some(vec![1, 2]), page_size: Some(4), ..Default::default() };
    let g = f.with_page(3);
    assert_eq!(g.page_num, Some(3));
    assert_eq!(g.name, f.name);
    assert_eq!(g.size, f.size);
    assert_eq!(g.page_size, Some(4));
}
