use cafe_manager_backend::catalog::{Catalog, CatalogError};
use cafe_manager_backend::item::{fields_are_valid, is_whitespace, name_is_valid, MenuItem};

fn item(id: u64, name: &str, price: i64) -> MenuItem {
    MenuItem { id, name: name.to_string(), price }
}

#[test]
fn new_catalog_is_empty() {
    let c = Catalog::new();
    assert_eq!(c.len(), 0);
    assert_eq!(c.list(), Vec::<MenuItem>::new());
    assert!(c.can_create());
}

#[test]
fn create_then_get_returns_same_fields() {
    let mut c = Catalog::new();
    let made = c.create("Café".to_string(), 250).unwrap();
    assert_eq!(made, item(1, "Café", 250));
    assert_eq!(c.get(made.id), Ok(item(1, "Café", 250)));
}

#[test]
fn create_assigns_increasing_ids() {
    let mut c = Catalog::new();
    let a = c.create("Café".to_string(), 250).unwrap();
    let b = c.create("Croissant".to_string(), 300).unwrap();
    let d = c.create("Tea".to_string(), 0).unwrap();
    assert_eq!((a.id, b.id, d.id), (1, 2, 3));
}

#[test]
fn create_keeps_name_as_given() {
    let mut c = Catalog::new();
    let made = c.create("  Flat white ".to_string(), 420).unwrap();
    assert_eq!(made.name, "  Flat white ");
    assert_eq!(c.get(1).unwrap().name, "  Flat white ");
}

#[test]
fn create_rejects_empty_name() {
    let mut c = Catalog::new();
    c.create("Café".to_string(), 250).unwrap();
    let before = c.list();
    assert_eq!(c.create(String::new(), 100), Err(CatalogError::Validation));
    assert_eq!(c.list(), before);
}

#[test]
fn create_rejects_blank_name() {
    let mut c = Catalog::new();
    assert_eq!(c.create(" \t\n\u{3000}".to_string(), 100), Err(CatalogError::Validation));
    assert_eq!(c.len(), 0);
}

#[test]
fn create_rejects_negative_price() {
    let mut c = Catalog::new();
    c.create("Café".to_string(), 250).unwrap();
    let before = c.list();
    assert_eq!(c.create("Tea".to_string(), -1), Err(CatalogError::Validation));
    assert_eq!(c.create("Tea".to_string(), i64::MIN), Err(CatalogError::Validation));
    assert_eq!(c.list(), before);
}

#[test]
fn rejected_create_uses_no_id() {
    let mut c = Catalog::new();
    assert!(c.create(String::new(), 1).is_err());
    assert_eq!(c.create("Tea".to_string(), 1).unwrap().id, 1);
}

#[test]
fn create_accepts_zero_and_largest_price() {
    let mut c = Catalog::new();
    assert_eq!(c.create("Water".to_string(), 0), Ok(item(1, "Water", 0)));
    assert_eq!(c.create("Gold".to_string(), i64::MAX), Ok(item(2, "Gold", i64::MAX)));
}

#[test]
fn get_unknown_id_is_not_found() {
    let mut c = Catalog::new();
    assert_eq!(c.get(0), Err(CatalogError::NotFound));
    assert_eq!(c.get(99), Err(CatalogError::NotFound));
    c.create("Café".to_string(), 250).unwrap();
    assert_eq!(c.get(0), Err(CatalogError::NotFound));
    assert_eq!(c.get(2), Err(CatalogError::NotFound));
}

#[test]
fn delete_then_get_is_not_found() {
    let mut c = Catalog::new();
    c.create("Café".to_string(), 250).unwrap();
    c.create("Croissant".to_string(), 300).unwrap();
    assert_eq!(c.delete(1), Ok(()));
    assert_eq!(c.get(1), Err(CatalogError::NotFound));
    assert_eq!(c.get(2), Ok(item(2, "Croissant", 300)));
}

#[test]
fn delete_unknown_id_changes_nothing() {
    let mut c = Catalog::new();
    c.create("Café".to_string(), 250).unwrap();
    assert_eq!(c.delete(7), Err(CatalogError::NotFound));
    assert_eq!(c.list(), vec![item(1, "Café", 250)]);
}

#[test]
fn deleted_id_is_never_reused() {
    let mut c = Catalog::new();
    c.create("Café".to_string(), 250).unwrap();
    c.create("Croissant".to_string(), 300).unwrap();
    c.delete(2).unwrap();
    assert_eq!(c.create("Tea".to_string(), 180).unwrap().id, 3);
    c.delete(1).unwrap();
    c.delete(3).unwrap();
    assert_eq!(c.len(), 0);
    assert_eq!(c.create("Scone".to_string(), 220).unwrap().id, 4);
}

#[test]
fn list_keeps_insertion_order() {
    let mut c = Catalog::new();
    c.create("Café".to_string(), 250).unwrap();
    c.create("Croissant".to_string(), 300).unwrap();
    c.create("Tea".to_string(), 180).unwrap();
    c.delete(2).unwrap();
    c.create("Scone".to_string(), 220).unwrap();
    assert_eq!(
        c.list(),
        vec![item(1, "Café", 250), item(3, "Tea", 180), item(4, "Scone", 220)]
    );
}

#[test]
fn list_counts_creates_less_deletes() {
    let mut c = Catalog::new();
    for n in 0..10i64 {
        c.create("Item".to_string(), n).unwrap();
    }
    assert!(c.create(String::new(), 5).is_err());
    for id in [2u64, 4, 6] {
        c.delete(id).unwrap();
    }
    assert!(c.delete(4).is_err());
    c.update(5, "Changed".to_string(), 77).unwrap();
    let all = c.list();
    assert_eq!(all.len(), 7);
    assert_eq!(c.len(), 7);
    let ids: Vec<u64> = all.iter().map(|m| m.id).collect();
    assert_eq!(ids, vec![1, 3, 5, 7, 8, 9, 10]);
    assert_eq!(all[2], item(5, "Changed", 77));
    assert_eq!(all[0], item(1, "Item", 0));
}

#[test]
fn update_replaces_fields_in_place() {
    let mut c = Catalog::new();
    c.create("Café".to_string(), 250).unwrap();
    c.create("Croissant".to_string(), 300).unwrap();
    c.create("Tea".to_string(), 180).unwrap();
    assert_eq!(c.update(2, "Bagel".to_string(), 275), Ok(item(2, "Bagel", 275)));
    assert_eq!(
        c.list(),
        vec![item(1, "Café", 250), item(2, "Bagel", 275), item(3, "Tea", 180)]
    );
    assert_eq!(c.get(2), Ok(item(2, "Bagel", 275)));
}

#[test]
fn update_unknown_id_is_not_found() {
    let mut c = Catalog::new();
    c.create("Café".to_string(), 250).unwrap();
    assert_eq!(c.update(2, "Bagel".to_string(), 275), Err(CatalogError::NotFound));
    assert_eq!(c.list(), vec![item(1, "Café", 250)]);
}

#[test]
fn update_rejects_bad_fields() {
    let mut c = Catalog::new();
    c.create("Café".to_string(), 250).unwrap();
    assert_eq!(c.update(1, "   ".to_string(), 275), Err(CatalogError::Validation));
    assert_eq!(c.update(1, "Bagel".to_string(), -275), Err(CatalogError::Validation));
    assert_eq!(c.list(), vec![item(1, "Café", 250)]);
}

#[test]
fn update_validates_before_lookup() {
    let mut c = Catalog::new();
    assert_eq!(c.update(5, String::new(), 1), Err(CatalogError::Validation));
    assert_eq!(c.update(5, "Tea".to_string(), 1), Err(CatalogError::NotFound));
}

#[test]
fn update_does_not_touch_counter() {
    let mut c = Catalog::new();
    c.create("Café".to_string(), 250).unwrap();
    c.update(1, "Mocha".to_string(), 350).unwrap();
    assert_eq!(c.create("Tea".to_string(), 180).unwrap().id, 2);
}

#[test]
fn clone_of_item_is_equal() {
    let a = item(3, "Tea", 180);
    let b = a.clone();
    assert_eq!(a, b);
}

#[test]
fn whitespace_agrees_with_the_standard_library() {
    for c in '\0'..=char::MAX {
        assert_eq!(is_whitespace(c), c.is_whitespace(), "{:?}", c);
    }
}

#[test]
fn name_is_valid_iff_trimmed_name_is_not_empty() {
    for name in ["", " ", "\t\r\n", "\u{a0}\u{2003}", "a", " a ", "\u{3000}é\u{3000}", "\u{200b}"] {
        assert_eq!(name_is_valid(name), !name.trim().is_empty(), "{:?}", name);
    }
}

#[test]
fn fields_are_valid_needs_both() {
    assert!(fields_are_valid("Tea", 0));
    assert!(fields_are_valid("Tea", 180));
    assert!(!fields_are_valid("Tea", -1));
    assert!(!fields_are_valid("", 180));
    assert!(!fields_are_valid(" ", -180));
}

#[test]
fn errors_have_machine_readable_reasons() {
    assert_eq!(CatalogError::Validation.reason(), "validation_error");
    assert_eq!(CatalogError::NotFound.reason(), "not_found");
}
