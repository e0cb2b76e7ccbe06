use nimbuzyn::models::Product;
use nimbuzyn::store::Database;
use nimbuzyn::StoreError;

fn inventory_owner(db: &mut Database) -> String {
    db.register_user("owner", "Owner", "some password").unwrap().uid
}

// All quantities and values are fixed-point with two decimal places:
// a stored 50 means 0.50 units, a stored 1500 means 15.00.
fn product(owner: &str, code: &str, name: &str, qty: i64, net: i64, sale: i64) -> Product {
    Product {
        id: 0,
        owner_uid: owner.to_string(),
        code: code.to_string(),
        name: name.to_string(),
        quantity: qty,
        net_value: net,
        sale_value: sale,
        profit_value: 0,
        created_at: String::new(),
        updated_at: String::new(),
    }
}

#[test]
fn summary_aggregates_count_totals_and_stock() {
    let mut db = Database::new();
    let o = inventory_owner(&mut db);
    db.upsert_product(&product(&o, "A", "First", 50, 1000, 1500)).unwrap();
    db.upsert_product(&product(&o, "B", "Second", 200, 500, 800)).unwrap();
    let s = db.inventory_summary(&o);
    assert_eq!(s.total_products, 2);
    // 0.5 * 10 + 2 * 5 = 15, in squared fixed-point scale (1/10000).
    assert_eq!(s.total_net_value, 150_000);
    // 0.5 * 5 + 2 * 3 = 8.5, in squared fixed-point scale.
    assert_eq!(s.total_profit_value, 85_000);
    // Only the 0.5-unit row counts as out of stock.
    assert_eq!(s.out_of_stock_count, 1);
}

#[test]
fn summary_of_an_empty_inventory_is_zero() {
    let mut db = Database::new();
    let o = inventory_owner(&mut db);
    let s = db.inventory_summary(&o);
    assert_eq!(s.total_products, 0);
    assert_eq!(s.total_net_value, 0);
    assert_eq!(s.total_profit_value, 0);
    assert_eq!(s.out_of_stock_count, 0);
}

#[test]
fn stored_profit_ignores_the_caller_supplied_value() {
    let mut db = Database::new();
    let o = inventory_owner(&mut db);
    let mut p = product(&o, "A", "Widget", 100, 700, 1000);
    p.profit_value = 99_999;
    let id = db.upsert_product(&p).unwrap();
    let listed = db.get_products(&o);
    assert_eq!(listed[0].profit_value, 300);
    // The update path recomputes as well.
    let mut q = product(&o, "A", "Widget", 100, 700, 900);
    q.id = id;
    q.profit_value = -5;
    db.upsert_product(&q).unwrap();
    let listed = db.get_products(&o);
    assert_eq!(listed[0].profit_value, 200);
}

#[test]
fn duplicate_code_on_insert_conflicts() {
    let mut db = Database::new();
    let o = inventory_owner(&mut db);
    db.upsert_product(&product(&o, "A", "First", 1, 1, 2)).unwrap();
    let r = db.upsert_product(&product(&o, "A", "Second", 1, 1, 2));
    assert!(matches!(r, Err(StoreError::DuplicateCode)));
    // Another owner may reuse the code.
    let other = db.register_user("other", "Other", "some password").unwrap().uid;
    assert!(db.upsert_product(&product(&other, "A", "Theirs", 1, 1, 2)).is_ok());
}

#[test]
fn duplicate_code_on_update_conflicts_too() {
    let mut db = Database::new();
    let o = inventory_owner(&mut db);
    db.upsert_product(&product(&o, "A", "First", 1, 1, 2)).unwrap();
    let id_b = db.upsert_product(&product(&o, "B", "Second", 1, 1, 2)).unwrap();
    let mut renamed = product(&o, "A", "Second", 1, 1, 2);
    renamed.id = id_b;
    assert!(matches!(db.upsert_product(&renamed), Err(StoreError::DuplicateCode)));
}

#[test]
fn update_edits_the_exact_record_and_keeps_creation_time() {
    let mut db = Database::new();
    let o = inventory_owner(&mut db);
    let id = db.upsert_product(&product(&o, "A", "Widget", 100, 700, 1000)).unwrap();
    let created = db.get_products(&o)[0].created_at.clone();
    let mut edit = product(&o, "A2", "Widget v2", 300, 600, 900);
    edit.id = id;
    let id2 = db.upsert_product(&edit).unwrap();
    assert_eq!(id2, id);
    let listed = db.get_products(&o);
    assert_eq!(listed.len(), 1);
    assert_eq!(listed[0].code, "A2");
    assert_eq!(listed[0].name, "Widget v2");
    assert_eq!(listed[0].quantity, 300);
    assert_eq!(listed[0].created_at, created);
}

#[test]
fn update_of_a_missing_id_misses() {
    let mut db = Database::new();
    let o = inventory_owner(&mut db);
    let mut p = product(&o, "A", "Widget", 1, 1, 2);
    p.id = 42;
    assert!(matches!(db.upsert_product(&p), Err(StoreError::NotFound)));
}

#[test]
fn negative_values_are_rejected() {
    let mut db = Database::new();
    let o = inventory_owner(&mut db);
    assert!(matches!(
        db.upsert_product(&product(&o, "A", "Bad", -1, 1, 2)),
        Err(StoreError::Validation)
    ));
    assert!(matches!(
        db.upsert_product(&product(&o, "A", "Bad", 1, -1, 2)),
        Err(StoreError::Validation)
    ));
    assert!(matches!(
        db.upsert_product(&product(&o, "A", "Bad", 1, 1, -2)),
        Err(StoreError::Validation)
    ));
    assert!(db.products.is_empty());
}

#[test]
fn listing_is_ordered_by_name() {
    let mut db = Database::new();
    let o = inventory_owner(&mut db);
    db.upsert_product(&product(&o, "C", "Cherry", 1, 1, 2)).unwrap();
    db.upsert_product(&product(&o, "A", "Apple", 1, 1, 2)).unwrap();
    db.upsert_product(&product(&o, "B", "Banana", 1, 1, 2)).unwrap();
    let names: Vec<String> = db.get_products(&o).into_iter().map(|p| p.name).collect();
    assert_eq!(names, vec!["Apple", "Banana", "Cherry"]);
}

#[test]
fn deletion_is_idempotent() {
    let mut db = Database::new();
    let o = inventory_owner(&mut db);
    let id = db.upsert_product(&product(&o, "A", "Widget", 1, 1, 2)).unwrap();
    db.delete_product(id).unwrap();
    db.delete_product(id).unwrap();
    assert!(db.get_products(&o).is_empty());
}

#[test]
fn product_helpers_compute_totals_and_stock_state() {
    let p = Product {
        id: 1,
        owner_uid: "NIM-0000A1".to_string(),
        code: "A".to_string(),
        name: "Widget".to_string(),
        quantity: 50,
        net_value: 1000,
        sale_value: 1500,
        profit_value: 500,
        created_at: String::new(),
        updated_at: String::new(),
    };
    assert_eq!(p.total_net(), 50_000);
    assert_eq!(p.total_profit(), 25_000);
    assert!(p.is_out_of_stock());
    let mut q = p.clone();
    q.quantity = 100;
    assert!(!q.is_out_of_stock());
    q.sale_value = 1200;
    q.calculate_profit();
    assert_eq!(q.profit_value, 200);
}
