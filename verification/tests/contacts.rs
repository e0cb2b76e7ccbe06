use nimbuzyn::models::ContactType;
use nimbuzyn::store::Database;
use nimbuzyn::StoreError;

fn contact_owner(db: &mut Database) -> String {
    db.register_user("owner", "Owner", "some password").unwrap().uid
}

#[test]
fn self_reference_is_rejected() {
    let mut db = Database::new();
    let o = contact_owner(&mut db);
    let r = db.add_contact(&o, &o, "Me", 7, ContactType::Friend);
    assert!(matches!(r, Err(StoreError::SelfReference)));
    assert!(db.contacts.is_empty());
}

#[test]
fn adding_the_same_contact_twice_leaves_one_row() {
    let mut db = Database::new();
    let o = contact_owner(&mut db);
    db.add_contact(&o, "NIM-0000AA", "Ann", 1, ContactType::Friend).unwrap();
    db.add_contact(&o, "NIM-0000AA", "Ann", 1, ContactType::Friend).unwrap();
    assert_eq!(db.contacts.len(), 1);
    let listed = db.get_contacts(&o, ContactType::Friend);
    assert_eq!(listed.len(), 1);
    assert_eq!(listed[0].display_name, "Ann");
    assert!(!listed[0].starred);
}

#[test]
fn listing_orders_starred_first_then_by_name() {
    let mut db = Database::new();
    let o = contact_owner(&mut db);
    db.add_contact(&o, "NIM-0000Z1", "Zed", 1, ContactType::Friend).unwrap();
    db.add_contact(&o, "NIM-0000A1", "Ann", 2, ContactType::Friend).unwrap();
    db.add_contact(&o, "NIM-0000B1", "Bob", 3, ContactType::Friend).unwrap();
    let starred = db.toggle_star(&o, "NIM-0000A1").unwrap();
    assert!(starred);
    let listed = db.get_contacts(&o, ContactType::Friend);
    let names: Vec<&str> = listed.iter().map(|c| c.display_name.as_str()).collect();
    assert_eq!(names, vec!["Ann", "Bob", "Zed"]);
}

#[test]
fn listing_filters_by_owner_and_type() {
    let mut db = Database::new();
    let o = contact_owner(&mut db);
    let other = db.register_user("other", "Other", "some password").unwrap().uid;
    db.add_contact(&o, "NIM-0000A1", "Ann", 1, ContactType::Friend).unwrap();
    db.add_contact(&o, "NIM-0000B1", "Bob", 1, ContactType::Acquaintance).unwrap();
    db.add_contact(&other, "NIM-0000C1", "Cat", 1, ContactType::Friend).unwrap();
    let friends = db.get_contacts(&o, ContactType::Friend);
    assert_eq!(friends.len(), 1);
    assert_eq!(friends[0].display_name, "Ann");
    let acquaintances = db.get_contacts(&o, ContactType::Acquaintance);
    assert_eq!(acquaintances.len(), 1);
    assert_eq!(acquaintances[0].display_name, "Bob");
}

#[test]
fn toggle_star_flips_and_reports_the_new_state() {
    let mut db = Database::new();
    let o = contact_owner(&mut db);
    db.add_contact(&o, "NIM-0000A1", "Ann", 1, ContactType::Friend).unwrap();
    assert_eq!(db.toggle_star(&o, "NIM-0000A1").unwrap(), true);
    assert_eq!(db.toggle_star(&o, "NIM-0000A1").unwrap(), false);
    let missing = db.toggle_star(&o, "NIM-0000F9");
    assert!(matches!(missing, Err(StoreError::NotFound)));
}

#[test]
fn removal_is_unilateral_and_idempotent() {
    let mut db = Database::new();
    let o = contact_owner(&mut db);
    let other = db.register_user("other", "Other", "some password").unwrap().uid;
    db.add_contact(&o, &other, "Other", 1, ContactType::Friend).unwrap();
    db.add_contact(&other, &o, "Owner", 1, ContactType::Friend).unwrap();
    db.remove_contact(&o, &other).unwrap();
    db.remove_contact(&o, &other).unwrap();
    assert!(db.get_contacts(&o, ContactType::Friend).is_empty());
    // The reverse edge is untouched.
    let reverse = db.get_contacts(&other, ContactType::Friend);
    assert_eq!(reverse.len(), 1);
    assert_eq!(reverse[0].display_name, "Owner");
}

#[test]
fn snapshot_display_data_is_not_live_synced() {
    let mut db = Database::new();
    let o = contact_owner(&mut db);
    let friend = db.register_user("friend", "Old Name", "some password").unwrap();
    db.add_contact(&o, &friend.uid, &friend.display_name, friend.avatar_color, ContactType::Friend)
        .unwrap();
    db.update_display_name(&friend.uid, "New Name").unwrap();
    let listed = db.get_contacts(&o, ContactType::Friend);
    assert_eq!(listed[0].display_name, "Old Name");
}
