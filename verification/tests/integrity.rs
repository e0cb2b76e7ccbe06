use nimbuzyn::models::{ContactType, MessageType};
use nimbuzyn::store::Database;

#[test]
fn a_fresh_store_passes_the_audit() {
    assert!(Database::new().check_wf());
}

#[test]
fn a_store_grown_through_operations_passes_the_audit() {
    let mut db = Database::new();
    let a = db.register_user("ana", "Ana", "some password").unwrap();
    let b = db.register_user("bo", "Bo", "some password").unwrap();
    db.add_contact(&a.uid, &b.uid, "Bo", 1, ContactType::Friend).unwrap();
    let c = db.get_or_create_chat(&a.uid, &b.uid).unwrap();
    db.send_message(c.id, &a.uid, "hi there", MessageType::Text, None, None).unwrap();
    assert!(db.check_wf());
}

#[test]
fn duplicate_usernames_fail_the_audit() {
    let mut db = Database::new();
    db.register_user("ana", "Ana", "some password").unwrap();
    let mut clone_row = None;
    for u in &db.users {
        clone_row = Some(nimbuzyn::store::UserRow {
            id: u.id + 1,
            uid: format!("{}X", u.uid),
            username: u.username.clone(),
            display_name: u.display_name.clone(),
            password_hash: u.password_hash.clone(),
            avatar_color: u.avatar_color,
            theme: u.theme,
            notifications_enabled: u.notifications_enabled,
            font_size: u.font_size,
            created_at: u.created_at.clone(),
        });
    }
    db.users.push(clone_row.unwrap());
    db.next_user_id += 1;
    assert!(!db.check_wf());
}

#[test]
fn a_non_canonical_chat_pair_fails_the_audit() {
    let mut db = Database::new();
    let a = db.register_user("ana", "Ana", "some password").unwrap();
    let b = db.register_user("bo", "Bo", "some password").unwrap();
    let c = db.get_or_create_chat(&a.uid, &b.uid).unwrap();
    assert!(db.check_wf());
    let i = db.chats.iter().position(|x| x.id == c.id).unwrap();
    let pa = db.chats[i].participant_a.clone();
    let pb = db.chats[i].participant_b.clone();
    db.chats[i].participant_a = pb;
    db.chats[i].participant_b = pa;
    assert!(!db.check_wf());
}

#[test]
fn a_stale_preview_fails_the_audit() {
    let mut db = Database::new();
    let a = db.register_user("ana", "Ana", "some password").unwrap();
    let b = db.register_user("bo", "Bo", "some password").unwrap();
    let c = db.get_or_create_chat(&a.uid, &b.uid).unwrap();
    db.send_message(c.id, &a.uid, "hi there", MessageType::Text, None, None).unwrap();
    assert!(db.check_wf());
    let i = db.chats.iter().position(|x| x.id == c.id).unwrap();
    db.chats[i].last_message = Some("something else".to_string());
    assert!(!db.check_wf());
}

#[test]
fn an_inconsistent_profit_field_fails_the_audit() {
    let mut db = Database::new();
    let o = db.register_user("ana", "Ana", "some password").unwrap();
    let p = nimbuzyn::models::Product {
        id: 0,
        owner_uid: o.uid.clone(),
        code: "A".to_string(),
        name: "Widget".to_string(),
        quantity: 100,
        net_value: 700,
        sale_value: 1000,
        profit_value: 0,
        created_at: String::new(),
        updated_at: String::new(),
    };
    db.upsert_product(&p).unwrap();
    assert!(db.check_wf());
    db.products[0].profit_value = 1;
    assert!(!db.check_wf());
}
