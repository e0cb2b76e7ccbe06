use nimbuzyn::store::Database;
use nimbuzyn::models::{AppTheme, DEFAULT_AVATAR_COLOR};
use nimbuzyn::StoreError;
use nimbuzyn::ErrorKind;

#[test]
fn register_returns_profile_without_credentials() {
    let mut db = Database::new();
    let u = db.register_user("alice", "Alice A", "correct horse").unwrap();
    assert_eq!(u.username, "alice");
    assert_eq!(u.display_name, "Alice A");
    assert_eq!(u.avatar_color, DEFAULT_AVATAR_COLOR);
    assert_eq!(u.id, 1);
    assert!(u.uid.starts_with("NIM-"));
    assert_eq!(u.uid.chars().count(), 10);
}

#[test]
fn register_same_username_twice_conflicts() {
    let mut db = Database::new();
    db.register_user("alice", "Alice", "password-one").unwrap();
    let second = db.register_user("alice", "Other Alice", "password-two");
    assert!(matches!(second, Err(StoreError::UsernameTaken)));
    assert_eq!(db.users.len(), 1);
}

#[test]
fn public_ids_are_pairwise_distinct() {
    let mut db = Database::new();
    let names = ["ann", "ben", "cid", "dot", "eve"];
    let mut uids: Vec<String> = Vec::new();
    for n in names {
        uids.push(db.register_user(n, n, "some password").unwrap().uid);
    }
    for i in 0..uids.len() {
        for j in (i + 1)..uids.len() {
            assert_ne!(uids[i], uids[j]);
        }
    }
}

#[test]
fn login_round_trip() {
    let mut db = Database::new();
    db.register_user("bob", "Bob", "opensesame99").unwrap();
    let ok = db.login("bob", "opensesame99").unwrap();
    assert_eq!(ok.username, "bob");
    let wrong = db.login("bob", "opensesame98");
    assert!(matches!(wrong, Err(StoreError::WrongPassword)));
    let missing = db.login("rob", "opensesame99");
    assert!(matches!(missing, Err(StoreError::UserNotFound)));
}

#[test]
fn password_change_invalidates_the_old_password() {
    let mut db = Database::new();
    let u = db.register_user("carol", "Carol", "first-secret").unwrap();
    db.update_password(&u.uid, "second-secret").unwrap();
    assert!(db.login("carol", "second-secret").is_ok());
    assert!(matches!(db.login("carol", "first-secret"), Err(StoreError::WrongPassword)));
}

#[test]
fn display_name_update_rejects_blank_names() {
    let mut db = Database::new();
    let u = db.register_user("dora", "Dora", "some password").unwrap();
    assert!(matches!(db.update_display_name(&u.uid, "   "), Err(StoreError::Validation)));
    assert!(matches!(db.update_display_name(&u.uid, ""), Err(StoreError::Validation)));
    db.update_display_name(&u.uid, "Dora the Second").unwrap();
    let again = db.find_user_by_uid(&u.uid).unwrap();
    assert_eq!(again.display_name, "Dora the Second");
}

#[test]
fn settings_default_and_theme_update() {
    let mut db = Database::new();
    let u = db.register_user("emil", "Emil", "some password").unwrap();
    let s = db.get_settings(&u.uid).unwrap();
    assert_eq!(s.theme, AppTheme::Dark);
    assert!(s.notifications_enabled);
    assert_eq!(s.font_size, 140);
    db.update_theme(&u.uid, AppTheme::Light).unwrap();
    let s2 = db.get_settings(&u.uid).unwrap();
    assert_eq!(s2.theme, AppTheme::Light);
}

#[test]
fn lookups_by_unknown_uid_miss() {
    let db = Database::new();
    assert!(matches!(db.find_user_by_uid("NIM-000000"), Err(StoreError::NotFound)));
    assert!(matches!(db.get_settings("NIM-000000"), Err(StoreError::NotFound)));
}

#[test]
fn find_user_by_uid_returns_the_matching_user() {
    let mut db = Database::new();
    let u1 = db.register_user("fay", "Fay", "some password").unwrap();
    let u2 = db.register_user("gus", "Gus", "some password").unwrap();
    let found = db.find_user_by_uid(&u2.uid).unwrap();
    assert_eq!(found.username, "gus");
    assert_eq!(found.id, u2.id);
    let found1 = db.find_user_by_uid(&u1.uid).unwrap();
    assert_eq!(found1.username, "fay");
}

#[test]
fn error_kinds_follow_the_taxonomy() {
    let mut db = Database::new();
    db.register_user("alice", "Alice", "password-one").unwrap();
    let conflict = db.register_user("alice", "Alice", "password-one").unwrap_err();
    assert_eq!(conflict.kind(), ErrorKind::Conflict);
    let auth = db.login("alice", "wrong password").unwrap_err();
    assert_eq!(auth.kind(), ErrorKind::AuthFailure);
    let missing = db.find_user_by_uid("NIM-000000").unwrap_err();
    assert_eq!(missing.kind(), ErrorKind::NotFound);
    let blank = db.update_display_name("NIM-000000", "  ").unwrap_err();
    assert_eq!(blank.kind(), ErrorKind::Validation);
}
