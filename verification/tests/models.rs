use nimbuzyn::models::{AppSettings, AppTheme, ContactType, Message, MessageType, User};

#[test]
fn message_type_tokens_round_trip() {
    let all = [
        (MessageType::Text, "text"),
        (MessageType::Image, "image"),
        (MessageType::Video, "video"),
        (MessageType::Document, "document"),
        (MessageType::Archive, "archive"),
    ];
    for (t, token) in all {
        assert_eq!(t.token(), token);
        assert_eq!(MessageType::from_str(token), t);
    }
}

#[test]
fn unknown_message_token_falls_back_to_text() {
    assert_eq!(MessageType::from_str("sticker"), MessageType::Text);
    assert_eq!(MessageType::from_str(""), MessageType::Text);
}

#[test]
fn message_type_icons() {
    assert_eq!(MessageType::Text.icon(), "💬");
    assert_eq!(MessageType::Image.icon(), "🖼");
    assert_eq!(MessageType::Video.icon(), "🎬");
    assert_eq!(MessageType::Document.icon(), "📄");
    assert_eq!(MessageType::Archive.icon(), "📦");
}

#[test]
fn contact_type_tokens_round_trip() {
    assert_eq!(ContactType::Friend.token(), "friend");
    assert_eq!(ContactType::Acquaintance.token(), "acquaintance");
    assert_eq!(ContactType::from_token("friend"), Some(ContactType::Friend));
    assert_eq!(ContactType::from_token("acquaintance"), Some(ContactType::Acquaintance));
    assert_eq!(ContactType::from_token("enemy"), None);
}

#[test]
fn theme_tokens_round_trip() {
    assert_eq!(AppTheme::Dark.token(), "dark");
    assert_eq!(AppTheme::Light.token(), "light");
    assert_eq!(AppTheme::from_token("dark"), Some(AppTheme::Dark));
    assert_eq!(AppTheme::from_token("light"), Some(AppTheme::Light));
    assert_eq!(AppTheme::from_token("sepia"), None);
    assert_eq!(AppTheme::default(), AppTheme::Dark);
}

#[test]
fn file_size_limit_is_one_hundred_mebibytes() {
    assert!(Message::is_valid_file_size(0));
    assert!(Message::is_valid_file_size(100 * 1024 * 1024));
    assert!(!Message::is_valid_file_size(100 * 1024 * 1024 + 1));
}

#[test]
fn file_type_check_is_ascii_case_insensitive() {
    assert!(Message::is_valid_file_type("jpg"));
    assert!(Message::is_valid_file_type("JPG"));
    assert!(Message::is_valid_file_type("Pdf"));
    assert!(Message::is_valid_file_type("7z"));
    assert!(Message::is_valid_file_type("webm"));
    assert!(!Message::is_valid_file_type("exe"));
    assert!(!Message::is_valid_file_type(""));
    assert!(!Message::is_valid_file_type("jpg "));
}

#[test]
fn fresh_user_values_carry_a_public_id_shape() {
    let u = User::new("zoe".to_string(), "Zoe".to_string());
    assert_eq!(u.id, 0);
    assert!(u.uid.starts_with("NIM-"));
    assert_eq!(u.uid.chars().count(), 10);
    assert!(u.uid.chars().skip(4).all(|c| c.is_ascii_hexdigit() && !c.is_ascii_lowercase()));
    assert_eq!(u.username, "zoe");
    assert_eq!(u.display_name, "Zoe");
}

#[test]
fn settings_default_is_dark_with_notifications() {
    let s = AppSettings::default();
    assert_eq!(s.theme, AppTheme::Dark);
    assert!(s.notifications_enabled);
    assert_eq!(s.font_size, 140);
}
