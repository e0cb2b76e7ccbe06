use nimbuzyn::models::User;
use nimbuzyn::screens::{AuthAction, AuthTab, LoginScreen, SettingsScreen};

fn filled_form() -> LoginScreen {
    let mut f = LoginScreen::default();
    f.reg_user = "  alice  ".to_string();
    f.reg_display = " Alice A ".to_string();
    f.reg_pass = "longenough".to_string();
    f.reg_pass2 = "longenough".to_string();
    f
}

#[test]
fn default_form_opens_on_the_login_tab() {
    let f = LoginScreen::default();
    assert_eq!(f.tab, AuthTab::Login);
    assert!(f.login_user.is_empty());
    assert!(f.reg_error.is_none());
    assert!(!f.reg_loading);
}

#[test]
fn valid_registration_emits_a_trimmed_intent() {
    let mut f = filled_form();
    let mut action = AuthAction::Idle;
    f.validate_register(&mut action);
    assert!(f.reg_error.is_none());
    match action {
        AuthAction::Register { username, display_name, password } => {
            assert_eq!(username, "alice");
            assert_eq!(display_name, "Alice A");
            assert_eq!(password, "longenough");
        },
        _ => panic!("expected a registration intent"),
    }
}

#[test]
fn empty_fields_are_rejected() {
    let mut f = filled_form();
    f.reg_user = "   ".to_string();
    let mut action = AuthAction::Idle;
    f.validate_register(&mut action);
    assert_eq!(f.reg_error.as_deref(), Some("Todos los campos son requeridos"));
    assert!(matches!(action, AuthAction::Idle));
}

#[test]
fn spaces_inside_the_username_are_rejected() {
    let mut f = filled_form();
    f.reg_user = "ali ce".to_string();
    let mut action = AuthAction::Idle;
    f.validate_register(&mut action);
    assert_eq!(f.reg_error.as_deref(), Some("El usuario no puede contener espacios"));
}

#[test]
fn short_usernames_are_rejected() {
    let mut f = filled_form();
    f.reg_user = "al".to_string();
    let mut action = AuthAction::Idle;
    f.validate_register(&mut action);
    assert_eq!(f.reg_error.as_deref(), Some("El usuario debe tener al menos 3 caracteres"));
}

#[test]
fn short_passwords_are_rejected() {
    let mut f = filled_form();
    f.reg_pass = "seven77".to_string();
    f.reg_pass2 = "seven77".to_string();
    let mut action = AuthAction::Idle;
    f.validate_register(&mut action);
    assert_eq!(f.reg_error.as_deref(), Some("La contraseña debe tener al menos 8 caracteres"));
}

#[test]
fn mismatched_passwords_are_rejected() {
    let mut f = filled_form();
    f.reg_pass2 = "longenough2".to_string();
    let mut action = AuthAction::Idle;
    f.validate_register(&mut action);
    assert_eq!(f.reg_error.as_deref(), Some("Las contraseñas no coinciden"));
}

#[test]
fn settings_form_is_prefilled_from_the_user() {
    let user = User::new("zoe".to_string(), "Zoe Z".to_string());
    let s = SettingsScreen::new(&user);
    assert_eq!(s.display_name, "Zoe Z");
    assert!(!s.display_name_edit);
    assert!(s.old_pass.is_empty());
    assert!(s.pass_error.is_none());
    assert!(!s.show_logout_confirm);
}
