//! Form state and input validation for the authentication and settings
//! screens. Rendering lives outside the library; what is verified here is
//! the data-integrity rule deciding when a registration form may be
//! submitted, and the intents the forms emit.

use vstd::prelude::*;

use crate::models::User;
use crate::text::{str_contains_char, str_eq, str_trim, trim_of};

verus! {

/// Which authentication form is shown.
#[derive(Clone, Copy, Debug, PartialEq, Eq, Structural)]
pub enum AuthTab {
    Login,
    Register,
}

/// The intent an authentication form emits.
pub enum AuthAction {
    Idle,
    Login { username: String, password: String },
    Register { username: String, display_name: String, password: String },
}

/// The authentication form state: login fields, registration fields, and
/// their error and progress markers.
pub struct LoginScreen {
    pub tab: AuthTab,
    pub login_user: String,
    pub login_pass: String,
    pub login_pass_visible: bool,
    pub login_error: Option<String>,
    pub login_loading: bool,
    pub reg_user: String,
    pub reg_display: String,
    pub reg_pass: String,
    pub reg_pass2: String,
    pub reg_pass_visible: bool,
    pub reg_error: Option<String>,
    pub reg_success: Option<String>,
    pub reg_loading: bool,
}

impl Default for LoginScreen {
    /// A blank form on the login tab.
    fn default() -> (r: Self)
        ensures
            r.tab == AuthTab::Login,
            r.login_user@.len() == 0,
            r.login_pass@.len() == 0,
            !r.login_pass_visible,
            r.login_error is None,
            !r.login_loading,
            r.reg_user@.len() == 0,
            r.reg_display@.len() == 0,
            r.reg_pass@.len() == 0,
            r.reg_pass2@.len() == 0,
            !r.reg_pass_visible,
            r.reg_error is None,
            r.reg_success is None,
            !r.reg_loading,
    {
        LoginScreen {
            tab: AuthTab::Login,
            login_user: String::new(),
            login_pass: String::new(),
            login_pass_visible: false,
            login_error: None,
            login_loading: false,
            reg_user: String::new(),
            reg_display: String::new(),
            reg_pass: String::new(),
            reg_pass2: String::new(),
            reg_pass_visible: false,
            reg_error: None,
            reg_success: None,
            reg_loading: false,
        }
    }
}

/// What is wrong with a registration form, if anything: both names are
/// required after trimming, the username must be at least 3 characters
/// with no spaces, the password at least 8 characters and typed twice the
/// same. Lengths are counted in characters.
pub open spec fn register_form_error(
    user: Seq<char>,
    display: Seq<char>,
    pass: Seq<char>,
    pass2: Seq<char>,
) -> Option<Seq<char>> {
    let u = trim_of(user);
    let d = trim_of(display);
    if u.len() == 0 || d.len() == 0 {
        Some("Todos los campos son requeridos"@)
    } else if u.contains(' ') {
        Some("El usuario no puede contener espacios"@)
    } else if u.len() < 3 {
        Some("El usuario debe tener al menos 3 caracteres"@)
    } else if pass.len() < 8 {
        Some("La contraseña debe tener al menos 8 caracteres"@)
    } else if pass != pass2 {
        Some("Las contraseñas no coinciden"@)
    } else {
        None
    }
}

impl LoginScreen {
    /// Validates the registration fields. On the first violated rule the
    /// matching message lands in `reg_error` and the action is untouched;
    /// on a clean form the action becomes a registration intent carrying
    /// the trimmed username and display name and the password as typed.
    pub fn validate_register(&mut self, action: &mut AuthAction)
        ensures
            final(self).reg_success is None,
            *final(self) == (LoginScreen {
                reg_error: final(self).reg_error,
                reg_success: final(self).reg_success,
                ..*old(self)
            }),
            ({
                let e = register_form_error(
                    old(self).reg_user@,
                    old(self).reg_display@,
                    old(self).reg_pass@,
                    old(self).reg_pass2@,
                );
                match e {
                    Some(m) => {
                        &&& final(self).reg_error matches Some(msg) && msg@ == m
                        &&& *final(action) == *old(action)
                    },
                    None => {
                        &&& final(self).reg_error is None
                        &&& *final(action) matches AuthAction::Register {
                            username,
                            display_name,
                            password,
                        } && username@ == trim_of(old(self).reg_user@) && display_name@ == trim_of(
                            old(self).reg_display@,
                        ) && password@ == old(self).reg_pass@
                    },
                }
            }),
    {
        self.reg_error = None;
        self.reg_success = None;

        let user = str_trim(self.reg_user.as_str());
        let display = str_trim(self.reg_display.as_str());

        if user.as_str().is_empty() || display.as_str().is_empty() {
            self.reg_error = Some("Todos los campos son requeridos".to_owned());
            return;
        }
        if str_contains_char(user.as_str(), ' ') {
            self.reg_error = Some("El usuario no puede contener espacios".to_owned());
            return;
        }
        if user.as_str().unicode_len() < 3 {
            self.reg_error = Some("El usuario debe tener al menos 3 caracteres".to_owned());
            return;
        }
        if self.reg_pass.as_str().unicode_len() < 8 {
            self.reg_error = Some("La contraseña debe tener al menos 8 caracteres".to_owned());
            return;
        }
        if !str_eq(self.reg_pass.as_str(), self.reg_pass2.as_str()) {
            self.reg_error = Some("Las contraseñas no coinciden".to_owned());
            return;
        }

        *action = AuthAction::Register {
            username: user,
            display_name: display,
            password: self.reg_pass.clone(),
        };
    }
}

/// The intent the settings screen emits.
pub enum SettingsAction {
    Idle,
    UpdateDisplayName(String),
    ChangePassword { old_pass: String, new_pass: String },
    ToggleTheme,
    Logout,
}

/// The settings form state: display-name editing and password change
/// fields with their error and progress markers.
pub struct SettingsScreen {
    pub display_name: String,
    pub display_name_edit: bool,
    pub old_pass: String,
    pub new_pass: String,
    pub new_pass2: String,
    pub pass_visible: bool,
    pub pass_error: Option<String>,
    pub pass_success: Option<String>,
    pub name_error: Option<String>,
    pub name_success: Option<String>,
    pub show_logout_confirm: bool,
}

impl SettingsScreen {
    /// A fresh settings form for one user, the display-name field
    /// prefilled from their profile.
    pub fn new(user: &User) -> (r: Self)
        ensures
            r.display_name == user.display_name,
            !r.display_name_edit,
            r.old_pass@.len() == 0,
            r.new_pass@.len() == 0,
            r.new_pass2@.len() == 0,
            !r.pass_visible,
            r.pass_error is None,
            r.pass_success is None,
            r.name_error is None,
            r.name_success is None,
            !r.show_logout_confirm,
    {
        SettingsScreen {
            display_name: user.display_name.clone(),
            display_name_edit: false,
            old_pass: String::new(),
            new_pass: String::new(),
            new_pass2: String::new(),
            pass_visible: false,
            pass_error: None,
            pass_success: None,
            name_error: None,
            name_success: None,
            show_logout_confirm: false,
        }
    }
}

} // verus!
