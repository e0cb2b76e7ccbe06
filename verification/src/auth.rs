//! Credential store and identity directory: registration, login, password
//! and preference updates, lookup by public id.

use vstd::prelude::*;

use crate::clock;
use crate::crypto;
use crate::ident::{self, is_public_id};
use crate::models::{AppSettings, AppTheme, User, DEFAULT_AVATAR_COLOR, DEFAULT_FONT_SIZE};
use crate::store::{
    lemma_uid_index, lemma_username_index, same_except_users, uid_index, uid_taken,
    user_matches_row, username_index, username_taken, Database, UserRow,
};
use crate::text::{is_blank, str_eq, str_is_blank};
use crate::StoreError;

verus! {

impl Database {
    /// Index of the row with this username, if any.
    fn find_by_username(&self, username: &str) -> (r: Option<usize>)
        ensures
            (r matches Some(i) ==> i < self.users@.len() && self.users@[i as int].username@
                == username@),
            (r is None ==> !username_taken(self.users@, username@)),
    {
        let n = self.users.len();
        let mut i: usize = 0;
        while i < n
            invariant
                i <= n,
                n == self.users@.len(),
                forall|k: int| 0 <= k < i ==> (#[trigger] self.users@[k]).username@ != username@,
            decreases n - i,
        {
            if str_eq(self.users[i].username.as_str(), username) {
                return Some(i);
            }
            i += 1;
        }
        None
    }

    /// Index of the row with this public id, if any.
    fn find_by_uid(&self, uid: &str) -> (r: Option<usize>)
        ensures
            (r matches Some(i) ==> i < self.users@.len() && self.users@[i as int].uid@ == uid@),
            (r is None ==> !uid_taken(self.users@, uid@)),
    {
        let n = self.users.len();
        let mut i: usize = 0;
        while i < n
            invariant
                i <= n,
                n == self.users@.len(),
                forall|k: int| 0 <= k < i ==> (#[trigger] self.users@[k]).uid@ != uid@,
            decreases n - i,
        {
            if str_eq(self.users[i].uid.as_str(), uid) {
                return Some(i);
            }
            i += 1;
        }
        None
    }

    /// Whether some row carries this public id.
    fn uid_exists(&self, uid: &str) -> (r: bool)
        ensures
            r == uid_taken(self.users@, uid@),
    {
        match self.find_by_uid(uid) {
            Some(i) => {
                proof {
                    assert(uid_taken(self.users@, uid@));
                }
                true
            },
            None => false,
        }
    }

    /// Samples public ids until one misses every existing row; gives up
    /// after a fixed number of collisions, which for a 6-character space is
    /// astronomically unlikely to happen even once.
    fn sample_fresh_uid(&self) -> (r: Option<String>)
        ensures
            r matches Some(u) ==> is_public_id(u@) && !uid_taken(self.users@, u@),
    {
        let mut attempt: usize = 0;
        while attempt < 16
            invariant
                true,
            decreases 16 - attempt,
        {
            let suffix = ident::random_id_suffix();
            let mut uid = String::new();
            uid.append("NIM-");
            uid.append(suffix.as_str());
            proof {
                reveal_strlit("NIM-");
                assert(uid@ =~= "NIM-"@ + suffix@);
                assert(uid@.len() == 10);
                assert(uid@.subrange(0, 4) =~= "NIM-"@);
                assert forall|i: int| 4 <= i < 10 implies ident::is_upper_hex(#[trigger] uid@[i]) by {
                    assert(uid@[i] == suffix@[i - 4]);
                }
                assert(is_public_id(uid@));
            }
            if !self.uid_exists(uid.as_str()) {
                return Some(uid);
            }
            attempt += 1;
        }
        None
    }

    /// Registers a new user: rejects a taken username, hashes the password
    /// with a fresh random salt, assigns a fresh unique public id, and
    /// appends the row. The returned `User` carries no credential material.
    pub fn register_user(&mut self, username: &str, display_name: &str, password: &str) -> (r:
        Result<User, StoreError>)
        requires
            old(self).wf(),
        ensures
            final(self).wf(),
            same_except_users(*final(self), *old(self)),
            (r matches Err(_) ==> *final(self) == *old(self)),
            ((r matches Err(StoreError::UsernameTaken)) <==> username_taken(
                old(self).users@,
                username@,
            )),
            ((r matches Err(StoreError::Storage)) <==> (!username_taken(
                old(self).users@,
                username@,
            ) && old(self).next_user_id == i64::MAX)),
            (r matches Err(e) ==> (e == StoreError::UsernameTaken || e == StoreError::Storage || e
                == StoreError::HashingFailed || e == StoreError::PublicIdCollision)),
            (r matches Ok(u) ==> {
                let row = final(self).users@.last();
                &&& final(self).users@ == old(self).users@.push(row)
                &&& final(self).next_user_id == old(self).next_user_id + 1
                &&& row.username@ == username@
                &&& row.display_name@ == display_name@
                &&& crypto::verifies(password@, row.password_hash@)
                &&& is_public_id(row.uid@)
                &&& !uid_taken(old(self).users@, row.uid@)
                &&& row.id == old(self).next_user_id
                &&& row.theme == AppTheme::Dark
                &&& row.notifications_enabled
                &&& row.font_size == DEFAULT_FONT_SIZE
                &&& row.avatar_color == DEFAULT_AVATAR_COLOR
                &&& user_matches_row(u, row)
            }),
    {
        if let Some(_) = self.find_by_username(username) {
            proof {
                assert(username_taken(self.users@, username@));
            }
            return Err(StoreError::UsernameTaken);
        }
        if self.next_user_id == i64::MAX {
            return Err(StoreError::Storage);
        }
        let hash = match crypto::hash_password(password) {
            Some(h) => h,
            None => {
                return Err(StoreError::HashingFailed);
            },
        };
        let uid = match self.sample_fresh_uid() {
            Some(u) => u,
            None => {
                return Err(StoreError::PublicIdCollision);
            },
        };
        let now = clock::now_rfc3339();
        let id = self.next_user_id;
        let user = User {
            id,
            uid: uid.clone(),
            username: username.to_owned(),
            display_name: display_name.to_owned(),
            avatar_color: DEFAULT_AVATAR_COLOR,
            created_at: now.clone(),
        };
        let row = UserRow {
            id,
            uid,
            username: username.to_owned(),
            display_name: display_name.to_owned(),
            password_hash: hash,
            avatar_color: DEFAULT_AVATAR_COLOR,
            theme: AppTheme::Dark,
            notifications_enabled: true,
            font_size: DEFAULT_FONT_SIZE,
            created_at: now,
        };
        let ghost rowg = row;
        self.users.push(row);
        self.next_user_id = id + 1;
        proof {
            let users0 = old(self).users@;
            let users1 = self.users@;
            assert(users1 == users0.push(rowg));
            assert forall|a: int, b: int|
                0 <= a < b < users1.len() implies (#[trigger] users1[a]).username@ != (
            #[trigger] users1[b]).username@ by {
                if b == users0.len() {
                    assert(users1[a] == users0[a]);
                    assert(!(0 <= a < users0.len() && users0[a].username@ == username@));
                } else {
                    assert(users1[a] == users0[a]);
                    assert(users1[b] == users0[b]);
                }
            }
            assert forall|a: int, b: int|
                0 <= a < b < users1.len() implies (#[trigger] users1[a]).uid@ != (
            #[trigger] users1[b]).uid@ by {
                if b == users0.len() {
                    assert(users1[a] == users0[a]);
                    assert(!(0 <= a < users0.len() && users0[a].uid@ == rowg.uid@));
                } else {
                    assert(users1[a] == users0[a]);
                    assert(users1[b] == users0[b]);
                }
            }
            assert forall|a: int|
                0 <= a < users1.len() implies 1 <= (#[trigger] users1[a]).id
                < self.next_user_id by {
                if a < users0.len() {
                    assert(users1[a] == users0[a]);
                }
            }
        }
        Ok(user)
    }

    /// Verifies credentials: the username must exist and the password must
    /// verify against the stored hash; each failure is reported distinctly.
    pub fn login(&self, username: &str, password: &str) -> (r: Result<User, StoreError>)
        requires
            self.wf(),
        ensures
            ((r matches Err(StoreError::UserNotFound)) <==> !username_taken(
                self.users@,
                username@,
            )),
            (r matches Err(e) ==> (e == StoreError::UserNotFound || e == StoreError::WrongPassword)),
            (username_taken(self.users@, username@) ==> {
                let row = self.users@[username_index(self.users@, username@)];
                &&& ((r matches Ok(u)) <==> crypto::verifies(password@, row.password_hash@))
                &&& (r matches Ok(u) ==> user_matches_row(u, row))
            }),
    {
        match self.find_by_username(username) {
            None => Err(StoreError::UserNotFound),
            Some(i) => {
                proof {
                    lemma_username_index(self.users@, username@, i as int);
                }
                let row = &self.users[i];
                if crypto::verify_password(password, row.password_hash.as_str()) {
                    Ok(
                        User {
                            id: row.id,
                            uid: row.uid.clone(),
                            username: row.username.clone(),
                            display_name: row.display_name.clone(),
                            avatar_color: row.avatar_color,
                            created_at: row.created_at.clone(),
                        },
                    )
                } else {
                    Err(StoreError::WrongPassword)
                }
            },
        }
    }

    /// Replaces a user's display name; empty or whitespace-only names are a
    /// data-integrity violation and are rejected here, not in presentation.
    /// An unknown id leaves the store unchanged.
    pub fn update_display_name(&mut self, uid: &str, display_name: &str) -> (r: Result<
        (),
        StoreError,
    >)
        requires
            old(self).wf(),
        ensures
            final(self).wf(),
            same_except_users(*final(self), *old(self)),
            final(self).next_user_id == old(self).next_user_id,
            ((r matches Err(StoreError::Validation)) <==> is_blank(display_name@)),
            (r matches Err(e) ==> (e == StoreError::Validation && *final(self) == *old(self))),
            (r is Ok ==> (if uid_taken(old(self).users@, uid@) {
                let i = uid_index(old(self).users@, uid@);
                let row = final(self).users@[i];
                &&& final(self).users@ == old(self).users@.update(i, row)
                &&& row.display_name@ == display_name@
                &&& row == UserRow { display_name: row.display_name, ..old(self).users@[i] }
            } else {
                *final(self) == *old(self)
            })),
    {
        if str_is_blank(display_name) {
            return Err(StoreError::Validation);
        }
        match self.find_by_uid(uid) {
            None => Ok(()),
            Some(i) => {
                proof {
                    lemma_uid_index(self.users@, uid@, i as int);
                }
                self.users[i].display_name = display_name.to_owned();
                proof {
                    lemma_users_ok_after_update(*old(self), *self, i as int);
                }
                Ok(())
            },
        }
    }

    /// Re-hashes the password with a fresh salt and overwrites the stored
    /// hash. An unknown id leaves the store unchanged.
    pub fn update_password(&mut self, uid: &str, new_password: &str) -> (r: Result<(), StoreError>)
        requires
            old(self).wf(),
        ensures
            final(self).wf(),
            same_except_users(*final(self), *old(self)),
            final(self).next_user_id == old(self).next_user_id,
            (r matches Err(e) ==> (e == StoreError::HashingFailed && *final(self) == *old(self))),
            (r is Ok ==> (if uid_taken(old(self).users@, uid@) {
                let i = uid_index(old(self).users@, uid@);
                let row = final(self).users@[i];
                &&& final(self).users@ == old(self).users@.update(i, row)
                &&& crypto::verifies(new_password@, row.password_hash@)
                &&& row == UserRow { password_hash: row.password_hash, ..old(self).users@[i] }
            } else {
                *final(self) == *old(self)
            })),
    {
        let hash = match crypto::hash_password(new_password) {
            Some(h) => h,
            None => {
                return Err(StoreError::HashingFailed);
            },
        };
        match self.find_by_uid(uid) {
            None => Ok(()),
            Some(i) => {
                proof {
                    lemma_uid_index(self.users@, uid@, i as int);
                }
                self.users[i].password_hash = hash;
                proof {
                    lemma_users_ok_after_update(*old(self), *self, i as int);
                }
                Ok(())
            },
        }
    }

    /// Saves the theme preference. An unknown id leaves the store
    /// unchanged.
    pub fn update_theme(&mut self, uid: &str, theme: AppTheme) -> (r: Result<(), StoreError>)
        requires
            old(self).wf(),
        ensures
            final(self).wf(),
            same_except_users(*final(self), *old(self)),
            final(self).next_user_id == old(self).next_user_id,
            r is Ok,
            (if uid_taken(old(self).users@, uid@) {
                let i = uid_index(old(self).users@, uid@);
                let row = final(self).users@[i];
                &&& final(self).users@ == old(self).users@.update(i, row)
                &&& row.theme == theme
                &&& row == UserRow { theme, ..old(self).users@[i] }
            } else {
                *final(self) == *old(self)
            }),
    {
        match self.find_by_uid(uid) {
            None => Ok(()),
            Some(i) => {
                proof {
                    lemma_uid_index(self.users@, uid@, i as int);
                }
                self.users[i].theme = theme;
                proof {
                    lemma_users_ok_after_update(*old(self), *self, i as int);
                }
                Ok(())
            },
        }
    }

    /// Reads a user's preference fields.
    pub fn get_settings(&self, uid: &str) -> (r: Result<AppSettings, StoreError>)
        requires
            self.wf(),
        ensures
            ((r matches Err(StoreError::NotFound)) <==> !uid_taken(self.users@, uid@)),
            (r matches Err(e) ==> e == StoreError::NotFound),
            (r matches Ok(s) ==> {
                let row = self.users@[uid_index(self.users@, uid@)];
                s == (AppSettings {
                    theme: row.theme,
                    notifications_enabled: row.notifications_enabled,
                    font_size: row.font_size,
                })
            }),
    {
        match self.find_by_uid(uid) {
            None => Err(StoreError::NotFound),
            Some(i) => {
                proof {
                    lemma_uid_index(self.users@, uid@, i as int);
                }
                let row = &self.users[i];
                Ok(
                    AppSettings {
                        theme: row.theme,
                        notifications_enabled: row.notifications_enabled,
                        font_size: row.font_size,
                    },
                )
            },
        }
    }

    /// Looks a user up by public id.
    pub fn find_user_by_uid(&self, uid: &str) -> (r: Result<User, StoreError>)
        requires
            self.wf(),
        ensures
            ((r matches Err(StoreError::NotFound)) <==> !uid_taken(self.users@, uid@)),
            (r matches Err(e) ==> e == StoreError::NotFound),
            (r matches Ok(u) ==> user_matches_row(u, self.users@[uid_index(self.users@, uid@)])),
    {
        match self.find_by_uid(uid) {
            None => Err(StoreError::NotFound),
            Some(i) => {
                proof {
                    lemma_uid_index(self.users@, uid@, i as int);
                }
                let row = &self.users[i];
                Ok(
                    User {
                        id: row.id,
                        uid: row.uid.clone(),
                        username: row.username.clone(),
                        display_name: row.display_name.clone(),
                        avatar_color: row.avatar_color,
                        created_at: row.created_at.clone(),
                    },
                )
            },
        }
    }
}

/// Replacing one row while keeping its username, public id and id intact
/// preserves the user table invariant.
proof fn lemma_users_ok_after_update(db0: Database, db1: Database, i: int)
    requires
        db0.users_ok(),
        0 <= i < db0.users@.len(),
        db1.users@ == db0.users@.update(i, db1.users@[i]),
        db1.users@[i].username@ == db0.users@[i].username@,
        db1.users@[i].uid@ == db0.users@[i].uid@,
        db1.users@[i].id == db0.users@[i].id,
        db1.next_user_id == db0.next_user_id,
    ensures
        db1.users_ok(),
{
    let u0 = db0.users@;
    let u1 = db1.users@;
    assert(u1.len() == u0.len());
    assert forall|a: int, b: int|
        0 <= a < b < u1.len() implies (#[trigger] u1[a]).username@ != (
    #[trigger] u1[b]).username@ by {
        assert(u0[a].username@ != u0[b].username@);
        if a != i {
            assert(u1[a] == u0[a]);
        }
        if b != i {
            assert(u1[b] == u0[b]);
        }
    }
    assert forall|a: int, b: int|
        0 <= a < b < u1.len() implies (#[trigger] u1[a]).uid@ != (#[trigger] u1[b]).uid@ by {
        assert(u0[a].uid@ != u0[b].uid@);
        if a != i {
            assert(u1[a] == u0[a]);
        }
        if b != i {
            assert(u1[b] == u0[b]);
        }
    }
    assert forall|a: int| 0 <= a < u1.len() implies 1 <= (#[trigger] u1[a]).id
        < db1.next_user_id by {
        if a != i {
            assert(u1[a] == u0[a]);
        } else {
            assert(u0[i].id == u1[i].id);
        }
    }
}

} // verus!
