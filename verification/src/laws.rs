//! Store-wide laws: properties that relate several operations, stated over
//! the same spec vocabulary the operation contracts use and proved from it.

use vstd::prelude::*;

use crate::models::{Chat, Contact};
use crate::store::{
    canon_high, canon_low, chat_present, lemma_chat_pair_index, lemma_pair_index,
    lemma_username_index, pair_present, username_index, username_taken, Database, UserRow,
};
use crate::chats::lemma_canon_symmetric;

verus! {

/// Registration uniqueness: after any successful registration, the chosen
/// username is taken, so by the contract of `register_user` a second
/// registration under the same username reports the conflict and leaves
/// the store unchanged.
pub proof fn lemma_register_twice_conflicts(
    before: Database,
    after: Database,
    row: UserRow,
    name: Seq<char>,
)
    requires
        after.users@ == before.users@.push(row),
        row.username@ == name,
    ensures
        username_taken(after.users@, name),
{
    assert(after.users@[after.users@.len() - 1] == row);
}

/// Public-id uniqueness: in any well-formed store the public ids of all
/// users are pairwise distinct, so the ids handed out across any number of
/// registrations never repeat.
pub proof fn lemma_public_ids_distinct(db: Database)
    requires
        db.wf(),
    ensures
        forall|i: int, j: int|
            0 <= i < j < db.users@.len() ==> (#[trigger] db.users@[i]).uid@ != (
            #[trigger] db.users@[j]).uid@,
{
}

/// Password round trip: in a well-formed store, the row a user's username
/// resolves to is exactly the row the credential operations wrote for that
/// user. Since `register_user` and `update_password` both ensure that the
/// stored hash verifies against the password they were given, the contract
/// of `login` — success exactly when the password verifies against that
/// row's hash — yields: a user authenticates with the password most
/// recently set, and any password that does not verify against the stored
/// hash is turned away with a credential failure.
pub proof fn lemma_login_consults_the_stored_row(db: Database, i: int)
    requires
        db.wf(),
        0 <= i < db.users@.len(),
    ensures
        username_taken(db.users@, db.users@[i].username@),
        username_index(db.users@, db.users@[i].username@) == i,
{
    lemma_username_index(db.users@, db.users@[i].username@, i);
}

/// Thread canonicalization: the rows that the two argument orders of an
/// unordered pair resolve to are one and the same row, so
/// `get_or_create_chat(a, b)` and `get_or_create_chat(b, a)` return the
/// same thread identifier.
pub proof fn lemma_thread_identity(db: Database, a: Seq<char>, b: Seq<char>, i: int, j: int)
    requires
        db.wf(),
        0 <= i < db.chats@.len(),
        0 <= j < db.chats@.len(),
        db.chats@[i].participant_a@ == canon_low(a, b),
        db.chats@[i].participant_b@ == canon_high(a, b),
        db.chats@[j].participant_a@ == canon_low(b, a),
        db.chats@[j].participant_b@ == canon_high(b, a),
    ensures
        i == j,
        db.chats@[i].id == db.chats@[j].id,
{
    lemma_canon_symmetric(a, b);
    lemma_chat_pair_index(db.chats@, canon_low(a, b), canon_high(a, b), i);
    lemma_chat_pair_index(db.chats@, canon_low(a, b), canon_high(a, b), j);
}

/// Thread creation happens at most once: after a chat for a pair is
/// created, the canonical pair is present under either argument order, so
/// by the contract of `get_or_create_chat` every further open of the pair
/// returns the existing row and leaves the store unchanged.
pub proof fn lemma_open_thread_idempotent(
    before: Database,
    after: Database,
    c: Chat,
    a: Seq<char>,
    b: Seq<char>,
)
    requires
        after.chats@ == before.chats@.push(c),
        c.participant_a@ == canon_low(a, b),
        c.participant_b@ == canon_high(a, b),
    ensures
        chat_present(after.chats@, canon_low(a, b), canon_high(a, b)),
        chat_present(after.chats@, canon_low(b, a), canon_high(b, a)),
{
    lemma_canon_symmetric(a, b);
    assert(after.chats@[after.chats@.len() - 1] == c);
}

/// Message and preview are never seen apart: in every well-formed store,
/// each chat's `last_message` and `last_message_at` are exactly the
/// preview and timestamp of the latest entry of its ledger, and are empty
/// for a chat whose ledger is empty. `send_message` preserves `wf`, so no
/// reader ever observes a new message without the preview reflecting it,
/// or the reverse.
pub proof fn lemma_preview_reflects_latest(db: Database, j: int)
    requires
        db.wf(),
        0 <= j < db.chats@.len(),
    ensures
        crate::store::chat_preview_ok(db.messages@, db.chats@[j]),
{
}

/// Contact addition is idempotent: after an edge is added its pair is
/// present, so by the contract of `add_contact` a second call with the
/// same arguments is a no-op; and in any well-formed store at most one
/// edge carries a given (owner, contact) pair, so exactly one row remains.
pub proof fn lemma_contact_add_idempotent(
    before: Database,
    after: Database,
    c: Contact,
    owner: Seq<char>,
    contact: Seq<char>,
)
    requires
        after.contacts@ == before.contacts@.push(c),
        c.owner_uid@ == owner,
        c.contact_uid@ == contact,
    ensures
        pair_present(after.contacts@, owner, contact),
{
    assert(after.contacts@[after.contacts@.len() - 1] == c);
}

/// At most one edge of a well-formed store carries a given pair.
pub proof fn lemma_contact_pair_unique(
    db: Database,
    owner: Seq<char>,
    contact: Seq<char>,
    i: int,
    j: int,
)
    requires
        db.wf(),
        0 <= i < db.contacts@.len(),
        0 <= j < db.contacts@.len(),
        db.contacts@[i].owner_uid@ == owner,
        db.contacts@[i].contact_uid@ == contact,
        db.contacts@[j].owner_uid@ == owner,
        db.contacts@[j].contact_uid@ == contact,
    ensures
        i == j,
{
    lemma_pair_index(db.contacts@, owner, contact, i);
    lemma_pair_index(db.contacts@, owner, contact, j);
}

} // verus!
