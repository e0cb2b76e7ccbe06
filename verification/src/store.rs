//! The store itself: its state, its well-formedness invariant, and the
//! spec-level vocabulary the operation contracts are written in.
//!
//! The store is a single-writer collection of five tables. `wf` is the
//! conjunction of the data invariants the specification promises: unique
//! usernames and public ids, unique contact edges that never point at their
//! owner, canonically ordered and unique chat pairs, a message ledger whose
//! per-chat timestamps ascend and whose chats carry an exact preview of
//! their latest message, and valid products with per-owner unique codes.
//! Every operation requires `wf` and preserves it.

use vstd::prelude::*;

use crate::models::{AppTheme, Chat, Contact, Message, Product, User};
use crate::models::preview_view;
use crate::text::{lex_le, lex_lt};

verus! {

/// One row of the user table. Unlike [`User`], this carries the credential
/// hash and the preference fields; rows never leave the store.
#[derive(Debug)]
pub struct UserRow {
    pub id: i64,
    pub uid: String,
    pub username: String,
    pub display_name: String,
    /// PHC-encoded password hash.
    pub password_hash: String,
    pub avatar_color: u32,
    pub theme: AppTheme,
    pub notifications_enabled: bool,
    /// Font size preference, in tenths of a point.
    pub font_size: u32,
    pub created_at: String,
}

/// The data and identity store: five tables and their id counters.
pub struct Database {
    pub users: Vec<UserRow>,
    pub contacts: Vec<Contact>,
    pub chats: Vec<Chat>,
    pub messages: Vec<Message>,
    pub products: Vec<Product>,
    pub next_user_id: i64,
    pub next_contact_id: i64,
    pub next_chat_id: i64,
    pub next_message_id: i64,
    pub next_product_id: i64,
}

// ──────────────────────────────────────────────
// Spec vocabulary
// ──────────────────────────────────────────────

/// Some row carries this username.
pub open spec fn username_taken(users: Seq<UserRow>, name: Seq<char>) -> bool {
    exists|i: int| 0 <= i < users.len() && (#[trigger] users[i]).username@ == name
}

/// Some row carries this public id.
pub open spec fn uid_taken(users: Seq<UserRow>, uid: Seq<char>) -> bool {
    exists|i: int| 0 <= i < users.len() && (#[trigger] users[i]).uid@ == uid
}

/// The index of the row carrying this username; meaningful only under
/// `username_taken`, and unique under `wf`.
pub open spec fn username_index(users: Seq<UserRow>, name: Seq<char>) -> int {
    choose|i: int| 0 <= i < users.len() && (#[trigger] users[i]).username@ == name
}

/// The index of the row carrying this public id; meaningful only under
/// `uid_taken`, and unique under `wf`.
pub open spec fn uid_index(users: Seq<UserRow>, uid: Seq<char>) -> int {
    choose|i: int| 0 <= i < users.len() && (#[trigger] users[i]).uid@ == uid
}

/// No two rows share a username.
pub open spec fn usernames_unique(users: Seq<UserRow>) -> bool {
    forall|i: int, j: int|
        0 <= i < j < users.len() ==> (#[trigger] users[i]).username@ != (
        #[trigger] users[j]).username@
}

/// No two rows share a public id.
pub open spec fn uids_unique(users: Seq<UserRow>) -> bool {
    forall|i: int, j: int|
        0 <= i < j < users.len() ==> (#[trigger] users[i]).uid@ != (#[trigger] users[j]).uid@
}

/// Under unique usernames, a row carrying the name pins `username_index`.
pub proof fn lemma_username_index(users: Seq<UserRow>, name: Seq<char>, i: int)
    requires
        usernames_unique(users),
        0 <= i < users.len(),
        users[i].username@ == name,
    ensures
        username_taken(users, name),
        username_index(users, name) == i,
{
    assert(username_taken(users, name));
    let j = username_index(users, name);
    if j < i {
        assert(users[j].username@ != users[i].username@);
    } else if j > i {
        assert(users[i].username@ != users[j].username@);
    }
}

/// Under unique public ids, a row carrying the id pins `uid_index`.
pub proof fn lemma_uid_index(users: Seq<UserRow>, uid: Seq<char>, i: int)
    requires
        uids_unique(users),
        0 <= i < users.len(),
        users[i].uid@ == uid,
    ensures
        uid_taken(users, uid),
        uid_index(users, uid) == i,
{
    assert(uid_taken(users, uid));
    let j = uid_index(users, uid);
    if j < i {
        assert(users[j].uid@ != users[i].uid@);
    } else if j > i {
        assert(users[i].uid@ != users[j].uid@);
    }
}

/// The public projection of a user row: everything but the credential hash
/// and the preference fields.
pub open spec fn user_matches_row(u: User, row: UserRow) -> bool {
    &&& u.id == row.id
    &&& u.uid@ == row.uid@
    &&& u.username@ == row.username@
    &&& u.display_name@ == row.display_name@
    &&& u.avatar_color == row.avatar_color
    &&& u.created_at@ == row.created_at@
}

/// No two edges share an (owner, contact) pair.
pub open spec fn pairs_unique(contacts: Seq<Contact>) -> bool {
    forall|i: int, j: int|
        0 <= i < j < contacts.len() ==> !((#[trigger] contacts[i]).owner_uid@ == (
        #[trigger] contacts[j]).owner_uid@ && contacts[i].contact_uid@ == contacts[j].contact_uid@)
}

/// Under unique pairs, an edge carrying the pair pins `pair_index`.
pub proof fn lemma_pair_index(contacts: Seq<Contact>, owner: Seq<char>, contact: Seq<char>, i: int)
    requires
        pairs_unique(contacts),
        0 <= i < contacts.len(),
        contacts[i].owner_uid@ == owner,
        contacts[i].contact_uid@ == contact,
    ensures
        pair_present(contacts, owner, contact),
        pair_index(contacts, owner, contact) == i,
{
    assert(pair_present(contacts, owner, contact));
    let j = pair_index(contacts, owner, contact);
    if j < i {
        assert(!(contacts[j].owner_uid@ == contacts[i].owner_uid@ && contacts[j].contact_uid@
            == contacts[i].contact_uid@));
    } else if j > i {
        assert(!(contacts[i].owner_uid@ == contacts[j].owner_uid@ && contacts[i].contact_uid@
            == contacts[j].contact_uid@));
    }
}

/// Some edge of this owner points at this contact.
pub open spec fn pair_present(contacts: Seq<Contact>, owner: Seq<char>, contact: Seq<char>) -> bool {
    exists|i: int|
        0 <= i < contacts.len() && (#[trigger] contacts[i]).owner_uid@ == owner
            && contacts[i].contact_uid@ == contact
}

/// The index of the edge from this owner to this contact; meaningful only
/// under `pair_present`, and unique under `wf`.
pub open spec fn pair_index(contacts: Seq<Contact>, owner: Seq<char>, contact: Seq<char>) -> int {
    choose|i: int|
        0 <= i < contacts.len() && (#[trigger] contacts[i]).owner_uid@ == owner
            && contacts[i].contact_uid@ == contact
}

/// The canonically smaller member of an unordered pair of public ids.
pub open spec fn canon_low(a: Seq<char>, b: Seq<char>) -> Seq<char> {
    if lex_le(a, b) {
        a
    } else {
        b
    }
}

/// The canonically larger member of an unordered pair of public ids.
pub open spec fn canon_high(a: Seq<char>, b: Seq<char>) -> Seq<char> {
    if lex_le(a, b) {
        b
    } else {
        a
    }
}

/// Some chat carries this canonical participant pair.
pub open spec fn chat_present(chats: Seq<Chat>, low: Seq<char>, high: Seq<char>) -> bool {
    exists|i: int|
        0 <= i < chats.len() && (#[trigger] chats[i]).participant_a@ == low
            && chats[i].participant_b@ == high
}

/// The index of the chat carrying this canonical pair; meaningful only
/// under `chat_present`, and unique under `wf`.
pub open spec fn chat_pair_index(chats: Seq<Chat>, low: Seq<char>, high: Seq<char>) -> int {
    choose|i: int|
        0 <= i < chats.len() && (#[trigger] chats[i]).participant_a@ == low
            && chats[i].participant_b@ == high
}

/// Some chat carries this id.
pub open spec fn chat_id_present(chats: Seq<Chat>, id: i64) -> bool {
    exists|i: int| 0 <= i < chats.len() && (#[trigger] chats[i]).id == id
}

/// The index of the chat with this id; meaningful only under
/// `chat_id_present`, and unique under `wf`.
pub open spec fn chat_id_index(chats: Seq<Chat>, id: i64) -> int {
    choose|i: int| 0 <= i < chats.len() && (#[trigger] chats[i]).id == id
}

/// No two chats share a canonical participant pair.
pub open spec fn chat_pairs_unique(chats: Seq<Chat>) -> bool {
    forall|i: int, j: int|
        0 <= i < j < chats.len() ==> !((#[trigger] chats[i]).participant_a@ == (
        #[trigger] chats[j]).participant_a@ && chats[i].participant_b@ == chats[j].participant_b@)
}

/// No two chats share an id.
pub open spec fn chat_ids_unique(chats: Seq<Chat>) -> bool {
    forall|i: int, j: int|
        0 <= i < j < chats.len() ==> (#[trigger] chats[i]).id != (#[trigger] chats[j]).id
}

/// Under unique pairs, a chat carrying the pair pins `chat_pair_index`.
pub proof fn lemma_chat_pair_index(chats: Seq<Chat>, low: Seq<char>, high: Seq<char>, i: int)
    requires
        chat_pairs_unique(chats),
        0 <= i < chats.len(),
        chats[i].participant_a@ == low,
        chats[i].participant_b@ == high,
    ensures
        chat_present(chats, low, high),
        chat_pair_index(chats, low, high) == i,
{
    assert(chat_present(chats, low, high));
    let j = chat_pair_index(chats, low, high);
    if j < i {
        assert(!(chats[j].participant_a@ == chats[i].participant_a@ && chats[j].participant_b@
            == chats[i].participant_b@));
    } else if j > i {
        assert(!(chats[i].participant_a@ == chats[j].participant_a@ && chats[i].participant_b@
            == chats[j].participant_b@));
    }
}

/// Under unique ids, a chat carrying the id pins `chat_id_index`.
pub proof fn lemma_chat_id_index(chats: Seq<Chat>, id: i64, i: int)
    requires
        chat_ids_unique(chats),
        0 <= i < chats.len(),
        chats[i].id == id,
    ensures
        chat_id_present(chats, id),
        chat_id_index(chats, id) == i,
{
    assert(chat_id_present(chats, id));
    let j = chat_id_index(chats, id);
    if j < i {
        assert(chats[j].id != chats[i].id);
    } else if j > i {
        assert(chats[i].id != chats[j].id);
    }
}

/// No two products share an (owner, code) key.
pub open spec fn product_codes_unique(products: Seq<Product>) -> bool {
    forall|i: int, j: int|
        0 <= i < j < products.len() ==> !((#[trigger] products[i]).owner_uid@ == (
        #[trigger] products[j]).owner_uid@ && products[i].code@ == products[j].code@)
}

/// No two products share an id.
pub open spec fn product_ids_unique(products: Seq<Product>) -> bool {
    forall|i: int, j: int|
        0 <= i < j < products.len() ==> (#[trigger] products[i]).id != (#[trigger] products[j]).id
}

/// Under unique ids, a product carrying the id pins `product_id_index`.
pub proof fn lemma_product_id_index(products: Seq<Product>, id: i64, i: int)
    requires
        product_ids_unique(products),
        0 <= i < products.len(),
        products[i].id == id,
    ensures
        product_id_present(products, id),
        product_id_index(products, id) == i,
{
    assert(product_id_present(products, id));
    let j = product_id_index(products, id);
    if j < i {
        assert(products[j].id != products[i].id);
    } else if j > i {
        assert(products[i].id != products[j].id);
    }
}

/// The messages of one chat, in ledger order.
pub open spec fn msgs_of(msgs: Seq<Message>, chat_id: i64) -> Seq<Message> {
    msgs.filter(|m: Message| m.chat_id == chat_id)
}

/// Some product carries this id.
pub open spec fn product_id_present(products: Seq<Product>, id: i64) -> bool {
    exists|i: int| 0 <= i < products.len() && (#[trigger] products[i]).id == id
}

/// The index of the product with this id; meaningful only under
/// `product_id_present`, and unique under `wf`.
pub open spec fn product_id_index(products: Seq<Product>, id: i64) -> int {
    choose|i: int| 0 <= i < products.len() && (#[trigger] products[i]).id == id
}

/// Some product of this owner carries this code, other than the row with
/// the given id (pass an id no row carries to search all rows).
pub open spec fn code_taken_besides(
    products: Seq<Product>,
    owner: Seq<char>,
    code: Seq<char>,
    besides: i64,
) -> bool {
    exists|i: int|
        0 <= i < products.len() && (#[trigger] products[i]).owner_uid@ == owner
            && products[i].code@ == code && products[i].id != besides
}

// ──────────────────────────────────────────────
// Frame helpers
// ──────────────────────────────────────────────

/// Everything outside the user table is equal between the two states.
pub open spec fn same_except_users(a: Database, b: Database) -> bool {
    &&& a.contacts == b.contacts
    &&& a.chats == b.chats
    &&& a.messages == b.messages
    &&& a.products == b.products
    &&& a.next_contact_id == b.next_contact_id
    &&& a.next_chat_id == b.next_chat_id
    &&& a.next_message_id == b.next_message_id
    &&& a.next_product_id == b.next_product_id
}

/// Everything outside the contact table is equal between the two states.
pub open spec fn same_except_contacts(a: Database, b: Database) -> bool {
    &&& a.users == b.users
    &&& a.chats == b.chats
    &&& a.messages == b.messages
    &&& a.products == b.products
    &&& a.next_user_id == b.next_user_id
    &&& a.next_chat_id == b.next_chat_id
    &&& a.next_message_id == b.next_message_id
    &&& a.next_product_id == b.next_product_id
}

/// Everything outside the chat and message tables is equal between the two
/// states.
pub open spec fn same_except_ledger(a: Database, b: Database) -> bool {
    &&& a.users == b.users
    &&& a.contacts == b.contacts
    &&& a.products == b.products
    &&& a.next_user_id == b.next_user_id
    &&& a.next_contact_id == b.next_contact_id
    &&& a.next_product_id == b.next_product_id
}

/// Everything outside the product table is equal between the two states.
pub open spec fn same_except_products(a: Database, b: Database) -> bool {
    &&& a.users == b.users
    &&& a.contacts == b.contacts
    &&& a.chats == b.chats
    &&& a.messages == b.messages
    &&& a.next_user_id == b.next_user_id
    &&& a.next_contact_id == b.next_contact_id
    &&& a.next_chat_id == b.next_chat_id
    &&& a.next_message_id == b.next_message_id
}

// ──────────────────────────────────────────────
// Well-formedness
// ──────────────────────────────────────────────

impl Database {
    /// User table invariant: usernames and public ids are each unique, and
    /// ids are positive and below the counter.
    pub open spec fn users_ok(self) -> bool {
        let users = self.users@;
        &&& usernames_unique(users)
        &&& uids_unique(users)
        &&& forall|i: int| 0 <= i < users.len() ==> 1 <= (#[trigger] users[i]).id < self.next_user_id
        &&& 1 <= self.next_user_id
    }

    /// Contact table invariant: at most one edge per (owner, contact) pair,
    /// no self-edges, ids positive and below the counter.
    pub open spec fn contacts_ok(self) -> bool {
        let contacts = self.contacts@;
        &&& pairs_unique(contacts)
        &&& forall|i: int|
            0 <= i < contacts.len() ==> (#[trigger] contacts[i]).owner_uid@
                != contacts[i].contact_uid@
        &&& forall|i: int|
            0 <= i < contacts.len() ==> 1 <= (#[trigger] contacts[i]).id < self.next_contact_id
        &&& 1 <= self.next_contact_id
    }

    /// Chat table invariant: participant pairs are canonically ordered and
    /// unique, ids are unique, positive and below the counter.
    pub open spec fn chats_ok(self) -> bool {
        let chats = self.chats@;
        &&& forall|i: int|
            0 <= i < chats.len() ==> lex_lt(
                (#[trigger] chats[i]).participant_a@,
                chats[i].participant_b@,
            )
        &&& chat_pairs_unique(chats)
        &&& chat_ids_unique(chats)
        &&& forall|i: int|
            0 <= i < chats.len() ==> 1 <= (#[trigger] chats[i]).id < self.next_chat_id
        &&& 1 <= self.next_chat_id
    }

    /// Message ledger invariant: every message belongs to an existing chat
    /// and was sent by one of its two participants; per chat, timestamps
    /// never decrease in ledger order; ids are unique, positive and below
    /// the counter.
    pub open spec fn messages_ok(self) -> bool {
        let msgs = self.messages@;
        let chats = self.chats@;
        &&& forall|i: int|
            0 <= i < msgs.len() ==> exists|j: int|
                0 <= j < chats.len() && (#[trigger] chats[j]).id == (#[trigger] msgs[i]).chat_id
                    && (msgs[i].sender_uid@ == chats[j].participant_a@ || msgs[i].sender_uid@
                    == chats[j].participant_b@)
        &&& forall|i: int, j: int|
            0 <= i < j < msgs.len() && (#[trigger] msgs[i]).chat_id == (#[trigger] msgs[j]).chat_id
                ==> lex_le(msgs[i].sent_at@, msgs[j].sent_at@)
        &&& forall|i: int, j: int|
            0 <= i < j < msgs.len() ==> (#[trigger] msgs[i]).id != (#[trigger] msgs[j]).id
        &&& forall|i: int| 0 <= i < msgs.len() ==> 1 <= (#[trigger] msgs[i]).id < self.next_message_id
        &&& 1 <= self.next_message_id
    }

    /// Preview invariant: each chat's `last_message` and `last_message_at`
    /// reflect exactly the latest entry of its ledger, and are empty for a
    /// chat with no messages. Every timestamp of the chat's ledger is
    /// bounded by `last_message_at`.
    pub open spec fn previews_ok(self) -> bool {
        forall|j: int|
            0 <= j < self.chats@.len() ==> chat_preview_ok(
                self.messages@,
                #[trigger] self.chats@[j],
            )
    }

    /// Product table invariant: every row is valid, codes are unique per
    /// owner, ids are unique, positive and below the counter.
    pub open spec fn products_ok(self) -> bool {
        let products = self.products@;
        &&& forall|i: int| 0 <= i < products.len() ==> (#[trigger] products[i]).valid()
        &&& product_codes_unique(products)
        &&& product_ids_unique(products)
        &&& forall|i: int|
            0 <= i < products.len() ==> 1 <= (#[trigger] products[i]).id < self.next_product_id
        &&& 1 <= self.next_product_id
    }

    /// The store invariant; every operation requires and preserves it.
    pub open spec fn wf(self) -> bool {
        &&& self.users_ok()
        &&& self.contacts_ok()
        &&& self.chats_ok()
        &&& self.messages_ok()
        &&& self.previews_ok()
        &&& self.products_ok()
    }

    /// Opens an empty store.
    pub fn new() -> (r: Database)
        ensures
            r.wf(),
            r.users@.len() == 0,
            r.contacts@.len() == 0,
            r.chats@.len() == 0,
            r.messages@.len() == 0,
            r.products@.len() == 0,
    {
        Database {
            users: Vec::new(),
            contacts: Vec::new(),
            chats: Vec::new(),
            messages: Vec::new(),
            products: Vec::new(),
            next_user_id: 1,
            next_contact_id: 1,
            next_chat_id: 1,
            next_message_id: 1,
            next_product_id: 1,
        }
    }
}

/// The preview fields of one chat agree with its ledger.
pub open spec fn chat_preview_ok(msgs: Seq<Message>, c: Chat) -> bool {
    let ms = msgs_of(msgs, c.id);
    &&& (ms.len() == 0 ==> c.last_message is None && c.last_message_at is None)
    &&& (ms.len() > 0 ==> {
        &&& c.last_message_at matches Some(t) && t@ == ms.last().sent_at@
        &&& c.last_message matches Some(p) && p@ == preview_view(
            ms.last().content@,
            ms.last().msg_type,
        )
    })
    &&& forall|i: int|
        0 <= i < msgs.len() && (#[trigger] msgs[i]).chat_id == c.id ==> c.last_message_at is Some
            && lex_le(msgs[i].sent_at@, c.last_message_at->0@)
}

// ──────────────────────────────────────────────
// Ledger projection lemmas
// ──────────────────────────────────────────────

/// Appending a message extends exactly the ledger of its own chat.
pub proof fn lemma_msgs_of_push(msgs: Seq<Message>, m: Message, chat_id: i64)
    ensures
        msgs_of(msgs.push(m), chat_id) == if m.chat_id == chat_id {
            msgs_of(msgs, chat_id).push(m)
        } else {
            msgs_of(msgs, chat_id)
        },
{
    reveal(Seq::filter);
    assert(msgs.push(m).drop_last() =~= msgs);
}

/// A ledger none of whose messages belong to the chat is empty.
pub proof fn lemma_msgs_of_none(msgs: Seq<Message>, chat_id: i64)
    requires
        forall|i: int| 0 <= i < msgs.len() ==> (#[trigger] msgs[i]).chat_id != chat_id,
    ensures
        msgs_of(msgs, chat_id) =~= Seq::<Message>::empty(),
    decreases msgs.len(),
{
    reveal(Seq::filter);
    if msgs.len() > 0 {
        assert(msgs.drop_last() =~= msgs.take(msgs.len() - 1));
        lemma_msgs_of_none(msgs.drop_last(), chat_id);
    }
}

} // verus!
