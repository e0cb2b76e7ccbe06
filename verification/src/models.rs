//! The record types of the store and their small derived operations.
//!
//! Monetary values and quantities are fixed-point integers with two decimal
//! places (a stored value of 150 means 1.50), so that derived fields and
//! aggregate sums are exact and free of rounding. Enumerations that the
//! storage boundary keeps as strings (`ContactType`, `MessageType`,
//! `AppTheme`) are closed variants here, with a verified two-way mapping to
//! their storage tokens.

use vstd::prelude::*;

use crate::text::lex_le;

verus! {

/// Fixed-point scale for quantities and monetary values: two decimal places.
pub const FIXED_SCALE: i64 = 100;

/// Largest fixed-point quantity a product may carry (10 million units).
pub const MAX_QUANTITY: i64 = 1_000_000_000;

/// Largest fixed-point monetary value a product may carry (10 million).
pub const MAX_MONEY: i64 = 1_000_000_000;

/// Longest text message body, in characters.
pub const MAX_TEXT_LEN: usize = 1000;

/// Largest accepted attachment size, in bytes (100 MiB).
pub const MAX_FILE_SIZE: u64 = 100 * 1024 * 1024;

/// Number of characters of a text message kept in a thread preview.
pub const PREVIEW_LEN: usize = 50;

/// Packed RGBA brand blue, the avatar color every new user starts with.
pub const DEFAULT_AVATAR_COLOR: u32 = 0xFF_4A_90_E2;

/// Default font size, in tenths of a point (14.0 pt).
pub const DEFAULT_FONT_SIZE: u32 = 140;

// ──────────────────────────────────────────────
// Users
// ──────────────────────────────────────────────

/// A user as handed to callers: identity and profile, never the password
/// hash.
#[derive(Debug)]
pub struct User {
    pub id: i64,
    /// Public identifier, `NIM-` followed by six uppercase hex characters.
    pub uid: String,
    pub username: String,
    pub display_name: String,
    /// Packed RGBA avatar placeholder color.
    pub avatar_color: u32,
    pub created_at: String,
}

impl User {
    /// Builds a fresh local user value: a sampled public id, the current
    /// time, the default avatar color, and no surrogate key yet. The store
    /// assigns ids and enforces uniqueness when the user is registered.
    pub fn new(username: String, display_name: String) -> (r: User)
        ensures
            r.id == 0,
            crate::ident::is_public_id(r.uid@),
            r.username == username,
            r.display_name == display_name,
            r.avatar_color == DEFAULT_AVATAR_COLOR,
    {
        let suffix = crate::ident::random_id_suffix();
        let mut uid = String::new();
        uid.append("NIM-");
        uid.append(suffix.as_str());
        proof {
            reveal_strlit("NIM-");
            assert(uid@ =~= "NIM-"@ + suffix@);
            assert(uid@.subrange(0, 4) =~= "NIM-"@);
            assert forall|i: int| 4 <= i < 10 implies crate::ident::is_upper_hex(
                #[trigger] uid@[i],
            ) by {
                assert(uid@[i] == suffix@[i - 4]);
            }
        }
        User {
            id: 0,
            uid,
            username,
            display_name,
            avatar_color: DEFAULT_AVATAR_COLOR,
            created_at: crate::clock::now_rfc3339(),
        }
    }
}

impl Clone for User {
    fn clone(&self) -> (res: Self)
        ensures
            res == *self,
    {
        User {
            id: self.id,
            uid: self.uid.clone(),
            username: self.username.clone(),
            display_name: self.display_name.clone(),
            avatar_color: self.avatar_color,
            created_at: self.created_at.clone(),
        }
    }
}

// ──────────────────────────────────────────────
// Contacts
// ──────────────────────────────────────────────

/// The two classes of contact edge.
#[derive(Clone, Copy, Debug, PartialEq, Eq, Structural)]
pub enum ContactType {
    Friend,
    Acquaintance,
}

impl ContactType {
    /// The token this variant is stored under.
    pub open spec fn token_view(self) -> Seq<char> {
        match self {
            ContactType::Friend => "friend"@,
            ContactType::Acquaintance => "acquaintance"@,
        }
    }

    /// Returns the storage token of this variant.
    pub fn token(&self) -> (r: &'static str)
        ensures
            r@ == self.token_view(),
    {
        match self {
            ContactType::Friend => "friend",
            ContactType::Acquaintance => "acquaintance",
        }
    }

    /// Maps a storage token back to its variant; an unknown token is
    /// reported, not defaulted.
    pub fn from_token(s: &str) -> (r: Option<ContactType>)
        ensures
            r == (if s@ == "friend"@ {
                Some(ContactType::Friend)
            } else if s@ == "acquaintance"@ {
                Some(ContactType::Acquaintance)
            } else {
                None::<ContactType>
            }),
    {
        if crate::text::str_eq(s, "friend") {
            Some(ContactType::Friend)
        } else if crate::text::str_eq(s, "acquaintance") {
            Some(ContactType::Acquaintance)
        } else {
            None
        }
    }
}

/// A directed contact edge owned by one user, with the counterpart's display
/// data snapshotted at add-time (deliberately not live-synced).
#[derive(Debug)]
pub struct Contact {
    pub id: i64,
    /// Public id of the owning user.
    pub owner_uid: String,
    /// Public id of the contact.
    pub contact_uid: String,
    /// Display name of the contact as it was when the edge was added.
    pub display_name: String,
    /// Avatar color of the contact as it was when the edge was added.
    pub avatar_color: u32,
    pub contact_type: ContactType,
    /// Starred contacts sort before all others.
    pub starred: bool,
    pub added_at: String,
}

impl Clone for Contact {
    fn clone(&self) -> (res: Self)
        ensures
            res == *self,
    {
        Contact {
            id: self.id,
            owner_uid: self.owner_uid.clone(),
            contact_uid: self.contact_uid.clone(),
            display_name: self.display_name.clone(),
            avatar_color: self.avatar_color,
            contact_type: self.contact_type,
            starred: self.starred,
            added_at: self.added_at.clone(),
        }
    }
}

/// Display order of a contact listing: starred before unstarred, then
/// display name ascending by Unicode scalar value.
pub open spec fn contact_le(a: Contact, b: Contact) -> bool {
    if a.starred != b.starred {
        a.starred
    } else {
        lex_le(a.display_name@, b.display_name@)
    }
}

// ──────────────────────────────────────────────
// Messages
// ──────────────────────────────────────────────

/// The kind of content a message carries.
#[derive(Clone, Copy, Debug, PartialEq, Eq, Structural)]
pub enum MessageType {
    Text,
    Image,
    Video,
    Document,
    Archive,
}

impl MessageType {
    /// The token this variant is stored under.
    pub open spec fn token_view(self) -> Seq<char> {
        match self {
            MessageType::Text => "text"@,
            MessageType::Image => "image"@,
            MessageType::Video => "video"@,
            MessageType::Document => "document"@,
            MessageType::Archive => "archive"@,
        }
    }

    /// Returns the storage token of this variant.
    pub fn token(&self) -> (r: &'static str)
        ensures
            r@ == self.token_view(),
    {
        match self {
            MessageType::Text => "text",
            MessageType::Image => "image",
            MessageType::Video => "video",
            MessageType::Document => "document",
            MessageType::Archive => "archive",
        }
    }

    /// The variant a stored token maps to; any unrecognized token falls back
    /// to `Text`, which keeps old stored rows readable.
    pub open spec fn of_token(s: Seq<char>) -> MessageType {
        if s == "image"@ {
            MessageType::Image
        } else if s == "video"@ {
            MessageType::Video
        } else if s == "document"@ {
            MessageType::Document
        } else if s == "archive"@ {
            MessageType::Archive
        } else {
            MessageType::Text
        }
    }

    /// Maps a storage token to its variant, falling back to `Text` for
    /// anything unrecognized.
    pub fn from_str(s: &str) -> (r: Self)
        ensures
            r == MessageType::of_token(s@),
    {
        if crate::text::str_eq(s, "image") {
            MessageType::Image
        } else if crate::text::str_eq(s, "video") {
            MessageType::Video
        } else if crate::text::str_eq(s, "document") {
            MessageType::Document
        } else if crate::text::str_eq(s, "archive") {
            MessageType::Archive
        } else {
            MessageType::Text
        }
    }

    /// The emoji shown for this kind of message.
    pub open spec fn icon_view(self) -> Seq<char> {
        match self {
            MessageType::Text => "💬"@,
            MessageType::Image => "🖼"@,
            MessageType::Video => "🎬"@,
            MessageType::Document => "📄"@,
            MessageType::Archive => "📦"@,
        }
    }

    /// Returns the emoji icon for display.
    pub fn icon(&self) -> (r: &'static str)
        ensures
            r@ == self.icon_view(),
    {
        match self {
            MessageType::Text => "💬",
            MessageType::Image => "🖼",
            MessageType::Video => "🎬",
            MessageType::Document => "📄",
            MessageType::Archive => "📦",
        }
    }
}

/// The thread preview of a message: the first `PREVIEW_LEN` characters of
/// the body for text, or the bracketed type token for anything else.
pub open spec fn preview_view(content: Seq<char>, t: MessageType) -> Seq<char> {
    if t == MessageType::Text {
        crate::text::prefix_of(content, PREVIEW_LEN as int)
    } else {
        "["@ + t.token_view() + "]"@
    }
}

/// Builds the thread preview of a message.
pub fn build_preview(content: &str, t: MessageType) -> (r: String)
    ensures
        r@ == preview_view(content@, t),
{
    match t {
        MessageType::Text => crate::text::str_prefix(content, PREVIEW_LEN),
        _ => {
            let mut s = String::new();
            s.append("[");
            s.append(t.token());
            s.append("]");
            proof {
                assert(s@ =~= "["@ + t.token_view() + "]"@);
            }
            s
        },
    }
}

/// One entry of the append-only message ledger.
#[derive(Debug)]
pub struct Message {
    pub id: i64,
    /// The chat this message belongs to.
    pub chat_id: i64,
    /// Public id of the sender, one of the chat's two participants.
    pub sender_uid: String,
    /// Text body, or a file path for non-text messages.
    pub content: String,
    pub msg_type: MessageType,
    pub file_name: Option<String>,
    /// Attachment size in bytes.
    pub file_size: Option<u64>,
    pub sent_at: String,
    pub is_read: bool,
}

impl Clone for Message {
    fn clone(&self) -> (res: Self)
        ensures
            res == *self,
    {
        Message {
            id: self.id,
            chat_id: self.chat_id,
            sender_uid: self.sender_uid.clone(),
            content: self.content.clone(),
            msg_type: self.msg_type,
            file_name: match &self.file_name {
                Some(n) => Some(n.clone()),
                None => None,
            },
            file_size: self.file_size,
            sent_at: self.sent_at.clone(),
            is_read: self.is_read,
        }
    }
}

impl Message {
    /// Accepts attachment sizes up to `MAX_FILE_SIZE` bytes.
    pub fn is_valid_file_size(size: u64) -> (r: bool)
        ensures
            r == (size <= MAX_FILE_SIZE),
    {
        size <= MAX_FILE_SIZE
    }

    /// Accepts the attachment extensions the application knows how to show,
    /// compared ASCII case-insensitively.
    pub fn is_valid_file_type(extension: &str) -> (r: bool)
        ensures
            r == Message::valid_file_type(extension@),
    {
        let e = extension;
        eq_ic(e, "jpg") || eq_ic(e, "jpeg") || eq_ic(e, "png") || eq_ic(e, "gif") || eq_ic(
            e,
            "webp",
        ) || eq_ic(e, "bmp") || eq_ic(e, "mp4") || eq_ic(e, "mkv") || eq_ic(e, "avi") || eq_ic(
            e,
            "mov",
        ) || eq_ic(e, "webm") || eq_ic(e, "pdf") || eq_ic(e, "doc") || eq_ic(e, "docx") || eq_ic(
            e,
            "xls",
        ) || eq_ic(e, "xlsx") || eq_ic(e, "ppt") || eq_ic(e, "pptx") || eq_ic(e, "txt") || eq_ic(
            e,
            "csv",
        ) || eq_ic(e, "rar") || eq_ic(e, "zip") || eq_ic(e, "7z")
    }

    /// The accepted extensions: images, videos, documents and archives.
    pub open spec fn valid_file_type(s: Seq<char>) -> bool {
        ||| same_ic(s, "jpg"@)
        ||| same_ic(s, "jpeg"@)
        ||| same_ic(s, "png"@)
        ||| same_ic(s, "gif"@)
        ||| same_ic(s, "webp"@)
        ||| same_ic(s, "bmp"@)
        ||| same_ic(s, "mp4"@)
        ||| same_ic(s, "mkv"@)
        ||| same_ic(s, "avi"@)
        ||| same_ic(s, "mov"@)
        ||| same_ic(s, "webm"@)
        ||| same_ic(s, "pdf"@)
        ||| same_ic(s, "doc"@)
        ||| same_ic(s, "docx"@)
        ||| same_ic(s, "xls"@)
        ||| same_ic(s, "xlsx"@)
        ||| same_ic(s, "ppt"@)
        ||| same_ic(s, "pptx"@)
        ||| same_ic(s, "txt"@)
        ||| same_ic(s, "csv"@)
        ||| same_ic(s, "rar"@)
        ||| same_ic(s, "zip"@)
        ||| same_ic(s, "7z"@)
    }
}

/// ASCII lowercase folding of one character; anything outside `A`..`Z` is
/// unchanged.
pub open spec fn ascii_lower(c: char) -> char {
    if 65 <= c as u32 <= 90 {
        ((c as u32 + 32) as u8) as char
    } else {
        c
    }
}

/// A sequence folded to ASCII lowercase, character by character.
pub open spec fn lower_seq(s: Seq<char>) -> Seq<char> {
    s.map_values(|c: char| ascii_lower(c))
}

/// Two sequences are the same ASCII-case-insensitively.
pub open spec fn same_ic(a: Seq<char>, b: Seq<char>) -> bool {
    lower_seq(a) == lower_seq(b)
}

/// Folds one character to ASCII lowercase.
fn ascii_lower_char(c: char) -> (r: char)
    ensures
        r == ascii_lower(c),
{
    let u = c as u32;
    if 65 <= u && u <= 90 {
        ((u + 32) as u8) as char
    } else {
        c
    }
}

/// Decides `same_ic` on two string slices.
fn eq_ic(a: &str, b: &str) -> (r: bool)
    ensures
        r == same_ic(a@, b@),
{
    let alen = a.unicode_len();
    let blen = b.unicode_len();
    if alen != blen {
        proof {
            assert(lower_seq(a@).len() == a@.len());
            assert(lower_seq(b@).len() == b@.len());
        }
        return false;
    }
    let mut i: usize = 0;
    while i < alen
        invariant
            i <= alen,
            alen == a@.len(),
            alen == b@.len(),
            forall|k: int| 0 <= k < i ==> ascii_lower(a@[k]) == ascii_lower(b@[k]),
        decreases alen - i,
    {
        let ca = ascii_lower_char(a.get_char(i));
        let cb = ascii_lower_char(b.get_char(i));
        if ca != cb {
            proof {
                assert(lower_seq(a@)[i as int] == ascii_lower(a@[i as int]));
                assert(lower_seq(b@)[i as int] == ascii_lower(b@[i as int]));
            }
            return false;
        }
        i += 1;
    }
    proof {
        assert forall|k: int| 0 <= k < a@.len() implies lower_seq(a@)[k] == lower_seq(b@)[k] by {
            assert(lower_seq(a@)[k] == ascii_lower(a@[k]));
            assert(lower_seq(b@)[k] == ascii_lower(b@[k]));
        }
        assert(lower_seq(a@) =~= lower_seq(b@));
    }
    true
}

// ──────────────────────────────────────────────
// Chats
// ──────────────────────────────────────────────

/// One conversation between two distinct users, keyed by the unordered pair
/// of their public ids stored in canonical order.
#[derive(Debug)]
pub struct Chat {
    pub id: i64,
    /// The lexicographically smaller participant public id.
    pub participant_a: String,
    /// The lexicographically larger participant public id.
    pub participant_b: String,
    pub created_at: String,
    /// Preview of the latest message, kept in sync with the ledger.
    pub last_message: Option<String>,
    /// Timestamp of the latest message, kept in sync with the ledger.
    pub last_message_at: Option<String>,
    /// Reserved; no operation of this store increments or resets it.
    pub unread_count: u32,
}

impl Clone for Chat {
    fn clone(&self) -> (res: Self)
        ensures
            res == *self,
    {
        Chat {
            id: self.id,
            participant_a: self.participant_a.clone(),
            participant_b: self.participant_b.clone(),
            created_at: self.created_at.clone(),
            last_message: match &self.last_message {
                Some(m) => Some(m.clone()),
                None => None,
            },
            last_message_at: match &self.last_message_at {
                Some(t) => Some(t.clone()),
                None => None,
            },
            unread_count: self.unread_count,
        }
    }
}

// ──────────────────────────────────────────────
// Products
// ──────────────────────────────────────────────

/// One inventory record. `quantity`, `net_value`, `sale_value` and
/// `profit_value` are fixed-point with two decimal places.
#[derive(Debug)]
pub struct Product {
    pub id: i64,
    /// Public id of the owning user.
    pub owner_uid: String,
    /// Product code, unique per owner.
    pub code: String,
    pub name: String,
    /// Stock on hand; below 1.00 units counts as out of stock.
    pub quantity: i64,
    /// Cost per unit.
    pub net_value: i64,
    /// Sale price per unit.
    pub sale_value: i64,
    /// Derived: always `sale_value - net_value`, recomputed on every write.
    pub profit_value: i64,
    pub created_at: String,
    pub updated_at: String,
}

impl Clone for Product {
    fn clone(&self) -> (res: Self)
        ensures
            res == *self,
    {
        Product {
            id: self.id,
            owner_uid: self.owner_uid.clone(),
            code: self.code.clone(),
            name: self.name.clone(),
            quantity: self.quantity,
            net_value: self.net_value,
            sale_value: self.sale_value,
            profit_value: self.profit_value,
            created_at: self.created_at.clone(),
            updated_at: self.updated_at.clone(),
        }
    }
}

impl Product {
    /// A product the store accepts: all fixed-point fields in range and the
    /// profit field consistent with its definition.
    pub open spec fn valid(self) -> bool {
        &&& 0 <= self.quantity <= MAX_QUANTITY
        &&& 0 <= self.net_value <= MAX_MONEY
        &&& 0 <= self.sale_value <= MAX_MONEY
        &&& self.profit_value == self.sale_value - self.net_value
    }

    /// Recomputes the derived profit field from the price fields.
    pub fn calculate_profit(&mut self)
        requires
            0 <= old(self).net_value,
            0 <= old(self).sale_value,
        ensures
            final(self).profit_value == old(self).sale_value - old(self).net_value,
            *final(self) == (Product { profit_value: final(self).profit_value, ..*old(self) }),
    {
        self.profit_value = self.sale_value - self.net_value;
    }

    /// Total cost of the stock on hand, in squared fixed-point scale.
    pub fn total_net(&self) -> (r: i128)
        requires
            self.valid(),
        ensures
            r == self.quantity * self.net_value,
    {
        proof {
            lemma_fixed_product_bounded(self.quantity as int, self.net_value as int);
        }
        (self.quantity as i128) * (self.net_value as i128)
    }

    /// Total profit over the stock on hand, in squared fixed-point scale.
    pub fn total_profit(&self) -> (r: i128)
        requires
            self.valid(),
        ensures
            r == self.quantity * self.profit_value,
    {
        proof {
            lemma_fixed_product_bounded(self.quantity as int, self.profit_value as int);
        }
        (self.quantity as i128) * (self.profit_value as i128)
    }

    /// A product with less than 1.00 units on hand is out of stock.
    pub fn is_out_of_stock(&self) -> (r: bool)
        ensures
            r == (self.quantity < FIXED_SCALE),
    {
        self.quantity < FIXED_SCALE
    }
}

/// The product of two in-range fixed-point values stays well inside `i128`.
pub proof fn lemma_fixed_product_bounded(q: int, v: int)
    requires
        -MAX_QUANTITY <= q <= MAX_QUANTITY,
        -MAX_MONEY <= v <= MAX_MONEY,
    ensures
        -1_000_000_000_000_000_000 <= q * v <= 1_000_000_000_000_000_000,
{
    assert(-1_000_000_000_000_000_000 <= q * v <= 1_000_000_000_000_000_000) by (nonlinear_arith)
        requires
            -1_000_000_000 <= q <= 1_000_000_000,
            -1_000_000_000 <= v <= 1_000_000_000,
    ;
}

// ──────────────────────────────────────────────
// Settings and summaries
// ──────────────────────────────────────────────

/// The two display themes.
#[derive(Clone, Copy, Debug, PartialEq, Eq, Structural)]
pub enum AppTheme {
    Light,
    Dark,
}

impl AppTheme {
    /// The token this variant is stored under.
    pub open spec fn token_view(self) -> Seq<char> {
        match self {
            AppTheme::Dark => "dark"@,
            AppTheme::Light => "light"@,
        }
    }

    /// Returns the storage token of this variant.
    pub fn token(&self) -> (r: &'static str)
        ensures
            r@ == self.token_view(),
    {
        match self {
            AppTheme::Dark => "dark",
            AppTheme::Light => "light",
        }
    }

    /// Maps a storage token back to its variant; an unknown token is
    /// reported, not defaulted.
    pub fn from_token(s: &str) -> (r: Option<AppTheme>)
        ensures
            r == (if s@ == "dark"@ {
                Some(AppTheme::Dark)
            } else if s@ == "light"@ {
                Some(AppTheme::Light)
            } else {
                None::<AppTheme>
            }),
    {
        if crate::text::str_eq(s, "dark") {
            Some(AppTheme::Dark)
        } else if crate::text::str_eq(s, "light") {
            Some(AppTheme::Light)
        } else {
            None
        }
    }
}

impl Default for AppTheme {
    /// New users start on the dark theme.
    fn default() -> (r: Self)
        ensures
            r == AppTheme::Dark,
    {
        AppTheme::Dark
    }
}

/// Per-user preference fields. `font_size` is in tenths of a point.
#[derive(Clone, Copy, Debug, PartialEq, Eq, Structural)]
pub struct AppSettings {
    pub theme: AppTheme,
    pub notifications_enabled: bool,
    /// Font size in tenths of a point (140 means 14.0 pt).
    pub font_size: u32,
}

impl Default for AppSettings {
    /// Dark theme, notifications on, 14.0 pt.
    fn default() -> (r: Self)
        ensures
            r == (AppSettings {
                theme: AppTheme::Dark,
                notifications_enabled: true,
                font_size: DEFAULT_FONT_SIZE,
            }),
    {
        AppSettings { theme: AppTheme::Dark, notifications_enabled: true, font_size: DEFAULT_FONT_SIZE }
    }
}

/// Computed projection over one owner's products; never persisted. The two
/// totals are in squared fixed-point scale (a value of 150000 means 15.00,
/// since both factors carry two decimal places).
#[derive(Clone, Copy, Debug, PartialEq, Eq, Structural)]
pub struct InventorySummary {
    pub total_products: u64,
    /// Sum of quantity times net value over all products.
    pub total_net_value: i128,
    /// Sum of quantity times profit value over all products.
    pub total_profit_value: i128,
    /// Number of products with less than 1.00 units on hand.
    pub out_of_stock_count: u64,
}

impl Default for InventorySummary {
    /// The summary of an empty inventory.
    fn default() -> (r: Self)
        ensures
            r == (InventorySummary {
                total_products: 0,
                total_net_value: 0,
                total_profit_value: 0,
                out_of_stock_count: 0,
            }),
    {
        InventorySummary {
            total_products: 0,
            total_net_value: 0,
            total_profit_value: 0,
            out_of_stock_count: 0,
        }
    }
}

} // verus!
