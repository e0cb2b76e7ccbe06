//! A runtime audit of the store invariant. A caller that obtains a store
//! from outside — rows read back from disk, say — cannot assume `wf`;
//! `check_wf` decides it, so corrupt data is turned away at the boundary
//! instead of silently defaulted.

use vstd::prelude::*;

use crate::models::build_preview;
use crate::store::{msgs_of, lemma_msgs_of_push, Database};
use crate::text::{lemma_lex_le_total, lex_le, str_eq, str_le, str_lt};

verus! {

impl Database {
    /// Decides the user table invariant.
    fn users_ok_exec(&self) -> (r: bool)
        ensures
            r == self.users_ok(),
    {
        if self.next_user_id < 1 {
            return false;
        }
        let n = self.users.len();
        let mut i: usize = 0;
        while i < n
            invariant
                i <= n,
                n == self.users@.len(),
                1 <= self.next_user_id,
                forall|a: int, b: int|
                    0 <= a < b < n && a < i ==> (#[trigger] self.users@[a]).username@ != (
                    #[trigger] self.users@[b]).username@ && self.users@[a].uid@
                        != self.users@[b].uid@,
                forall|a: int|
                    0 <= a < i ==> 1 <= (#[trigger] self.users@[a]).id < self.next_user_id,
            decreases n - i,
        {
            if !(self.users[i].id >= 1 && self.users[i].id < self.next_user_id) {
                return false;
            }
            let mut j: usize = i + 1;
            while j < n
                invariant
                    i < j <= n,
                    n == self.users@.len(),
                    forall|b: int|
                        i < b < j ==> (#[trigger] self.users@[b]).username@
                            != self.users@[i as int].username@ && self.users@[b].uid@
                            != self.users@[i as int].uid@,
                decreases n - j,
            {
                if str_eq(self.users[i].username.as_str(), self.users[j].username.as_str()) {
                    return false;
                }
                if str_eq(self.users[i].uid.as_str(), self.users[j].uid.as_str()) {
                    return false;
                }
                j += 1;
            }
            i += 1;
        }
        true
    }

    /// Decides the contact table invariant.
    fn contacts_ok_exec(&self) -> (r: bool)
        ensures
            r == self.contacts_ok(),
    {
        if self.next_contact_id < 1 {
            return false;
        }
        let n = self.contacts.len();
        let mut i: usize = 0;
        while i < n
            invariant
                i <= n,
                n == self.contacts@.len(),
                1 <= self.next_contact_id,
                forall|a: int, b: int|
                    0 <= a < b < n && a < i ==> !((#[trigger] self.contacts@[a]).owner_uid@ == (
                    #[trigger] self.contacts@[b]).owner_uid@ && self.contacts@[a].contact_uid@
                        == self.contacts@[b].contact_uid@),
                forall|a: int|
                    0 <= a < i ==> (#[trigger] self.contacts@[a]).owner_uid@
                        != self.contacts@[a].contact_uid@ && 1 <= self.contacts@[a].id
                        < self.next_contact_id,
            decreases n - i,
        {
            let c = &self.contacts[i];
            if !(c.id >= 1 && c.id < self.next_contact_id) {
                return false;
            }
            if str_eq(c.owner_uid.as_str(), c.contact_uid.as_str()) {
                return false;
            }
            let mut j: usize = i + 1;
            while j < n
                invariant
                    i < j <= n,
                    n == self.contacts@.len(),
                    forall|b: int|
                        i < b < j ==> !((#[trigger] self.contacts@[b]).owner_uid@
                            == self.contacts@[i as int].owner_uid@ && self.contacts@[b].contact_uid@
                            == self.contacts@[i as int].contact_uid@),
                decreases n - j,
            {
                if str_eq(self.contacts[i].owner_uid.as_str(), self.contacts[j].owner_uid.as_str())
                    && str_eq(
                    self.contacts[i].contact_uid.as_str(),
                    self.contacts[j].contact_uid.as_str(),
                ) {
                    return false;
                }
                j += 1;
            }
            i += 1;
        }
        true
    }

    /// Decides the chat table invariant.
    fn chats_ok_exec(&self) -> (r: bool)
        ensures
            r == self.chats_ok(),
    {
        if self.next_chat_id < 1 {
            return false;
        }
        let n = self.chats.len();
        let mut i: usize = 0;
        while i < n
            invariant
                i <= n,
                n == self.chats@.len(),
                1 <= self.next_chat_id,
                forall|a: int, b: int|
                    0 <= a < b < n && a < i ==> !((#[trigger] self.chats@[a]).participant_a@ == (
                    #[trigger] self.chats@[b]).participant_a@ && self.chats@[a].participant_b@
                        == self.chats@[b].participant_b@) && self.chats@[a].id != self.chats@[b].id,
                forall|a: int|
                    0 <= a < i ==> crate::text::lex_lt(
                        (#[trigger] self.chats@[a]).participant_a@,
                        self.chats@[a].participant_b@,
                    ) && 1 <= self.chats@[a].id < self.next_chat_id,
            decreases n - i,
        {
            let c = &self.chats[i];
            if !(c.id >= 1 && c.id < self.next_chat_id) {
                return false;
            }
            if !str_lt(c.participant_a.as_str(), c.participant_b.as_str()) {
                return false;
            }
            let mut j: usize = i + 1;
            while j < n
                invariant
                    i < j <= n,
                    n == self.chats@.len(),
                    forall|b: int|
                        i < b < j ==> !((#[trigger] self.chats@[b]).participant_a@
                            == self.chats@[i as int].participant_a@
                            && self.chats@[b].participant_b@
                            == self.chats@[i as int].participant_b@) && self.chats@[b].id
                            != self.chats@[i as int].id,
                decreases n - j,
            {
                if self.chats[i].id == self.chats[j].id {
                    return false;
                }
                if str_eq(self.chats[i].participant_a.as_str(), self.chats[j].participant_a.as_str())
                    && str_eq(
                    self.chats[i].participant_b.as_str(),
                    self.chats[j].participant_b.as_str(),
                ) {
                    return false;
                }
                j += 1;
            }
            i += 1;
        }
        true
    }

    /// Decides the message ledger invariant.
    fn messages_ok_exec(&self) -> (r: bool)
        ensures
            r == self.messages_ok(),
    {
        if self.next_message_id < 1 {
            return false;
        }
        let n = self.messages.len();
        let mut i: usize = 0;
        while i < n
            invariant
                i <= n,
                n == self.messages@.len(),
                1 <= self.next_message_id,
                forall|a: int|
                    0 <= a < i ==> exists|j: int|
                        0 <= j < self.chats@.len() && (#[trigger] self.chats@[j]).id == (
                        #[trigger] self.messages@[a]).chat_id && (self.messages@[a].sender_uid@
                            == self.chats@[j].participant_a@ || self.messages@[a].sender_uid@
                            == self.chats@[j].participant_b@),
                forall|a: int, b: int|
                    0 <= a < b < n && a < i && (#[trigger] self.messages@[a]).chat_id == (
                    #[trigger] self.messages@[b]).chat_id ==> lex_le(
                        self.messages@[a].sent_at@,
                        self.messages@[b].sent_at@,
                    ),
                forall|a: int, b: int|
                    0 <= a < b < n && a < i ==> (#[trigger] self.messages@[a]).id != (
                    #[trigger] self.messages@[b]).id,
                forall|a: int|
                    0 <= a < i ==> 1 <= (#[trigger] self.messages@[a]).id < self.next_message_id,
            decreases n - i,
        {
            let m = &self.messages[i];
            if !(m.id >= 1 && m.id < self.next_message_id) {
                return false;
            }
            // The message must name an existing chat and one of its two
            // participants.
            let mut found = false;
            let cn = self.chats.len();
            let mut j: usize = 0;
            while j < cn
                invariant
                    j <= cn,
                    cn == self.chats@.len(),
                    i < n,
                    n == self.messages@.len(),
                    m == &self.messages[i as int],
                    found ==> exists|x: int|
                        0 <= x < self.chats@.len() && (#[trigger] self.chats@[x]).id
                            == self.messages@[i as int].chat_id && (self.messages@[i
                            as int].sender_uid@ == self.chats@[x].participant_a@
                            || self.messages@[i as int].sender_uid@
                            == self.chats@[x].participant_b@),
                    !found ==> forall|x: int|
                        0 <= x < j ==> !((#[trigger] self.chats@[x]).id == self.messages@[i
                            as int].chat_id && (self.messages@[i as int].sender_uid@
                            == self.chats@[x].participant_a@ || self.messages@[i
                            as int].sender_uid@ == self.chats@[x].participant_b@)),
                decreases cn - j,
            {
                if self.chats[j].id == m.chat_id && (str_eq(
                    m.sender_uid.as_str(),
                    self.chats[j].participant_a.as_str(),
                ) || str_eq(m.sender_uid.as_str(), self.chats[j].participant_b.as_str())) {
                    found = true;
                }
                j += 1;
            }
            if !found {
                return false;
            }
            // Later entries of the same chat must not move backwards, and
            // ids must stay unique.
            let mut b: usize = i + 1;
            while b < n
                invariant
                    i < b <= n,
                    n == self.messages@.len(),
                    m == &self.messages[i as int],
                    forall|x: int|
                        i < x < b && (#[trigger] self.messages@[x]).chat_id == self.messages@[i
                            as int].chat_id ==> lex_le(
                            self.messages@[i as int].sent_at@,
                            self.messages@[x].sent_at@,
                        ),
                    forall|x: int|
                        i < x < b ==> (#[trigger] self.messages@[x]).id != self.messages@[i
                            as int].id,
                decreases n - b,
            {
                if self.messages[b].id == m.id {
                    return false;
                }
                if self.messages[b].chat_id == m.chat_id && !str_le(
                    m.sent_at.as_str(),
                    self.messages[b].sent_at.as_str(),
                ) {
                    return false;
                }
                b += 1;
            }
            i += 1;
        }
        true
    }

    /// Decides the preview invariant, given a well-formed ledger.
    fn previews_ok_exec(&self) -> (r: bool)
        requires
            self.messages_ok(),
        ensures
            r == self.previews_ok(),
    {
        let cn = self.chats.len();
        let mut j: usize = 0;
        while j < cn
            invariant
                j <= cn,
                cn == self.chats@.len(),
                self.messages_ok(),
                forall|x: int|
                    0 <= x < j ==> crate::store::chat_preview_ok(
                        self.messages@,
                        #[trigger] self.chats@[x],
                    ),
            decreases cn - j,
        {
            let c = &self.chats[j];
            let n = self.messages.len();
            let mut last: Option<usize> = None;
            let mut k: usize = 0;
            while k < n
                invariant
                    k <= n,
                    n == self.messages@.len(),
                    j < cn,
                    cn == self.chats@.len(),
                    c == &self.chats[j as int],
                    (last is None) == (msgs_of(self.messages@.take(k as int), c.id).len() == 0),
                    last is None ==> forall|y: int|
                        0 <= y < k ==> (#[trigger] self.messages@[y]).chat_id != c.id,
                    last matches Some(x) ==> x < k && self.messages@[x as int].chat_id == c.id
                        && msgs_of(self.messages@.take(k as int), c.id).last()
                        == self.messages@[x as int],
                    last matches Some(x) ==> forall|y: int|
                        x < y < k ==> (#[trigger] self.messages@[y]).chat_id != c.id,
                decreases n - k,
            {
                proof {
                    assert(self.messages@.take(k + 1) =~= self.messages@.take(k as int).push(
                        self.messages@[k as int],
                    ));
                    lemma_msgs_of_push(
                        self.messages@.take(k as int),
                        self.messages@[k as int],
                        c.id,
                    );
                }
                if self.messages[k].chat_id == c.id {
                    last = Some(k);
                }
                k += 1;
            }
            proof {
                assert(self.messages@.take(n as int) =~= self.messages@);
            }
            match last {
                None => {
                    if !(c.last_message.is_none() && c.last_message_at.is_none()) {
                        return false;
                    }
                    proof {
                        assert(msgs_of(self.messages@, c.id).len() == 0);
                        assert(crate::store::chat_preview_ok(self.messages@, self.chats@[j as int]));
                    }
                },
                Some(x) => {
                    let lm = &self.messages[x];
                    let ok_at = match &c.last_message_at {
                        Some(t) => str_eq(t.as_str(), lm.sent_at.as_str()),
                        None => false,
                    };
                    if !ok_at {
                        return false;
                    }
                    let expected = build_preview(lm.content.as_str(), lm.msg_type);
                    let ok_preview = match &c.last_message {
                        Some(p) => str_eq(p.as_str(), expected.as_str()),
                        None => false,
                    };
                    if !ok_preview {
                        return false;
                    }
                    proof {
                        // Every entry of this chat's ledger sits at or
                        // before the latest one, whose timestamp the chat
                        // carries.
                        assert forall|y: int|
                            0 <= y < self.messages@.len() && (#[trigger] self.messages@[y]).chat_id
                                == c.id implies lex_le(
                            self.messages@[y].sent_at@,
                            c.last_message_at->0@,
                        ) by {
                            if y < x as int {
                                assert(lex_le(
                                    self.messages@[y].sent_at@,
                                    self.messages@[x as int].sent_at@,
                                ));
                            } else {
                                assert(y == x as int);
                                lemma_lex_le_total(
                                    self.messages@[y].sent_at@,
                                    self.messages@[y].sent_at@,
                                );
                            }
                        }
                        assert(crate::store::chat_preview_ok(self.messages@, self.chats@[j as int]));
                    }
                },
            }
            j += 1;
        }
        true
    }

    /// Decides the product table invariant.
    fn products_ok_exec(&self) -> (r: bool)
        ensures
            r == self.products_ok(),
    {
        if self.next_product_id < 1 {
            return false;
        }
        let n = self.products.len();
        let mut i: usize = 0;
        while i < n
            invariant
                i <= n,
                n == self.products@.len(),
                1 <= self.next_product_id,
                forall|a: int, b: int|
                    0 <= a < b < n && a < i ==> !((#[trigger] self.products@[a]).owner_uid@ == (
                    #[trigger] self.products@[b]).owner_uid@ && self.products@[a].code@
                        == self.products@[b].code@) && self.products@[a].id != self.products@[b].id,
                forall|a: int|
                    0 <= a < i ==> (#[trigger] self.products@[a]).valid() && 1
                        <= self.products@[a].id < self.next_product_id,
            decreases n - i,
        {
            let p = &self.products[i];
            if !(p.id >= 1 && p.id < self.next_product_id) {
                return false;
            }
            if !(p.quantity >= 0 && p.quantity <= crate::models::MAX_QUANTITY && p.net_value >= 0
                && p.net_value <= crate::models::MAX_MONEY && p.sale_value >= 0 && p.sale_value
                <= crate::models::MAX_MONEY && p.profit_value == p.sale_value - p.net_value) {
                return false;
            }
            let mut j: usize = i + 1;
            while j < n
                invariant
                    i < j <= n,
                    n == self.products@.len(),
                    forall|b: int|
                        i < b < j ==> !((#[trigger] self.products@[b]).owner_uid@
                            == self.products@[i as int].owner_uid@ && self.products@[b].code@
                            == self.products@[i as int].code@) && self.products@[b].id
                            != self.products@[i as int].id,
                decreases n - j,
            {
                if self.products[i].id == self.products[j].id {
                    return false;
                }
                if str_eq(self.products[i].owner_uid.as_str(), self.products[j].owner_uid.as_str())
                    && str_eq(self.products[i].code.as_str(), self.products[j].code.as_str()) {
                    return false;
                }
                j += 1;
            }
            i += 1;
        }
        true
    }

    /// Decides the whole store invariant. A store assembled from outside
    /// rows is admitted only after this audit passes.
    pub fn check_wf(&self) -> (r: bool)
        ensures
            r == self.wf(),
    {
        if !self.users_ok_exec() {
            return false;
        }
        if !self.contacts_ok_exec() {
            return false;
        }
        if !self.chats_ok_exec() {
            return false;
        }
        if !self.messages_ok_exec() {
            return false;
        }
        if !self.previews_ok_exec() {
            return false;
        }
        self.products_ok_exec()
    }
}

} // verus!
