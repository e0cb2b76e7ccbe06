//! The thread and message ledger: canonical 1:1 chat identity, the
//! append-only message log, and the derived last-message projection.
//!
//! A chat is keyed by the unordered pair of its participants' public ids,
//! stored with the lexicographically smaller id first, so both call orders
//! resolve to the same row. Appending a message and refreshing the parent
//! chat's preview happen inside one store operation, so no caller ever
//! observes one without the other.

use vstd::prelude::*;

use crate::clock;
use crate::models::{build_preview, preview_view, Chat, Message, MessageType, MAX_TEXT_LEN};
use crate::store::{
    canon_high, canon_low, chat_id_index, chat_id_present, chat_pair_index, chat_present,
    chat_preview_ok, lemma_chat_id_index, lemma_chat_pair_index, lemma_msgs_of_none,
    lemma_msgs_of_push, msgs_of, same_except_ledger, Database,
};
use crate::text::{
    lemma_lex_le_antisymmetric, lemma_lex_le_total, lemma_lex_le_transitive, lex_le, lex_lt,
    str_eq, str_le, str_lt,
};
use crate::StoreError;

verus! {

/// If every message of the chat in `msgs` sits at or before `bound`, so
/// does every entry of the chat's ledger projection.
proof fn lemma_msgs_of_le(msgs: Seq<Message>, chat_id: i64, bound: Seq<char>)
    requires
        forall|i: int|
            0 <= i < msgs.len() && (#[trigger] msgs[i]).chat_id == chat_id ==> lex_le(
                msgs[i].sent_at@,
                bound,
            ),
    ensures
        forall|x: int|
            0 <= x < msgs_of(msgs, chat_id).len() ==> lex_le(
                (#[trigger] msgs_of(msgs, chat_id)[x]).sent_at@,
                bound,
            ),
    decreases msgs.len(),
{
    reveal(Seq::filter);
    if msgs.len() > 0 {
        let head = msgs.drop_last();
        assert(forall|i: int|
            0 <= i < head.len() && (#[trigger] head[i]).chat_id == chat_id ==> lex_le(
                head[i].sent_at@,
                bound,
            ));
        lemma_msgs_of_le(head, chat_id, bound);
        let sub = msgs_of(head, chat_id);
        if msgs.last().chat_id == chat_id {
            assert(msgs_of(msgs, chat_id) == sub.push(msgs.last()));
            assert(msgs[msgs.len() - 1].chat_id == chat_id);
        } else {
            assert(msgs_of(msgs, chat_id) == sub);
        }
    }
}

/// Timestamps never decrease along the sequence.
pub open spec fn msgs_sorted(s: Seq<Message>) -> bool {
    forall|i: int, j: int|
        0 <= i < j < s.len() ==> lex_le((#[trigger] s[i]).sent_at@, (#[trigger] s[j]).sent_at@)
}

/// A sender and body this chat accepts: the sender is one of the two
/// participants, and a text body stays within `MAX_TEXT_LEN` characters.
pub open spec fn send_allowed(c: Chat, sender: Seq<char>, content: Seq<char>, t: MessageType) -> bool {
    &&& (sender == c.participant_a@ || sender == c.participant_b@)
    &&& (t == MessageType::Text ==> content.len() <= MAX_TEXT_LEN)
}

/// Canonicalization does not depend on argument order: an unordered pair
/// has exactly one storage representation.
pub proof fn lemma_canon_symmetric(a: Seq<char>, b: Seq<char>)
    ensures
        canon_low(a, b) == canon_low(b, a),
        canon_high(a, b) == canon_high(b, a),
{
    lemma_lex_le_total(a, b);
    if lex_le(a, b) && lex_le(b, a) {
        lemma_lex_le_antisymmetric(a, b);
    }
}

impl Database {
    /// Index of the chat with this canonical pair, if any.
    fn find_chat_pair(&self, low: &str, high: &str) -> (r: Option<usize>)
        ensures
            (r matches Some(i) ==> i < self.chats@.len() && self.chats@[i as int].participant_a@
                == low@ && self.chats@[i as int].participant_b@ == high@),
            (r is None ==> !chat_present(self.chats@, low@, high@)),
    {
        let n = self.chats.len();
        let mut i: usize = 0;
        while i < n
            invariant
                i <= n,
                n == self.chats@.len(),
                forall|k: int|
                    0 <= k < i ==> !((#[trigger] self.chats@[k]).participant_a@ == low@
                        && self.chats@[k].participant_b@ == high@),
            decreases n - i,
        {
            let c = &self.chats[i];
            if str_eq(c.participant_a.as_str(), low) && str_eq(c.participant_b.as_str(), high) {
                return Some(i);
            }
            i += 1;
        }
        None
    }

    /// Index of the chat with this id, if any.
    fn find_chat_by_id(&self, id: i64) -> (r: Option<usize>)
        ensures
            (r matches Some(i) ==> i < self.chats@.len() && self.chats@[i as int].id == id),
            (r is None ==> !chat_id_present(self.chats@, id)),
    {
        let n = self.chats.len();
        let mut i: usize = 0;
        while i < n
            invariant
                i <= n,
                n == self.chats@.len(),
                forall|k: int| 0 <= k < i ==> (#[trigger] self.chats@[k]).id != id,
            decreases n - i,
        {
            if self.chats[i].id == id {
                return Some(i);
            }
            i += 1;
        }
        None
    }

    /// Opens the chat between two distinct users, creating it on first use.
    /// The pair is canonicalized before lookup and insert, so
    /// `get_or_create_chat(a, b)` and `get_or_create_chat(b, a)` resolve to
    /// the same row, and calling either twice never creates a second one.
    pub fn get_or_create_chat(&mut self, uid_a: &str, uid_b: &str) -> (r: Result<Chat, StoreError>)
        requires
            old(self).wf(),
        ensures
            final(self).wf(),
            same_except_ledger(*final(self), *old(self)),
            final(self).messages == old(self).messages,
            final(self).next_message_id == old(self).next_message_id,
            ((r matches Err(StoreError::SameUser)) <==> uid_a@ == uid_b@),
            ((r matches Err(StoreError::Storage)) <==> (uid_a@ != uid_b@ && !chat_present(
                old(self).chats@,
                canon_low(uid_a@, uid_b@),
                canon_high(uid_a@, uid_b@),
            ) && old(self).next_chat_id == i64::MAX)),
            (r matches Err(e) ==> ((e == StoreError::SameUser || e == StoreError::Storage)
                && *final(self) == *old(self))),
            (r matches Ok(c) ==> {
                let lo = canon_low(uid_a@, uid_b@);
                let hi = canon_high(uid_a@, uid_b@);
                if chat_present(old(self).chats@, lo, hi) {
                    &&& *final(self) == *old(self)
                    &&& c == old(self).chats@[chat_pair_index(old(self).chats@, lo, hi)]
                } else {
                    &&& final(self).chats@ == old(self).chats@.push(c)
                    &&& final(self).next_chat_id == old(self).next_chat_id + 1
                    &&& c.participant_a@ == lo
                    &&& c.participant_b@ == hi
                    &&& c.id == old(self).next_chat_id
                    &&& c.last_message is None
                    &&& c.last_message_at is None
                    &&& c.unread_count == 0
                }
            }),
    {
        if str_eq(uid_a, uid_b) {
            return Err(StoreError::SameUser);
        }
        let a_first = str_lt(uid_a, uid_b);
        proof {
            lemma_lex_le_total(uid_a@, uid_b@);
        }
        let (low, high) = if a_first {
            (uid_a, uid_b)
        } else {
            (uid_b, uid_a)
        };
        proof {
            assert(low@ == canon_low(uid_a@, uid_b@));
            assert(high@ == canon_high(uid_a@, uid_b@));
            assert(lex_lt(low@, high@));
        }
        match self.find_chat_pair(low, high) {
            Some(i) => {
                proof {
                    lemma_chat_pair_index(self.chats@, low@, high@, i as int);
                }
                Ok(self.chats[i].clone())
            },
            None => {
                if self.next_chat_id == i64::MAX {
                    return Err(StoreError::Storage);
                }
                let now = clock::now_rfc3339();
                let id = self.next_chat_id;
                let c = Chat {
                    id,
                    participant_a: low.to_owned(),
                    participant_b: high.to_owned(),
                    created_at: now,
                    last_message: None,
                    last_message_at: None,
                    unread_count: 0,
                };
                let ret = c.clone();
                let ghost cg = c;
                self.chats.push(c);
                self.next_chat_id = id + 1;
                proof {
                    let chats0 = old(self).chats@;
                    let chats1 = self.chats@;
                    let msgs = self.messages@;
                    assert(chats1 == chats0.push(cg));
                    assert forall|a: int, b: int|
                        0 <= a < b < chats1.len() implies !((#[trigger] chats1[a]).participant_a@
                        == (#[trigger] chats1[b]).participant_a@ && chats1[a].participant_b@
                        == chats1[b].participant_b@) by {
                        if b == chats0.len() {
                            assert(chats1[a] == chats0[a]);
                            assert(!(0 <= a < chats0.len() && chats0[a].participant_a@ == low@
                                && chats0[a].participant_b@ == high@));
                        } else {
                            assert(chats1[a] == chats0[a]);
                            assert(chats1[b] == chats0[b]);
                        }
                    }
                    assert forall|a: int, b: int|
                        0 <= a < b < chats1.len() implies (#[trigger] chats1[a]).id != (
                    #[trigger] chats1[b]).id by {
                        if b == chats0.len() {
                            assert(chats1[a] == chats0[a]);
                        } else {
                            assert(chats1[a] == chats0[a]);
                            assert(chats1[b] == chats0[b]);
                        }
                    }
                    assert forall|a: int|
                        0 <= a < chats1.len() implies lex_lt(
                        (#[trigger] chats1[a]).participant_a@,
                        chats1[a].participant_b@,
                    ) && 1 <= chats1[a].id < self.next_chat_id by {
                        if a < chats0.len() {
                            assert(chats1[a] == chats0[a]);
                        }
                    }
                    // Every message still finds its chat at the same index.
                    assert forall|k: int| 0 <= k < msgs.len() implies exists|j: int|
                        0 <= j < chats1.len() && (#[trigger] chats1[j]).id == (
                        #[trigger] msgs[k]).chat_id && (msgs[k].sender_uid@
                            == chats1[j].participant_a@ || msgs[k].sender_uid@
                            == chats1[j].participant_b@) by {
                        let j0 = choose|j: int|
                            0 <= j < chats0.len() && (#[trigger] chats0[j]).id == msgs[k].chat_id
                                && (msgs[k].sender_uid@ == chats0[j].participant_a@
                                || msgs[k].sender_uid@ == chats0[j].participant_b@);
                        assert(chats1[j0] == chats0[j0]);
                    }
                    // The new chat has no messages yet.
                    assert forall|k: int| 0 <= k < msgs.len() implies (
                    #[trigger] msgs[k]).chat_id != cg.id by {
                        let j0 = choose|j: int|
                            0 <= j < chats0.len() && (#[trigger] chats0[j]).id == msgs[k].chat_id
                                && (msgs[k].sender_uid@ == chats0[j].participant_a@
                                || msgs[k].sender_uid@ == chats0[j].participant_b@);
                        assert(1 <= chats0[j0].id < old(self).next_chat_id);
                    }
                    lemma_msgs_of_none(msgs, cg.id);
                    assert forall|j: int| 0 <= j < chats1.len() implies chat_preview_ok(
                        msgs,
                        #[trigger] chats1[j],
                    ) by {
                        if j < chats0.len() {
                            assert(chats1[j] == chats0[j]);
                            assert(chat_preview_ok(msgs, chats0[j]));
                        } else {
                            assert(chats1[j] == cg);
                            assert(msgs_of(msgs, cg.id).len() == 0);
                        }
                    }
                }
                Ok(ret)
            },
        }
    }

    /// Appends a message to a chat's ledger and refreshes the chat's
    /// last-message preview and timestamp in the same operation. The
    /// sender must be a participant; a text body must fit the length
    /// bound; the assigned timestamp never moves behind the chat's latest.
    pub fn send_message(
        &mut self,
        chat_id: i64,
        sender_uid: &str,
        content: &str,
        msg_type: MessageType,
        file_name: Option<&str>,
        file_size: Option<u64>,
    ) -> (r: Result<Message, StoreError>)
        requires
            old(self).wf(),
        ensures
            final(self).wf(),
            same_except_ledger(*final(self), *old(self)),
            final(self).next_chat_id == old(self).next_chat_id,
            ((r matches Err(StoreError::NotFound)) <==> !chat_id_present(
                old(self).chats@,
                chat_id,
            )),
            ((r matches Err(StoreError::Validation)) <==> (chat_id_present(
                old(self).chats@,
                chat_id,
            ) && !send_allowed(
                old(self).chats@[chat_id_index(old(self).chats@, chat_id)],
                sender_uid@,
                content@,
                msg_type,
            ))),
            ((r matches Err(StoreError::Storage)) <==> (chat_id_present(old(self).chats@, chat_id)
                && send_allowed(
                old(self).chats@[chat_id_index(old(self).chats@, chat_id)],
                sender_uid@,
                content@,
                msg_type,
            ) && old(self).next_message_id == i64::MAX)),
            (r matches Err(e) ==> ((e == StoreError::NotFound || e == StoreError::Validation || e
                == StoreError::Storage) && *final(self) == *old(self))),
            (r matches Ok(m) ==> {
                let i = chat_id_index(old(self).chats@, chat_id);
                let c1 = final(self).chats@[i];
                &&& final(self).messages@ == old(self).messages@.push(m)
                &&& final(self).next_message_id == old(self).next_message_id + 1
                &&& m.chat_id == chat_id
                &&& m.sender_uid@ == sender_uid@
                &&& m.content@ == content@
                &&& m.msg_type == msg_type
                &&& (match file_name {
                    Some(n) => m.file_name matches Some(f) && f@ == n@,
                    None => m.file_name is None,
                })
                &&& m.file_size == file_size
                &&& !m.is_read
                &&& m.id == old(self).next_message_id
                &&& final(self).chats@ == old(self).chats@.update(i, c1)
                &&& (c1.last_message matches Some(p) && p@ == preview_view(content@, msg_type))
                &&& (c1.last_message_at matches Some(t) && t@ == m.sent_at@)
                &&& c1 == (Chat {
                    last_message: c1.last_message,
                    last_message_at: c1.last_message_at,
                    ..old(self).chats@[i]
                })
            }),
    {
        let i = match self.find_chat_by_id(chat_id) {
            None => {
                return Err(StoreError::NotFound);
            },
            Some(i) => i,
        };
        proof {
            lemma_chat_id_index(self.chats@, chat_id, i as int);
        }
        let is_participant = str_eq(sender_uid, self.chats[i].participant_a.as_str()) || str_eq(
            sender_uid,
            self.chats[i].participant_b.as_str(),
        );
        if !is_participant {
            return Err(StoreError::Validation);
        }
        if msg_type == MessageType::Text && content.unicode_len() > MAX_TEXT_LEN {
            return Err(StoreError::Validation);
        }
        if self.next_message_id == i64::MAX {
            return Err(StoreError::Storage);
        }
        let now = clock::now_rfc3339();
        let ts = match &self.chats[i].last_message_at {
            Some(prev) => {
                if str_le(prev.as_str(), now.as_str()) {
                    now
                } else {
                    prev.clone()
                }
            },
            None => now,
        };
        proof {
            lemma_lex_le_total(ts@, ts@);
            if old(self).chats@[i as int].last_message_at is Some {
                lemma_lex_le_total(old(self).chats@[i as int].last_message_at->0@, ts@);
            }
        }
        let preview = build_preview(content, msg_type);
        let m = Message {
            id: self.next_message_id,
            chat_id,
            sender_uid: sender_uid.to_owned(),
            content: content.to_owned(),
            msg_type,
            file_name: match file_name {
                Some(n) => Some(n.to_owned()),
                None => None,
            },
            file_size,
            sent_at: ts.clone(),
            is_read: false,
        };
        let ret = m.clone();
        let ghost mg = m;
        self.messages.push(m);
        let next_id = self.next_message_id;
        self.next_message_id = next_id + 1;
        self.chats[i].last_message = Some(preview);
        self.chats[i].last_message_at = Some(ts);
        proof {
            let chats0 = old(self).chats@;
            let chats1 = self.chats@;
            let msgs0 = old(self).messages@;
            let msgs1 = self.messages@;
            let c0 = chats0[i as int];
            let c1 = chats1[i as int];
            assert(msgs1 == msgs0.push(mg));
            assert(chats1 =~= chats0.update(i as int, c1));
            // Timestamp clamping: everything in this chat's ledger stays
            // at or before the new message.
            assert(c0.last_message_at is Some ==> lex_le(c0.last_message_at->0@, mg.sent_at@));
            assert forall|k: int|
                0 <= k < msgs0.len() && (#[trigger] msgs0[k]).chat_id == chat_id implies lex_le(
                msgs0[k].sent_at@,
                mg.sent_at@,
            ) by {
                assert(chat_preview_ok(msgs0, c0));
                assert(lex_le(msgs0[k].sent_at@, c0.last_message_at->0@));
                lemma_lex_le_transitive(msgs0[k].sent_at@, c0.last_message_at->0@, mg.sent_at@);
            }
            // Ledger well-formedness for the extended table.
            assert forall|k: int| 0 <= k < msgs1.len() implies exists|j: int|
                0 <= j < chats1.len() && (#[trigger] chats1[j]).id == (#[trigger] msgs1[k]).chat_id
                    && (msgs1[k].sender_uid@ == chats1[j].participant_a@ || msgs1[k].sender_uid@
                    == chats1[j].participant_b@) by {
                if k < msgs0.len() {
                    assert(msgs1[k] == msgs0[k]);
                    let j0 = choose|j: int|
                        0 <= j < chats0.len() && (#[trigger] chats0[j]).id == msgs0[k].chat_id && (
                        msgs0[k].sender_uid@ == chats0[j].participant_a@ || msgs0[k].sender_uid@
                            == chats0[j].participant_b@);
                    assert(chats1[j0].id == chats0[j0].id);
                    assert(chats1[j0].participant_a@ == chats0[j0].participant_a@);
                    assert(chats1[j0].participant_b@ == chats0[j0].participant_b@);
                } else {
                    assert(msgs1[k] == mg);
                    assert(chats1[i as int].id == chat_id);
                    assert(c1.participant_a@ == c0.participant_a@);
                    assert(c1.participant_b@ == c0.participant_b@);
                }
            }
            assert forall|a: int, b: int|
                0 <= a < b < msgs1.len() && (#[trigger] msgs1[a]).chat_id == (
            #[trigger] msgs1[b]).chat_id implies lex_le(msgs1[a].sent_at@, msgs1[b].sent_at@) by {
                if b < msgs0.len() {
                    assert(msgs1[a] == msgs0[a]);
                    assert(msgs1[b] == msgs0[b]);
                } else {
                    assert(msgs1[a] == msgs0[a]);
                    assert(msgs1[b] == mg);
                }
            }
            assert forall|a: int, b: int|
                0 <= a < b < msgs1.len() implies (#[trigger] msgs1[a]).id != (
            #[trigger] msgs1[b]).id by {
                if b < msgs0.len() {
                    assert(msgs1[a] == msgs0[a]);
                    assert(msgs1[b] == msgs0[b]);
                } else {
                    assert(msgs1[a] == msgs0[a]);
                    assert(1 <= msgs0[a].id < old(self).next_message_id);
                }
            }
            assert forall|a: int| 0 <= a < msgs1.len() implies 1 <= (#[trigger] msgs1[a]).id
                < self.next_message_id by {
                if a < msgs0.len() {
                    assert(msgs1[a] == msgs0[a]);
                }
            }
            // Previews: the touched chat reflects the new message, the
            // rest are untouched and their ledgers did not change.
            assert forall|j: int| 0 <= j < chats1.len() implies chat_preview_ok(
                msgs1,
                #[trigger] chats1[j],
            ) by {
                lemma_msgs_of_push(msgs0, mg, chats1[j].id);
                if j != i as int {
                    assert(chats1[j] == chats0[j]);
                    assert(chats0[j].id != chat_id);
                    assert(msgs_of(msgs1, chats1[j].id) == msgs_of(msgs0, chats0[j].id));
                    assert(chat_preview_ok(msgs0, chats0[j]));
                    assert forall|k: int|
                        0 <= k < msgs1.len() && (#[trigger] msgs1[k]).chat_id == chats1[j].id
                            implies chats1[j].last_message_at is Some && lex_le(
                        msgs1[k].sent_at@,
                        chats1[j].last_message_at->0@,
                    ) by {
                        assert(msgs1[k] == msgs0[k]);
                    }
                } else {
                    let ms1 = msgs_of(msgs1, chat_id);
                    assert(ms1 == msgs_of(msgs0, chat_id).push(mg));
                    assert(ms1.last() == mg);
                    assert forall|k: int|
                        0 <= k < msgs1.len() && (#[trigger] msgs1[k]).chat_id == c1.id implies
                        c1.last_message_at is Some && lex_le(
                        msgs1[k].sent_at@,
                        c1.last_message_at->0@,
                    ) by {
                        if k < msgs0.len() {
                            assert(msgs1[k] == msgs0[k]);
                        } else {
                            assert(msgs1[k] == mg);
                        }
                    }
                }
            }
        }
        Ok(ret)
    }

    /// Reads one page of a chat's ledger: `limit` messages starting at
    /// `offset`, in ledger order, whose timestamps ascend.
    pub fn get_messages(&self, chat_id: i64, limit: usize, offset: usize) -> (r: Vec<Message>)
        requires
            self.wf(),
        ensures
            ({
                let ms = msgs_of(self.messages@, chat_id);
                let lo = if offset <= ms.len() {
                    offset as int
                } else {
                    ms.len() as int
                };
                let hi = if offset + limit <= ms.len() {
                    offset as int + limit as int
                } else {
                    ms.len() as int
                };
                r@ == ms.subrange(lo, hi)
            }),
            msgs_sorted(r@),
    {
        let mut all: Vec<Message> = Vec::new();
        let n = self.messages.len();
        let mut k: usize = 0;
        while k < n
            invariant
                k <= n,
                n == self.messages@.len(),
                self.wf(),
                all@ == msgs_of(self.messages@.take(k as int), chat_id),
                msgs_sorted(all@),
            decreases n - k,
        {
            proof {
                assert(self.messages@.take(k + 1) =~= self.messages@.take(k as int).push(
                    self.messages@[k as int],
                ));
                lemma_msgs_of_push(self.messages@.take(k as int), self.messages@[k as int], chat_id);
            }
            let msg = &self.messages[k];
            let ghost all_pre = all@;
            if msg.chat_id == chat_id {
                proof {
                    let taken = self.messages@.take(k as int);
                    let new_at = self.messages@[k as int].sent_at@;
                    assert forall|i: int|
                        0 <= i < taken.len() && (#[trigger] taken[i]).chat_id == chat_id implies
                        lex_le(taken[i].sent_at@, new_at) by {
                        assert(taken[i] == self.messages@[i]);
                        assert(lex_le(self.messages@[i].sent_at@, new_at));
                    }
                    lemma_msgs_of_le(taken, chat_id, new_at);
                }
                all.push(msg.clone());
                proof {
                    assert forall|a: int, b: int|
                        0 <= a < b < all@.len() implies lex_le(
                        (#[trigger] all@[a]).sent_at@,
                        (#[trigger] all@[b]).sent_at@,
                    ) by {
                        if b < all_pre.len() {
                            assert(all@[a] == all_pre[a]);
                            assert(all@[b] == all_pre[b]);
                        } else {
                            assert(all@[a] == all_pre[a]);
                            assert(all@[b] == self.messages@[k as int]);
                            assert(all_pre[a] == msgs_of(self.messages@.take(k as int), chat_id)[a]);
                        }
                    }
                }
            }
            k += 1;
        }
        proof {
            assert(self.messages@.take(n as int) =~= self.messages@);
        }
        let flen = all.len();
        let start = if offset < flen {
            offset
        } else {
            flen
        };
        let end = if limit < flen - start {
            start + limit
        } else {
            flen
        };
        let mut out: Vec<Message> = Vec::new();
        let mut idx: usize = start;
        while idx < end
            invariant
                start <= idx <= end <= flen,
                flen == all@.len(),
                out@ == all@.subrange(start as int, idx as int),
            decreases end - idx,
        {
            out.push(all[idx].clone());
            proof {
                assert(out@ =~= all@.subrange(start as int, idx + 1));
            }
            idx += 1;
        }
        proof {
            let ms = msgs_of(self.messages@, chat_id);
            assert(all@ == ms);
            assert(out@ =~= ms.subrange(
                if offset <= ms.len() {
                    offset as int
                } else {
                    ms.len() as int
                },
                if offset + limit <= ms.len() {
                    offset as int + limit as int
                } else {
                    ms.len() as int
                },
            ));
            assert forall|a: int, b: int|
                0 <= a < b < out@.len() implies lex_le(
                (#[trigger] out@[a]).sent_at@,
                (#[trigger] out@[b]).sent_at@,
            ) by {
                assert(out@[a] == all@[start + a]);
                assert(out@[b] == all@[start + b]);
            }
        }
        out
    }
}

} // verus!
