//! The contact graph: directed per-owner edges with a type and a starred
//! flag, listed starred-first then by display name.

use vstd::prelude::*;
use vstd::seq_lib::lemma_multiset_commutative;

use crate::clock;
use crate::models::{contact_le, Contact, ContactType};
use crate::store::{
    lemma_pair_index, pair_index, pair_present, pairs_unique, same_except_contacts, Database,
};
use crate::text::{lemma_lex_le_total, lemma_lex_le_transitive, str_eq, str_le};
use crate::StoreError;

verus! {

/// The edges of one owner with one contact type, in table order.
pub open spec fn contacts_of(contacts: Seq<Contact>, owner: Seq<char>, t: ContactType) -> Seq<
    Contact,
> {
    contacts.filter(|c: Contact| c.owner_uid@ == owner && c.contact_type == t)
}

/// A listing in display order: starred before unstarred, then display name
/// ascending.
pub open spec fn contacts_sorted(s: Seq<Contact>) -> bool {
    forall|i: int, j: int| 0 <= i < j < s.len() ==> contact_le(#[trigger] s[i], #[trigger] s[j])
}

/// Appending an edge extends exactly the listings it belongs to.
proof fn lemma_contacts_of_push(contacts: Seq<Contact>, c: Contact, owner: Seq<char>, t: ContactType)
    ensures
        contacts_of(contacts.push(c), owner, t) == if c.owner_uid@ == owner && c.contact_type == t {
            contacts_of(contacts, owner, t).push(c)
        } else {
            contacts_of(contacts, owner, t)
        },
{
    reveal(Seq::filter);
    assert(contacts.push(c).drop_last() =~= contacts);
}

/// Any two contacts are comparable in display order.
pub proof fn lemma_contact_le_connected(a: Contact, b: Contact)
    ensures
        contact_le(a, b) || contact_le(b, a),
{
    if a.starred == b.starred {
        lemma_lex_le_total(a.display_name@, b.display_name@);
    }
}

/// Display order is transitive.
pub proof fn lemma_contact_le_transitive(a: Contact, b: Contact, c: Contact)
    requires
        contact_le(a, b),
        contact_le(b, c),
    ensures
        contact_le(a, c),
{
    if a.starred == b.starred && b.starred == c.starred {
        lemma_lex_le_transitive(a.display_name@, b.display_name@, c.display_name@);
    }
}

/// Inserting an element anywhere adds exactly it to the multiset.
pub proof fn lemma_seq_insert_multiset<A>(s: Seq<A>, j: int, x: A)
    requires
        0 <= j <= s.len(),
    ensures
        s.insert(j, x).to_multiset() == s.to_multiset().insert(x),
{
    let l = s.subrange(0, j);
    let r = s.subrange(j, s.len() as int);
    assert(s.insert(j, x) =~= l.push(x) + r);
    assert(s =~= l + r);
    lemma_multiset_commutative(l.push(x), r);
    lemma_multiset_commutative(l, r);
    l.to_multiset_ensures();
    assert(l.push(x).to_multiset() =~= l.to_multiset().insert(x));
    assert(l.to_multiset().insert(x).add(r.to_multiset()) =~= l.to_multiset().add(
        r.to_multiset(),
    ).insert(x));
}

/// Removing an element and inserting it back elsewhere keeps the multiset.
proof fn lemma_remove_insert_multiset<A>(s: Seq<A>, i: int, j: int)
    requires
        0 <= i < s.len(),
        0 <= j <= s.len() - 1,
    ensures
        s.remove(i).insert(j, s[i]).to_multiset() == s.to_multiset(),
{
    s.to_multiset_ensures();
    assert(s.remove(i).to_multiset() == s.to_multiset().remove(s[i]));
    lemma_seq_insert_multiset(s.remove(i), j, s[i]);
    assert(s.to_multiset().contains(s[i]));
    assert(s.to_multiset().remove(s[i]).insert(s[i]) =~= s.to_multiset());
}

/// Decides display order on two edges.
fn contact_le_exec(a: &Contact, b: &Contact) -> (r: bool)
    ensures
        r == contact_le(*a, *b),
{
    if a.starred != b.starred {
        a.starred
    } else {
        str_le(a.display_name.as_str(), b.display_name.as_str())
    }
}

/// Sorts a listing into display order by insertion, preserving the
/// multiset of edges.
fn sort_contacts(v: &mut Vec<Contact>)
    ensures
        final(v)@.to_multiset() == old(v)@.to_multiset(),
        final(v)@.len() == old(v)@.len(),
        contacts_sorted(final(v)@),
{
    let mut i: usize = 0;
    while i < v.len()
        invariant
            i <= v@.len(),
            v@.len() == old(v)@.len(),
            v@.to_multiset() == old(v)@.to_multiset(),
            contacts_sorted(v@.take(i as int)),
        decreases v@.len() - i,
    {
        let ghost v0 = v@;
        let x = v.remove(i);
        let ghost v1 = v@;
        let mut j: usize = 0;
        while j < i && contact_le_exec(&v[j], &x)
            invariant
                j <= i,
                i < v0.len(),
                v@ == v1,
                v1 == v0.remove(i as int),
                x == v0[i as int],
                forall|k: int| 0 <= k < j ==> contact_le(#[trigger] v1[k], x),
            decreases i - j,
        {
            j += 1;
        }
        v.insert(j, x);
        proof {
            lemma_remove_insert_multiset(v0, i as int, j as int);
            assert(v@ == v1.insert(j as int, x));
            assert(v@.to_multiset() == v0.to_multiset());
            // The prefix of length i + 1 is sorted again.
            let pre0 = v0.take(i as int);
            assert(contacts_sorted(pre0));
            assert forall|a: int, b: int|
                0 <= a < b < i + 1 implies contact_le(#[trigger] v@[a], #[trigger] v@[b]) by {
                assert(forall|k: int| 0 <= k < i ==> v1[k] == pre0[k]);
                if j < i {
                    assert(!contact_le(v1[j as int], x));
                    lemma_contact_le_connected(v1[j as int], x);
                    assert(contact_le(x, v1[j as int]));
                }
                if b < j {
                    assert(v@[a] == v1[a] && v@[b] == v1[b]);
                } else if b == j {
                    assert(v@[b] == x);
                    assert(v@[a] == v1[a]);
                    assert(contact_le(v1[a], x));
                } else {
                    // b > j, so v@[b] == v1[b - 1] with j <= b - 1 < i.
                    assert(v@[b] == v1[b - 1]);
                    if a < j {
                        assert(v@[a] == v1[a]);
                        if a == b - 1 {
                        } else {
                            assert(contact_le(pre0[a], pre0[b - 1]));
                        }
                    } else if a == j {
                        assert(v@[a] == x);
                        if j == b - 1 {
                            assert(contact_le(x, v1[b - 1]));
                        } else {
                            assert(contact_le(pre0[j as int], pre0[b - 1]));
                            lemma_contact_le_transitive(x, v1[j as int], v1[b - 1]);
                        }
                    } else {
                        assert(v@[a] == v1[a - 1]);
                        if a - 1 == b - 1 {
                        } else {
                            assert(contact_le(pre0[a - 1], pre0[b - 1]));
                        }
                    }
                }
            }
            assert(contacts_sorted(v@.take(i + 1)));
        }
        i += 1;
    }
    proof {
        assert(v@.take(v@.len() as int) =~= v@);
    }
}

impl Database {
    /// Index of the edge from this owner to this contact, if any.
    fn find_pair(&self, owner_uid: &str, contact_uid: &str) -> (r: Option<usize>)
        ensures
            (r matches Some(i) ==> i < self.contacts@.len() && self.contacts@[i as int].owner_uid@
                == owner_uid@ && self.contacts@[i as int].contact_uid@ == contact_uid@),
            (r is None ==> !pair_present(self.contacts@, owner_uid@, contact_uid@)),
    {
        let n = self.contacts.len();
        let mut i: usize = 0;
        while i < n
            invariant
                i <= n,
                n == self.contacts@.len(),
                forall|k: int|
                    0 <= k < i ==> !((#[trigger] self.contacts@[k]).owner_uid@ == owner_uid@
                        && self.contacts@[k].contact_uid@ == contact_uid@),
            decreases n - i,
        {
            let c = &self.contacts[i];
            if str_eq(c.owner_uid.as_str(), owner_uid) && str_eq(
                c.contact_uid.as_str(),
                contact_uid,
            ) {
                return Some(i);
            }
            i += 1;
        }
        None
    }

    /// Adds a contact edge with a snapshot of the counterpart's display
    /// data. A self-edge is rejected; re-adding an existing pair is a
    /// no-op, not an error.
    pub fn add_contact(
        &mut self,
        owner_uid: &str,
        contact_uid: &str,
        display_name: &str,
        avatar_color: u32,
        contact_type: ContactType,
    ) -> (r: Result<(), StoreError>)
        requires
            old(self).wf(),
        ensures
            final(self).wf(),
            same_except_contacts(*final(self), *old(self)),
            ((r matches Err(StoreError::SelfReference)) <==> owner_uid@ == contact_uid@),
            ((r matches Err(StoreError::Storage)) <==> (owner_uid@ != contact_uid@
                && !pair_present(old(self).contacts@, owner_uid@, contact_uid@) && old(
                self,
            ).next_contact_id == i64::MAX)),
            (r matches Err(e) ==> ((e == StoreError::SelfReference || e == StoreError::Storage)
                && *final(self) == *old(self))),
            (r is Ok ==> (if pair_present(old(self).contacts@, owner_uid@, contact_uid@) {
                *final(self) == *old(self)
            } else {
                let c = final(self).contacts@.last();
                &&& final(self).contacts@ == old(self).contacts@.push(c)
                &&& final(self).next_contact_id == old(self).next_contact_id + 1
                &&& c.owner_uid@ == owner_uid@
                &&& c.contact_uid@ == contact_uid@
                &&& c.display_name@ == display_name@
                &&& c.avatar_color == avatar_color
                &&& c.contact_type == contact_type
                &&& !c.starred
                &&& c.id == old(self).next_contact_id
            })),
    {
        if str_eq(owner_uid, contact_uid) {
            return Err(StoreError::SelfReference);
        }
        if let Some(_) = self.find_pair(owner_uid, contact_uid) {
            proof {
                assert(pair_present(self.contacts@, owner_uid@, contact_uid@));
            }
            return Ok(());
        }
        if self.next_contact_id == i64::MAX {
            return Err(StoreError::Storage);
        }
        let now = clock::now_rfc3339();
        let id = self.next_contact_id;
        let c = Contact {
            id,
            owner_uid: owner_uid.to_owned(),
            contact_uid: contact_uid.to_owned(),
            display_name: display_name.to_owned(),
            avatar_color,
            contact_type,
            starred: false,
            added_at: now,
        };
        let ghost cg = c;
        self.contacts.push(c);
        self.next_contact_id = id + 1;
        proof {
            let c0 = old(self).contacts@;
            let c1 = self.contacts@;
            assert(c1 == c0.push(cg));
            assert forall|a: int, b: int|
                0 <= a < b < c1.len() implies !((#[trigger] c1[a]).owner_uid@ == (
            #[trigger] c1[b]).owner_uid@ && c1[a].contact_uid@ == c1[b].contact_uid@) by {
                if b == c0.len() {
                    assert(c1[a] == c0[a]);
                    assert(!(0 <= a < c0.len() && c0[a].owner_uid@ == owner_uid@
                        && c0[a].contact_uid@ == contact_uid@));
                } else {
                    assert(c1[a] == c0[a]);
                    assert(c1[b] == c0[b]);
                }
            }
            assert forall|a: int|
                0 <= a < c1.len() implies (#[trigger] c1[a]).owner_uid@ != c1[a].contact_uid@ by {
                if a < c0.len() {
                    assert(c1[a] == c0[a]);
                }
            }
            assert forall|a: int|
                0 <= a < c1.len() implies 1 <= (#[trigger] c1[a]).id < self.next_contact_id by {
                if a < c0.len() {
                    assert(c1[a] == c0[a]);
                }
            }
        }
        Ok(())
    }

    /// Flips the starred flag of an edge and returns the resulting state.
    pub fn toggle_star(&mut self, owner_uid: &str, contact_uid: &str) -> (r: Result<
        bool,
        StoreError,
    >)
        requires
            old(self).wf(),
        ensures
            final(self).wf(),
            same_except_contacts(*final(self), *old(self)),
            final(self).next_contact_id == old(self).next_contact_id,
            ((r matches Err(StoreError::NotFound)) <==> !pair_present(
                old(self).contacts@,
                owner_uid@,
                contact_uid@,
            )),
            (r matches Err(e) ==> (e == StoreError::NotFound && *final(self) == *old(self))),
            (r matches Ok(v) ==> {
                let i = pair_index(old(self).contacts@, owner_uid@, contact_uid@);
                let c = final(self).contacts@[i];
                &&& final(self).contacts@ == old(self).contacts@.update(i, c)
                &&& v == !old(self).contacts@[i].starred
                &&& c == (Contact { starred: v, ..old(self).contacts@[i] })
            }),
    {
        match self.find_pair(owner_uid, contact_uid) {
            None => Err(StoreError::NotFound),
            Some(i) => {
                proof {
                    lemma_pair_index(self.contacts@, owner_uid@, contact_uid@, i as int);
                }
                let v = !self.contacts[i].starred;
                self.contacts[i].starred = v;
                proof {
                    lemma_contacts_ok_after_update(*old(self), *self, i as int);
                }
                Ok(v)
            },
        }
    }

    /// Lists one owner's edges of one type, starred first and then by
    /// display name ascending.
    pub fn get_contacts(&self, owner_uid: &str, contact_type: ContactType) -> (r: Vec<Contact>)
        requires
            self.wf(),
        ensures
            r@.to_multiset() == contacts_of(self.contacts@, owner_uid@, contact_type).to_multiset(),
            r@.len() == contacts_of(self.contacts@, owner_uid@, contact_type).len(),
            contacts_sorted(r@),
    {
        let mut out: Vec<Contact> = Vec::new();
        let n = self.contacts.len();
        let mut k: usize = 0;
        while k < n
            invariant
                k <= n,
                n == self.contacts@.len(),
                out@ == contacts_of(self.contacts@.take(k as int), owner_uid@, contact_type),
            decreases n - k,
        {
            proof {
                assert(self.contacts@.take(k + 1) =~= self.contacts@.take(k as int).push(
                    self.contacts@[k as int],
                ));
                lemma_contacts_of_push(
                    self.contacts@.take(k as int),
                    self.contacts@[k as int],
                    owner_uid@,
                    contact_type,
                );
            }
            let c = &self.contacts[k];
            if str_eq(c.owner_uid.as_str(), owner_uid) && c.contact_type == contact_type {
                out.push(c.clone());
            }
            k += 1;
        }
        proof {
            assert(self.contacts@.take(n as int) =~= self.contacts@);
            out@.to_multiset_ensures();
        }
        sort_contacts(&mut out);
        out
    }

    /// Removes an edge; removing one that is not there is not an error,
    /// and no reverse edge is touched.
    pub fn remove_contact(&mut self, owner_uid: &str, contact_uid: &str) -> (r: Result<
        (),
        StoreError,
    >)
        requires
            old(self).wf(),
        ensures
            final(self).wf(),
            same_except_contacts(*final(self), *old(self)),
            final(self).next_contact_id == old(self).next_contact_id,
            r is Ok,
            (if pair_present(old(self).contacts@, owner_uid@, contact_uid@) {
                final(self).contacts@ == old(self).contacts@.remove(
                    pair_index(old(self).contacts@, owner_uid@, contact_uid@),
                )
            } else {
                *final(self) == *old(self)
            }),
    {
        match self.find_pair(owner_uid, contact_uid) {
            None => Ok(()),
            Some(i) => {
                proof {
                    lemma_pair_index(self.contacts@, owner_uid@, contact_uid@, i as int);
                }
                self.contacts.remove(i);
                proof {
                    lemma_contacts_ok_after_remove(*old(self), *self, i as int);
                }
                Ok(())
            },
        }
    }
}

/// Replacing one edge while keeping its pair and id intact preserves the
/// contact table invariant.
proof fn lemma_contacts_ok_after_update(db0: Database, db1: Database, i: int)
    requires
        db0.contacts_ok(),
        0 <= i < db0.contacts@.len(),
        db1.contacts@ == db0.contacts@.update(i, db1.contacts@[i]),
        db1.contacts@[i].owner_uid@ == db0.contacts@[i].owner_uid@,
        db1.contacts@[i].contact_uid@ == db0.contacts@[i].contact_uid@,
        db1.contacts@[i].id == db0.contacts@[i].id,
        db1.next_contact_id == db0.next_contact_id,
    ensures
        db1.contacts_ok(),
{
    let c0 = db0.contacts@;
    let c1 = db1.contacts@;
    assert(c1.len() == c0.len());
    assert forall|a: int, b: int|
        0 <= a < b < c1.len() implies !((#[trigger] c1[a]).owner_uid@ == (
    #[trigger] c1[b]).owner_uid@ && c1[a].contact_uid@ == c1[b].contact_uid@) by {
        assert(!(c0[a].owner_uid@ == c0[b].owner_uid@ && c0[a].contact_uid@ == c0[b].contact_uid@));
        if a != i {
            assert(c1[a] == c0[a]);
        }
        if b != i {
            assert(c1[b] == c0[b]);
        }
    }
    assert forall|a: int|
        0 <= a < c1.len() implies (#[trigger] c1[a]).owner_uid@ != c1[a].contact_uid@ by {
        if a != i {
            assert(c1[a] == c0[a]);
        } else {
            assert(c0[i].owner_uid@ != c0[i].contact_uid@);
        }
    }
    assert forall|a: int| 0 <= a < c1.len() implies 1 <= (#[trigger] c1[a]).id
        < db1.next_contact_id by {
        if a != i {
            assert(c1[a] == c0[a]);
        } else {
            assert(c0[i].id == c1[i].id);
        }
    }
}

/// Removing one edge preserves the contact table invariant.
proof fn lemma_contacts_ok_after_remove(db0: Database, db1: Database, i: int)
    requires
        db0.contacts_ok(),
        0 <= i < db0.contacts@.len(),
        db1.contacts@ == db0.contacts@.remove(i),
        db1.next_contact_id == db0.next_contact_id,
    ensures
        db1.contacts_ok(),
{
    let c0 = db0.contacts@;
    let c1 = db1.contacts@;
    assert forall|a: int, b: int|
        0 <= a < b < c1.len() implies !((#[trigger] c1[a]).owner_uid@ == (
    #[trigger] c1[b]).owner_uid@ && c1[a].contact_uid@ == c1[b].contact_uid@) by {
        let a0 = if a < i {
            a
        } else {
            a + 1
        };
        let b0 = if b < i {
            b
        } else {
            b + 1
        };
        assert(c1[a] == c0[a0]);
        assert(c1[b] == c0[b0]);
        assert(!(c0[a0].owner_uid@ == c0[b0].owner_uid@ && c0[a0].contact_uid@
            == c0[b0].contact_uid@));
    }
    assert forall|a: int|
        0 <= a < c1.len() implies (#[trigger] c1[a]).owner_uid@ != c1[a].contact_uid@ by {
        let a0 = if a < i {
            a
        } else {
            a + 1
        };
        assert(c1[a] == c0[a0]);
    }
    assert forall|a: int| 0 <= a < c1.len() implies 1 <= (#[trigger] c1[a]).id
        < db1.next_contact_id by {
        let a0 = if a < i {
            a
        } else {
            a + 1
        };
        assert(c1[a] == c0[a0]);
    }
}

} // verus!
