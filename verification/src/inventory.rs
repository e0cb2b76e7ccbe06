//! The inventory ledger: per-owner product records with a derived profit
//! field, name-ordered listings, and the aggregate summary.

use vstd::prelude::*;

use crate::clock;
use crate::models::{
    lemma_fixed_product_bounded, InventorySummary, Product, FIXED_SCALE, MAX_MONEY, MAX_QUANTITY,
};
use crate::store::{
    code_taken_besides, lemma_product_id_index, product_id_index, product_id_present,
    same_except_products, Database,
};
use crate::text::{lemma_lex_le_total, lemma_lex_le_transitive, lex_le, str_eq, str_le};
use crate::StoreError;

verus! {

/// Largest magnitude of one summary term: a product of two in-range
/// fixed-point values.
pub const TERM_BOUND: i128 = 1_000_000_000_000_000_000;

/// The products of one owner, in table order.
pub open spec fn products_of(products: Seq<Product>, owner: Seq<char>) -> Seq<Product> {
    products.filter(|p: Product| p.owner_uid@ == owner)
}

/// A listing ordered by product name ascending.
pub open spec fn products_sorted(s: Seq<Product>) -> bool {
    forall|i: int, j: int|
        0 <= i < j < s.len() ==> lex_le((#[trigger] s[i]).name@, (#[trigger] s[j]).name@)
}

/// Sum of quantity times net value, in squared fixed-point scale.
pub open spec fn sum_net(s: Seq<Product>) -> int
    decreases s.len(),
{
    if s.len() == 0 {
        0
    } else {
        sum_net(s.drop_last()) + s.last().quantity * s.last().net_value
    }
}

/// Sum of quantity times profit value, in squared fixed-point scale.
pub open spec fn sum_profit(s: Seq<Product>) -> int
    decreases s.len(),
{
    if s.len() == 0 {
        0
    } else {
        sum_profit(s.drop_last()) + s.last().quantity * s.last().profit_value
    }
}

/// How many products hold less than 1.00 units.
pub open spec fn oos_count(s: Seq<Product>) -> int
    decreases s.len(),
{
    if s.len() == 0 {
        0
    } else {
        oos_count(s.drop_last()) + if s.last().quantity < FIXED_SCALE {
            1int
        } else {
            0int
        }
    }
}

/// Appending a product extends exactly the listings of its owner.
proof fn lemma_products_of_push(products: Seq<Product>, p: Product, owner: Seq<char>)
    ensures
        products_of(products.push(p), owner) == if p.owner_uid@ == owner {
            products_of(products, owner).push(p)
        } else {
            products_of(products, owner)
        },
{
    reveal(Seq::filter);
    assert(products.push(p).drop_last() =~= products);
}

/// One step of each running sum.
proof fn lemma_sums_push(s: Seq<Product>, p: Product)
    ensures
        sum_net(s.push(p)) == sum_net(s) + p.quantity * p.net_value,
        sum_profit(s.push(p)) == sum_profit(s) + p.quantity * p.profit_value,
        oos_count(s.push(p)) == oos_count(s) + if p.quantity < FIXED_SCALE {
            1int
        } else {
            0int
        },
{
    assert(s.push(p).drop_last() =~= s);
    assert(s.push(p).last() == p);
}

impl Database {
    /// Index of the product with this id, if any.
    fn find_product_by_id(&self, id: i64) -> (r: Option<usize>)
        ensures
            (r matches Some(i) ==> i < self.products@.len() && self.products@[i as int].id == id),
            (r is None ==> !product_id_present(self.products@, id)),
    {
        let n = self.products.len();
        let mut i: usize = 0;
        while i < n
            invariant
                i <= n,
                n == self.products@.len(),
                forall|k: int| 0 <= k < i ==> (#[trigger] self.products@[k]).id != id,
            decreases n - i,
        {
            if self.products[i].id == id {
                return Some(i);
            }
            i += 1;
        }
        None
    }

    /// Index of a product of this owner with this code whose id differs
    /// from `besides`, if any.
    fn find_code(&self, owner_uid: &str, code: &str, besides: i64) -> (r: Option<usize>)
        ensures
            (r matches Some(i) ==> i < self.products@.len() && self.products@[i as int].owner_uid@
                == owner_uid@ && self.products@[i as int].code@ == code@
                && self.products@[i as int].id != besides),
            (r is None ==> !code_taken_besides(self.products@, owner_uid@, code@, besides)),
    {
        let n = self.products.len();
        let mut i: usize = 0;
        while i < n
            invariant
                i <= n,
                n == self.products@.len(),
                forall|k: int|
                    0 <= k < i ==> !((#[trigger] self.products@[k]).owner_uid@ == owner_uid@
                        && self.products@[k].code@ == code@ && self.products@[k].id != besides),
            decreases n - i,
        {
            let p = &self.products[i];
            if p.id != besides && str_eq(p.owner_uid.as_str(), owner_uid) && str_eq(
                p.code.as_str(),
                code,
            ) {
                return Some(i);
            }
            i += 1;
        }
        None
    }

    /// Inserts or updates a product. A record without an id is an insert
    /// and must not collide with an existing (owner, code) key; one with an
    /// id updates that exact record, whose owner and creation time are
    /// kept. The stored profit is always recomputed as sale minus net;
    /// whatever the caller put in `profit_value` is ignored. Out-of-range
    /// quantities or values are rejected.
    pub fn upsert_product(&mut self, p: &Product) -> (r: Result<i64, StoreError>)
        requires
            old(self).wf(),
        ensures
            final(self).wf(),
            same_except_products(*final(self), *old(self)),
            ((r matches Err(StoreError::Validation)) <==> !(0 <= p.quantity <= MAX_QUANTITY && 0
                <= p.net_value <= MAX_MONEY && 0 <= p.sale_value <= MAX_MONEY)),
            (r matches Err(e) ==> ((e == StoreError::Validation || e == StoreError::DuplicateCode
                || e == StoreError::NotFound || e == StoreError::Storage) && *final(self) == *old(
                self,
            ))),
            (p.id == 0 ==> {
                let in_range = 0 <= p.quantity <= MAX_QUANTITY && 0 <= p.net_value <= MAX_MONEY
                    && 0 <= p.sale_value <= MAX_MONEY;
                &&& !(r matches Err(StoreError::NotFound))
                &&& ((r matches Err(StoreError::DuplicateCode)) <==> (in_range
                    && code_taken_besides(old(self).products@, p.owner_uid@, p.code@, 0)))
                &&& ((r matches Err(StoreError::Storage)) <==> (in_range && !code_taken_besides(
                    old(self).products@,
                    p.owner_uid@,
                    p.code@,
                    0,
                ) && old(self).next_product_id == i64::MAX))
                &&& (r matches Ok(id) ==> {
                    let row = final(self).products@.last();
                    &&& final(self).products@ == old(self).products@.push(row)
                    &&& final(self).next_product_id == old(self).next_product_id + 1
                    &&& id == old(self).next_product_id
                    &&& row.id == id
                    &&& row.owner_uid@ == p.owner_uid@
                    &&& row.code@ == p.code@
                    &&& row.name@ == p.name@
                    &&& row.quantity == p.quantity
                    &&& row.net_value == p.net_value
                    &&& row.sale_value == p.sale_value
                    &&& row.profit_value == p.sale_value - p.net_value
                })
            }),
            (p.id != 0 ==> {
                let in_range = 0 <= p.quantity <= MAX_QUANTITY && 0 <= p.net_value <= MAX_MONEY
                    && 0 <= p.sale_value <= MAX_MONEY;
                let present = product_id_present(old(self).products@, p.id);
                let i = product_id_index(old(self).products@, p.id);
                &&& !(r matches Err(StoreError::Storage))
                &&& ((r matches Err(StoreError::NotFound)) <==> (in_range && !present))
                &&& ((r matches Err(StoreError::DuplicateCode)) <==> (in_range && present
                    && code_taken_besides(
                    old(self).products@,
                    old(self).products@[i].owner_uid@,
                    p.code@,
                    p.id,
                )))
                &&& (r matches Ok(id) ==> {
                    let row = final(self).products@[i];
                    &&& id == p.id
                    &&& final(self).products@ == old(self).products@.update(i, row)
                    &&& final(self).next_product_id == old(self).next_product_id
                    &&& row.id == p.id
                    &&& row.owner_uid@ == old(self).products@[i].owner_uid@
                    &&& row.created_at@ == old(self).products@[i].created_at@
                    &&& row.code@ == p.code@
                    &&& row.name@ == p.name@
                    &&& row.quantity == p.quantity
                    &&& row.net_value == p.net_value
                    &&& row.sale_value == p.sale_value
                    &&& row.profit_value == p.sale_value - p.net_value
                })
            }),
    {
        if !(p.quantity >= 0 && p.quantity <= MAX_QUANTITY && p.net_value >= 0 && p.net_value
            <= MAX_MONEY && p.sale_value >= 0 && p.sale_value <= MAX_MONEY) {
            return Err(StoreError::Validation);
        }
        if p.id == 0 {
            if let Some(_) = self.find_code(p.owner_uid.as_str(), p.code.as_str(), 0) {
                proof {
                    assert(code_taken_besides(self.products@, p.owner_uid@, p.code@, 0));
                }
                return Err(StoreError::DuplicateCode);
            }
            if self.next_product_id == i64::MAX {
                return Err(StoreError::Storage);
            }
            let now = clock::now_rfc3339();
            let id = self.next_product_id;
            let row = Product {
                id,
                owner_uid: p.owner_uid.clone(),
                code: p.code.clone(),
                name: p.name.clone(),
                quantity: p.quantity,
                net_value: p.net_value,
                sale_value: p.sale_value,
                profit_value: p.sale_value - p.net_value,
                created_at: now.clone(),
                updated_at: now,
            };
            let ghost rowg = row;
            self.products.push(row);
            self.next_product_id = id + 1;
            proof {
                let p0 = old(self).products@;
                let p1 = self.products@;
                assert(p1 == p0.push(rowg));
                assert forall|a: int, b: int|
                    0 <= a < b < p1.len() implies !((#[trigger] p1[a]).owner_uid@ == (
                #[trigger] p1[b]).owner_uid@ && p1[a].code@ == p1[b].code@) by {
                    if b == p0.len() {
                        assert(p1[a] == p0[a]);
                        assert(1 <= p0[a].id);
                        assert(!(0 <= a < p0.len() && p0[a].owner_uid@ == p.owner_uid@
                            && p0[a].code@ == p.code@ && p0[a].id != 0));
                    } else {
                        assert(p1[a] == p0[a]);
                        assert(p1[b] == p0[b]);
                    }
                }
                assert forall|a: int, b: int|
                    0 <= a < b < p1.len() implies (#[trigger] p1[a]).id != (
                #[trigger] p1[b]).id by {
                    if b == p0.len() {
                        assert(p1[a] == p0[a]);
                    } else {
                        assert(p1[a] == p0[a]);
                        assert(p1[b] == p0[b]);
                    }
                }
                assert forall|a: int|
                    0 <= a < p1.len() implies (#[trigger] p1[a]).valid() && 1 <= p1[a].id
                    < self.next_product_id by {
                    if a < p0.len() {
                        assert(p1[a] == p0[a]);
                    }
                }
            }
            Ok(id)
        } else {
            let i = match self.find_product_by_id(p.id) {
                None => {
                    return Err(StoreError::NotFound);
                },
                Some(i) => i,
            };
            proof {
                lemma_product_id_index(self.products@, p.id, i as int);
            }
            if let Some(_) = self.find_code(self.products[i].owner_uid.as_str(), p.code.as_str(), p.id) {
                proof {
                    assert(code_taken_besides(
                        self.products@,
                        self.products@[i as int].owner_uid@,
                        p.code@,
                        p.id,
                    ));
                }
                return Err(StoreError::DuplicateCode);
            }
            let now = clock::now_rfc3339();
            self.products[i].code = p.code.clone();
            self.products[i].name = p.name.clone();
            self.products[i].quantity = p.quantity;
            self.products[i].net_value = p.net_value;
            self.products[i].sale_value = p.sale_value;
            self.products[i].profit_value = p.sale_value - p.net_value;
            self.products[i].updated_at = now;
            proof {
                let p0 = old(self).products@;
                let p1 = self.products@;
                assert(p1 =~= p0.update(i as int, p1[i as int]));
                assert forall|a: int, b: int|
                    0 <= a < b < p1.len() implies !((#[trigger] p1[a]).owner_uid@ == (
                #[trigger] p1[b]).owner_uid@ && p1[a].code@ == p1[b].code@) by {
                    if a != i as int && b != i as int {
                        assert(p1[a] == p0[a]);
                        assert(p1[b] == p0[b]);
                        assert(!(p0[a].owner_uid@ == p0[b].owner_uid@ && p0[a].code@
                            == p0[b].code@));
                    } else if a == i as int {
                        assert(p1[b] == p0[b]);
                        assert(!(0 <= b < p0.len() && p0[b].owner_uid@ == p0[i as int].owner_uid@
                            && p0[b].code@ == p.code@ && p0[b].id != p.id));
                        assert(p0[b].id != p0[i as int].id);
                    } else {
                        assert(p1[a] == p0[a]);
                        assert(!(0 <= a < p0.len() && p0[a].owner_uid@ == p0[i as int].owner_uid@
                            && p0[a].code@ == p.code@ && p0[a].id != p.id));
                        assert(p0[a].id != p0[i as int].id);
                    }
                }
                assert forall|a: int, b: int|
                    0 <= a < b < p1.len() implies (#[trigger] p1[a]).id != (
                #[trigger] p1[b]).id by {
                    if a != i as int {
                        assert(p1[a] == p0[a]);
                    }
                    if b != i as int {
                        assert(p1[b] == p0[b]);
                    }
                }
                assert forall|a: int|
                    0 <= a < p1.len() implies (#[trigger] p1[a]).valid() && 1 <= p1[a].id
                    < self.next_product_id by {
                    if a != i as int {
                        assert(p1[a] == p0[a]);
                    }
                }
            }
            Ok(p.id)
        }
    }

    /// Lists one owner's products, ordered by name ascending.
    pub fn get_products(&self, owner_uid: &str) -> (r: Vec<Product>)
        requires
            self.wf(),
        ensures
            r@.to_multiset() == products_of(self.products@, owner_uid@).to_multiset(),
            r@.len() == products_of(self.products@, owner_uid@).len(),
            products_sorted(r@),
    {
        let mut out: Vec<Product> = Vec::new();
        let n = self.products.len();
        let mut k: usize = 0;
        while k < n
            invariant
                k <= n,
                n == self.products@.len(),
                out@ == products_of(self.products@.take(k as int), owner_uid@),
            decreases n - k,
        {
            proof {
                assert(self.products@.take(k + 1) =~= self.products@.take(k as int).push(
                    self.products@[k as int],
                ));
                lemma_products_of_push(
                    self.products@.take(k as int),
                    self.products@[k as int],
                    owner_uid@,
                );
            }
            let c = &self.products[k];
            if str_eq(c.owner_uid.as_str(), owner_uid) {
                out.push(c.clone());
            }
            k += 1;
        }
        proof {
            assert(self.products@.take(n as int) =~= self.products@);
            out@.to_multiset_ensures();
        }
        sort_products(&mut out);
        out
    }

    /// Deletes a product by id; deleting an absent id is not an error.
    pub fn delete_product(&mut self, id: i64) -> (r: Result<(), StoreError>)
        requires
            old(self).wf(),
        ensures
            final(self).wf(),
            same_except_products(*final(self), *old(self)),
            final(self).next_product_id == old(self).next_product_id,
            r is Ok,
            (if product_id_present(old(self).products@, id) {
                final(self).products@ == old(self).products@.remove(
                    product_id_index(old(self).products@, id),
                )
            } else {
                *final(self) == *old(self)
            }),
    {
        match self.find_product_by_id(id) {
            None => Ok(()),
            Some(i) => {
                proof {
                    lemma_product_id_index(self.products@, id, i as int);
                }
                self.products.remove(i);
                proof {
                    let p0 = old(self).products@;
                    let p1 = self.products@;
                    assert forall|a: int, b: int|
                        0 <= a < b < p1.len() implies !((#[trigger] p1[a]).owner_uid@ == (
                    #[trigger] p1[b]).owner_uid@ && p1[a].code@ == p1[b].code@) && p1[a].id
                        != p1[b].id by {
                        let a0 = if a < i as int {
                            a
                        } else {
                            a + 1
                        };
                        let b0 = if b < i as int {
                            b
                        } else {
                            b + 1
                        };
                        assert(p1[a] == p0[a0]);
                        assert(p1[b] == p0[b0]);
                        assert(!(p0[a0].owner_uid@ == p0[b0].owner_uid@ && p0[a0].code@
                            == p0[b0].code@));
                        assert(p0[a0].id != p0[b0].id);
                    }
                    assert forall|a: int|
                        0 <= a < p1.len() implies (#[trigger] p1[a]).valid() && 1 <= p1[a].id
                        < self.next_product_id by {
                        let a0 = if a < i as int {
                            a
                        } else {
                            a + 1
                        };
                        assert(p1[a] == p0[a0]);
                    }
                }
                Ok(())
            },
        }
    }

    /// Computes the aggregate summary of one owner's inventory in a single
    /// pass: product count, total net value and total profit over the
    /// stock on hand, and how many products are out of stock.
    pub fn inventory_summary(&self, owner_uid: &str) -> (r: InventorySummary)
        requires
            self.wf(),
        ensures
            ({
                let ps = products_of(self.products@, owner_uid@);
                &&& r.total_products == ps.len()
                &&& r.total_net_value == sum_net(ps)
                &&& r.total_profit_value == sum_profit(ps)
                &&& r.out_of_stock_count == oos_count(ps)
            }),
    {
        let mut count: u64 = 0;
        let mut net_acc: i128 = 0;
        let mut profit_acc: i128 = 0;
        let mut oos: u64 = 0;
        let n = self.products.len();
        let mut k: usize = 0;
        while k < n
            invariant
                k <= n,
                n == self.products@.len(),
                self.wf(),
                count == products_of(self.products@.take(k as int), owner_uid@).len(),
                count <= k,
                net_acc == sum_net(products_of(self.products@.take(k as int), owner_uid@)),
                profit_acc == sum_profit(products_of(self.products@.take(k as int), owner_uid@)),
                oos == oos_count(products_of(self.products@.take(k as int), owner_uid@)),
                oos <= count,
                -(count as int) * TERM_BOUND <= net_acc <= (count as int) * TERM_BOUND,
                -(count as int) * TERM_BOUND <= profit_acc <= (count as int) * TERM_BOUND,
            decreases n - k,
        {
            proof {
                assert(self.products@.take(k + 1) =~= self.products@.take(k as int).push(
                    self.products@[k as int],
                ));
                lemma_products_of_push(
                    self.products@.take(k as int),
                    self.products@[k as int],
                    owner_uid@,
                );
            }
            let prod = &self.products[k];
            if str_eq(prod.owner_uid.as_str(), owner_uid) {
                proof {
                    lemma_sums_push(
                        products_of(self.products@.take(k as int), owner_uid@),
                        self.products@[k as int],
                    );
                    assert(self.products@[k as int].valid());
                    lemma_fixed_product_bounded(prod.quantity as int, prod.net_value as int);
                    lemma_fixed_product_bounded(prod.quantity as int, prod.profit_value as int);
                    assert(count as int <= k < n <= usize::MAX);
                    assert((count as int + 1) * TERM_BOUND == (count as int) * TERM_BOUND
                        + TERM_BOUND);
                }
                count = count + 1;
                net_acc = net_acc + (prod.quantity as i128) * (prod.net_value as i128);
                profit_acc = profit_acc + (prod.quantity as i128) * (prod.profit_value as i128);
                if prod.quantity < FIXED_SCALE {
                    oos = oos + 1;
                }
            }
            k += 1;
        }
        proof {
            assert(self.products@.take(n as int) =~= self.products@);
        }
        InventorySummary {
            total_products: count,
            total_net_value: net_acc,
            total_profit_value: profit_acc,
            out_of_stock_count: oos,
        }
    }
}

/// Sorts a listing by product name ascending by insertion, preserving the
/// multiset of records.
fn sort_products(v: &mut Vec<Product>)
    ensures
        final(v)@.to_multiset() == old(v)@.to_multiset(),
        final(v)@.len() == old(v)@.len(),
        products_sorted(final(v)@),
{
    let mut i: usize = 0;
    while i < v.len()
        invariant
            i <= v@.len(),
            v@.len() == old(v)@.len(),
            v@.to_multiset() == old(v)@.to_multiset(),
            products_sorted(v@.take(i as int)),
        decreases v@.len() - i,
    {
        let ghost v0 = v@;
        let x = v.remove(i);
        let ghost v1 = v@;
        let mut j: usize = 0;
        while j < i && str_le(v[j].name.as_str(), x.name.as_str())
            invariant
                j <= i,
                i < v0.len(),
                v@ == v1,
                v1 == v0.remove(i as int),
                x == v0[i as int],
                forall|k: int| 0 <= k < j ==> lex_le((#[trigger] v1[k]).name@, x.name@),
            decreases i - j,
        {
            j += 1;
        }
        v.insert(j, x);
        proof {
            crate::contacts::lemma_seq_insert_multiset(v1, j as int, x);
            v0.to_multiset_ensures();
            assert(v1.to_multiset() == v0.to_multiset().remove(x));
            assert(v0.contains(x));
            assert(v0.to_multiset().contains(x));
            assert(v0.to_multiset().remove(x).insert(x) =~= v0.to_multiset());
            assert(v@ == v1.insert(j as int, x));
            assert(v@.to_multiset() == v0.to_multiset());
            let pre0 = v0.take(i as int);
            assert(products_sorted(pre0));
            assert forall|a: int, b: int|
                0 <= a < b < i + 1 implies lex_le(
                (#[trigger] v@[a]).name@,
                (#[trigger] v@[b]).name@,
            ) by {
                assert(forall|k: int| 0 <= k < i ==> v1[k] == pre0[k]);
                if j < i {
                    assert(!lex_le(v1[j as int].name@, x.name@));
                    lemma_lex_le_total(x.name@, v1[j as int].name@);
                    assert(lex_le(x.name@, v1[j as int].name@));
                }
                if b < j {
                    assert(v@[a] == v1[a] && v@[b] == v1[b]);
                } else if b == j {
                    assert(v@[b] == x);
                    assert(v@[a] == v1[a]);
                    assert(lex_le(v1[a].name@, x.name@));
                } else {
                    assert(v@[b] == v1[b - 1]);
                    if a < j {
                        assert(v@[a] == v1[a]);
                        if a == b - 1 {
                        } else {
                            assert(lex_le(pre0[a].name@, pre0[b - 1].name@));
                        }
                    } else if a == j {
                        assert(v@[a] == x);
                        if j == b - 1 {
                            assert(lex_le(x.name@, v1[b - 1].name@));
                        } else {
                            assert(lex_le(pre0[j as int].name@, pre0[b - 1].name@));
                            lemma_lex_le_transitive(x.name@, v1[j as int].name@, v1[b - 1].name@);
                        }
                    } else {
                        assert(v@[a] == v1[a - 1]);
                        if a - 1 == b - 1 {
                        } else {
                            assert(lex_le(pre0[a - 1].name@, pre0[b - 1].name@));
                        }
                    }
                }
            }
            assert(products_sorted(v@.take(i + 1)));
        }
        i += 1;
    }
    proof {
        assert(v@.take(v@.len() as int) =~= v@);
    }
}

} // verus!
