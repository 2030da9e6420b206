use vstd::prelude::*;
use crate::differ::{
    contains_id, deltas_bounded, is_stock_plan, lemma_qty_unmentioned, stock_change, touched,
    StockChange,
};
use crate::error::LedgerError;
use crate::ids::RecordId;
use crate::model::{Client, Goods, Invoice, Product};
use crate::pricing::{goods_total, status_for};

verus! {

/// The records that the invoice transaction engine reads and changes:
/// products with their stock, clients with their balances, and invoices.
#[derive(Clone, Debug, PartialEq, Eq)]
pub struct Store {
    pub products: Vec<Product>,
    pub clients: Vec<Client>,
    pub invoices: Vec<Invoice>,
}

impl Product {
    /// This product with another stock.
    pub open spec fn with_stock(self, stock: int) -> Product {
        Product { stock: stock as i64, ..self }
    }
}

/// `after` is `before` with the stock of each product moved as replacing the
/// lines `from` by `to` moves it.
pub open spec fn restocked(
    before: Seq<Product>,
    after: Seq<Product>,
    from: Seq<Goods>,
    to: Seq<Goods>,
) -> bool {
    &&& after.len() == before.len()
    &&& forall|j: int|
        0 <= j < before.len() ==> #[trigger] after[j] == before[j].with_stock(
            before[j].stock + stock_change(from, to, before[j].id),
        )
}

/// The client list of `after` is the client list of `before` with the
/// client at `idx` updated by `client_charged`, and no other client changed.
pub open spec fn client_list_charged(
    before: Seq<Client>,
    after: Seq<Client>,
    idx: int,
    owed_delta: int,
    paid_delta: int,
    invoice: Option<RecordId>,
    now: i64,
) -> bool {
    &&& after.len() == before.len()
    &&& 0 <= idx < before.len()
    &&& client_charged(before[idx], after[idx], owed_delta, paid_delta, invoice, now)
    &&& forall|j: int| 0 <= j < before.len() && j != idx ==> #[trigger] after[j] == before[j]
}

/// `after` is the client `before` with the owed and paid figures moved by
/// the given amounts, the outstanding balance set to the new owed figure,
/// the invoice (if any) on its list of invoices, and the update time `now`.
pub open spec fn client_charged(
    before: Client,
    after: Client,
    owed_delta: int,
    paid_delta: int,
    invoice: Option<RecordId>,
    now: i64,
) -> bool {
    &&& after.id == before.id
    &&& after.username == before.username
    &&& after.email == before.email
    &&& after.phone == before.phone
    &&& after.company_name == before.company_name
    &&& after.city == before.city
    &&& after.address == before.address
    &&& after.status == before.status
    &&& after.created_at == before.created_at
    &&& after.total_owed == before.total_owed + owed_delta
    &&& after.total_paid == before.total_paid + paid_delta
    &&& after.outstanding_balance == after.total_owed
    &&& after.updated_at == now
    &&& after.invoices@ == match invoice {
        Some(id) => if before.invoices@.contains(id) {
            before.invoices@
        } else {
            before.invoices@.push(id)
        },
        None => before.invoices@,
    }
}

/// An invoice whose price and status agree with its lines and payment.
pub open spec fn invoice_wf(inv: Invoice) -> bool {
    &&& inv.total_price == goods_total(inv.goods@)
    &&& inv.total_paid <= inv.total_price
    &&& inv.status == status_for(inv.total_paid as int, inv.total_price as int)
}

impl Store {
    pub open spec fn has_product(self, pid: RecordId) -> bool {
        exists|i: int| 0 <= i < self.products@.len() && #[trigger] self.products@[i].id == pid
    }

    pub open spec fn has_client(self, cid: RecordId) -> bool {
        exists|i: int| 0 <= i < self.clients@.len() && #[trigger] self.clients@[i].id == cid
    }

    pub open spec fn has_invoice(self, id: RecordId) -> bool {
        exists|i: int| 0 <= i < self.invoices@.len() && #[trigger] self.invoices@[i].id == id
    }

    pub open spec fn product_at(self, pid: RecordId) -> int {
        choose|i: int| 0 <= i < self.products@.len() && #[trigger] self.products@[i].id == pid
    }

    pub open spec fn client_at(self, cid: RecordId) -> int {
        choose|i: int| 0 <= i < self.clients@.len() && #[trigger] self.clients@[i].id == cid
    }

    pub open spec fn invoice_at(self, id: RecordId) -> int {
        choose|i: int| 0 <= i < self.invoices@.len() && #[trigger] self.invoices@[i].id == id
    }

    /// The stock of a stored product.
    pub open spec fn stock_of(self, pid: RecordId) -> int {
        self.products@[self.product_at(pid)].stock as int
    }

    /// The stored client with this identifier.
    pub open spec fn client_of(self, cid: RecordId) -> Client {
        self.clients@[self.client_at(cid)]
    }

    /// The stored invoice with this identifier.
    pub open spec fn invoice_of(self, id: RecordId) -> Invoice {
        self.invoices@[self.invoice_at(id)]
    }

    /// Identifiers are unique within each kind of record, no stock is
    /// negative, each client's outstanding balance is its owed figure, each
    /// invoice's price and status agree with its lines and payment, and each
    /// invoice on a client's list is a stored invoice of that client.
    pub open spec fn wf(self) -> bool {
        &&& forall|i: int, j: int|
            0 <= i < self.products@.len() && 0 <= j < self.products@.len() && i != j
                ==> #[trigger] self.products@[i].id != #[trigger] self.products@[j].id
        &&& forall|i: int, j: int|
            0 <= i < self.clients@.len() && 0 <= j < self.clients@.len() && i != j
                ==> #[trigger] self.clients@[i].id != #[trigger] self.clients@[j].id
        &&& forall|i: int, j: int|
            0 <= i < self.invoices@.len() && 0 <= j < self.invoices@.len() && i != j
                ==> #[trigger] self.invoices@[i].id != #[trigger] self.invoices@[j].id
        &&& forall|i: int| 0 <= i < self.products@.len() ==> #[trigger] self.products@[i].stock >= 0
        &&& forall|i: int|
            0 <= i < self.clients@.len() ==> #[trigger] self.clients@[i].outstanding_balance
                == self.clients@[i].total_owed
        &&& forall|i: int| 0 <= i < self.invoices@.len() ==> invoice_wf(#[trigger] self.invoices@[i])
        &&& forall|i: int, k: int|
            0 <= i < self.clients@.len() && 0 <= k < self.clients@[i].invoices@.len()
                ==> self.holds_invoice(#[trigger] self.clients@[i].invoices@[k], self.clients@[i].id)
    }

    /// A stored invoice has this identifier and belongs to this client.
    pub open spec fn holds_invoice(self, id: RecordId, client_id: RecordId) -> bool {
        exists|j: int|
            0 <= j < self.invoices@.len() && #[trigger] self.invoices@[j].id == id
                && self.invoices@[j].client_id == client_id
    }

    /// A store with no records.
    pub fn new() -> (r: Store)
        ensures
            r.wf(),
            r.products@.len() == 0,
            r.clients@.len() == 0,
            r.invoices@.len() == 0,
    {
        Store { products: Vec::new(), clients: Vec::new(), invoices: Vec::new() }
    }

    pub(crate) fn find_product(&self, pid: RecordId) -> (r: Option<usize>)
        requires
            self.wf(),
        ensures
            match r {
                Some(i) => i < self.products@.len() && self.products@[i as int].id == pid
                    && self.has_product(pid) && self.product_at(pid) == i,
                None => !self.has_product(pid),
            },
    {
        let mut i: usize = 0;
        while i < self.products.len()
            invariant
                self.wf(),
                i <= self.products@.len(),
                forall|j: int| 0 <= j < i ==> self.products@[j].id != pid,
            decreases self.products@.len() - i,
        {
            if self.products[i].id == pid {
                assert(self.has_product(pid));
                proof {
                    let k = self.product_at(pid);
                    assert(self.products@[k].id == self.products@[i as int].id);
                }
                return Some(i);
            }
            i = i + 1;
        }
        None
    }

    pub(crate) fn find_client(&self, cid: RecordId) -> (r: Option<usize>)
        requires
            self.wf(),
        ensures
            match r {
                Some(i) => i < self.clients@.len() && self.clients@[i as int].id == cid
                    && self.has_client(cid) && self.client_at(cid) == i,
                None => !self.has_client(cid),
            },
    {
        let mut i: usize = 0;
        while i < self.clients.len()
            invariant
                self.wf(),
                i <= self.clients@.len(),
                forall|j: int| 0 <= j < i ==> self.clients@[j].id != cid,
            decreases self.clients@.len() - i,
        {
            if self.clients[i].id == cid {
                assert(self.has_client(cid));
                proof {
                    let k = self.client_at(cid);
                    assert(self.clients@[k].id == self.clients@[i as int].id);
                }
                return Some(i);
            }
            i = i + 1;
        }
        None
    }

    pub(crate) fn find_invoice(&self, id: RecordId) -> (r: Option<usize>)
        requires
            self.wf(),
        ensures
            match r {
                Some(i) => i < self.invoices@.len() && self.invoices@[i as int].id == id
                    && self.has_invoice(id) && self.invoice_at(id) == i,
                None => !self.has_invoice(id),
            },
    {
        let mut i: usize = 0;
        while i < self.invoices.len()
            invariant
                self.wf(),
                i <= self.invoices@.len(),
                forall|j: int| 0 <= j < i ==> self.invoices@[j].id != id,
            decreases self.invoices@.len() - i,
        {
            if self.invoices[i].id == id {
                assert(self.has_invoice(id));
                proof {
                    let k = self.invoice_at(id);
                    assert(self.invoices@[k].id == self.invoices@[i as int].id);
                }
                return Some(i);
            }
            i = i + 1;
        }
        None
    }
}

/// Whether one of the first `k` adjustments is for this product.
pub open spec fn planned_before(plan: Seq<StockChange>, k: int, pid: RecordId) -> bool {
    exists|m: int| 0 <= m < k && #[trigger] plan[m].product_id == pid
}

impl Store {
    /// Every product that the lines `from` or `to` name is stored.
    pub open spec fn products_known(self, from: Seq<Goods>, to: Seq<Goods>) -> bool {
        forall|pid: RecordId| #[trigger] touched(from, to, pid) ==> self.has_product(pid)
    }

    /// No stored stock falls below zero when `from` is replaced by `to`.
    pub open spec fn stock_covers(self, from: Seq<Goods>, to: Seq<Goods>) -> bool {
        forall|pid: RecordId|
            #[trigger] touched(from, to, pid) && self.has_product(pid) ==> self.stock_of(pid)
                + stock_change(from, to, pid) >= 0
    }

    /// No stock rises beyond what an `i64` holds when `from` is replaced by `to`.
    pub open spec fn stock_fits(self, from: Seq<Goods>, to: Seq<Goods>) -> bool {
        forall|pid: RecordId|
            #[trigger] touched(from, to, pid) ==> self.stock_of(pid) + stock_change(from, to, pid)
                <= i64::MAX
    }

    /// The stock can move from the lines `from` to the lines `to`.
    pub open spec fn stock_ok(self, from: Seq<Goods>, to: Seq<Goods>) -> bool {
        &&& self.products_known(from, to)
        &&& self.stock_covers(from, to)
        &&& self.stock_fits(from, to)
    }

    /// The error with which a move of stock from the lines `from` to the lines `to` that cannot
    /// be made is refused: a shortfall of a stored product first, then a
    /// missing product, then a stock out of range.
    pub open spec fn stock_rejection(self, from: Seq<Goods>, to: Seq<Goods>, e: LedgerError) -> bool {
        if !self.stock_covers(from, to) {
            e matches LedgerError::InsufficientStock { product_id, available, shortfall }
                && touched(from, to, product_id) && self.has_product(product_id)
                && available == self.stock_of(product_id) && shortfall == -(available
                + stock_change(from, to, product_id)) && shortfall > 0
        } else if !self.products_known(from, to) {
            e matches LedgerError::ProductNotFound(p) && touched(from, to, p) && !self.has_product(p)
        } else {
            e == LedgerError::AmountOutOfRange
        }
    }

    /// The figures of a stored client stay within what a `u64` holds when
    /// moved by the given amounts.
    pub open spec fn client_fits(self, cid: RecordId, owed_delta: int, paid_delta: int) -> bool {
        let c = self.client_of(cid);
        &&& 0 <= c.total_owed + owed_delta <= u64::MAX
        &&& 0 <= c.total_paid + paid_delta <= u64::MAX
    }

    /// The stock of a product.
    pub fn get_stock(&self, product_id: RecordId) -> (r: Result<i64, LedgerError>)
        requires
            self.wf(),
        ensures
            r is Ok <==> self.has_product(product_id),
            r matches Ok(s) ==> s == self.stock_of(product_id),
            r matches Err(e) ==> e == LedgerError::ProductNotFound(product_id),
    {
        match self.find_product(product_id) {
            Some(i) => Ok(self.products[i].stock),
            None => Err(LedgerError::ProductNotFound(product_id)),
        }
    }

    fn set_stock(&mut self, i: usize, stock: i64)
        requires
            old(self).wf(),
            i < old(self).products@.len(),
            stock >= 0,
        ensures
            final(self).wf(),
            final(self).products@ == old(self).products@.update(
                i as int,
                old(self).products@[i as int].with_stock(stock as int),
            ),
            final(self).clients == old(self).clients,
            final(self).invoices == old(self).invoices,
    {
        self.products[i].stock = stock;
        proof {
            assert forall|a: int, b: int|
                0 <= a < self.products@.len() && 0 <= b < self.products@.len() && a != b
                    implies #[trigger] self.products@[a].id != #[trigger] self.products@[b].id by {
                assert(self.products@[a].id == old(self).products@[a].id);
                assert(self.products@[b].id == old(self).products@[b].id);
            }
        }
    }

    /// Adds `delta` to the stock of a product. It is refused, and nothing
    /// changes, where the product is unknown, where the stock would fall below
    /// zero, or where it would exceed what an `i64` holds.
    pub fn adjust_stock(&mut self, product_id: RecordId, delta: i64) -> (r: Result<(), LedgerError>)
        requires
            old(self).wf(),
        ensures
            final(self).wf(),
            !old(self).has_product(product_id) ==> r == Err::<(), LedgerError>(
                LedgerError::ProductNotFound(product_id),
            ),
            old(self).has_product(product_id) && old(self).stock_of(product_id) + delta < 0 ==> r
                == Err::<(), LedgerError>(
                LedgerError::InsufficientStock {
                    product_id,
                    available: old(self).stock_of(product_id) as i64,
                    shortfall: (-(old(self).stock_of(product_id) + delta)) as u128,
                },
            ),
            old(self).has_product(product_id) && old(self).stock_of(product_id) + delta > i64::MAX
                ==> r == Err::<(), LedgerError>(LedgerError::AmountOutOfRange),
            r is Ok <==> old(self).has_product(product_id) && 0 <= old(self).stock_of(product_id)
                + delta <= i64::MAX,
            r is Err ==> *final(self) == *old(self),
            r is Ok ==> old(self).has_product(product_id) && final(self).products@
                == old(self).products@.update(
                old(self).product_at(product_id),
                old(self).products@[old(self).product_at(product_id)].with_stock(
                    old(self).stock_of(product_id) + delta,
                ),
            ) && final(self).clients == old(self).clients && final(self).invoices
                == old(self).invoices,
    {
        match self.find_product(product_id) {
            None => Err(LedgerError::ProductNotFound(product_id)),
            Some(i) => {
                let stock = self.products[i].stock;
                let moved: i128 = stock as i128 + delta as i128;
                if moved < 0 {
                    Err(
                        LedgerError::InsufficientStock {
                            product_id,
                            available: stock,
                            shortfall: (-moved) as u128,
                        },
                    )
                } else if moved > i64::MAX as i128 {
                    Err(LedgerError::AmountOutOfRange)
                } else {
                    self.set_stock(i, moved as i64);
                    Ok(())
                }
            },
        }
    }

    /// Checks that the stock can move by the adjustments `plan`, which is the
    /// movement from the lines `from` to the lines `to`.
    pub(crate) fn check_stock_plan(
        &self,
        plan: &Vec<StockChange>,
        Ghost(from): Ghost<Seq<Goods>>,
        Ghost(to): Ghost<Seq<Goods>>,
    ) -> (r: Result<(), LedgerError>)
        requires
            self.wf(),
            is_stock_plan(plan@, from, to),
            deltas_bounded(plan@),
        ensures
            r is Ok <==> self.stock_ok(from, to),
            r matches Err(e) ==> self.stock_rejection(from, to, e),
    {
        let mut k: usize = 0;
        while k < plan.len()
            invariant
                self.wf(),
                is_stock_plan(plan@, from, to),
                deltas_bounded(plan@),
                k <= plan@.len(),
                forall|m: int|
                    0 <= m < k && self.has_product(#[trigger] plan@[m].product_id) ==> self.stock_of(
                        plan@[m].product_id,
                    ) + plan@[m].delta >= 0,
            decreases plan@.len() - k,
        {
            let pid = plan[k].product_id;
            assert(touched(from, to, plan@[k as int].product_id));
            match self.find_product(pid) {
                None => {},
                Some(i) => {
                    let stock = self.products[i].stock;
                    let moved: i128 = stock as i128 + plan[k].delta;
                    if moved < 0 {
                        return Err(
                            LedgerError::InsufficientStock {
                                product_id: pid,
                                available: stock,
                                shortfall: (-moved) as u128,
                            },
                        );
                    }
                },
            }
            k = k + 1;
        }
        assert forall|pid: RecordId| #[trigger] touched(from, to, pid) && self.has_product(pid)
            implies self.stock_of(pid) + stock_change(from, to, pid) >= 0 by {
            let m = choose|m: int| 0 <= m < plan@.len() && #[trigger] plan@[m].product_id == pid;
            assert(self.has_product(plan@[m].product_id));
        }
        k = 0;
        while k < plan.len()
            invariant
                self.wf(),
                is_stock_plan(plan@, from, to),
                self.stock_covers(from, to),
                k <= plan@.len(),
                forall|m: int| 0 <= m < k ==> self.has_product(#[trigger] plan@[m].product_id),
            decreases plan@.len() - k,
        {
            let pid = plan[k].product_id;
            if self.find_product(pid).is_none() {
                assert(touched(from, to, plan@[k as int].product_id));
                return Err(LedgerError::ProductNotFound(pid));
            }
            k = k + 1;
        }
        assert forall|pid: RecordId| #[trigger] touched(from, to, pid) implies self.has_product(pid) by {
            let m = choose|m: int| 0 <= m < plan@.len() && #[trigger] plan@[m].product_id == pid;
            assert(self.has_product(plan@[m].product_id));
        }
        k = 0;
        while k < plan.len()
            invariant
                self.wf(),
                is_stock_plan(plan@, from, to),
                deltas_bounded(plan@),
                self.products_known(from, to),
                self.stock_covers(from, to),
                k <= plan@.len(),
                forall|m: int|
                    0 <= m < k ==> self.stock_of(#[trigger] plan@[m].product_id) + plan@[m].delta
                        <= i64::MAX,
            decreases plan@.len() - k,
        {
            let pid = plan[k].product_id;
            assert(touched(from, to, plan@[k as int].product_id));
            match self.find_product(pid) {
                None => {
                    return Err(LedgerError::ProductNotFound(pid));
                },
                Some(i) => {
                    let moved: i128 = self.products[i].stock as i128 + plan[k].delta;
                    if moved > i64::MAX as i128 {
                        return Err(LedgerError::AmountOutOfRange);
                    }
                },
            }
            k = k + 1;
        }
        assert forall|pid: RecordId| #[trigger] touched(from, to, pid) implies self.stock_of(pid)
            + stock_change(from, to, pid) <= i64::MAX by {
            let m = choose|m: int| 0 <= m < plan@.len() && #[trigger] plan@[m].product_id == pid;
            assert(self.stock_of(plan@[m].product_id) + plan@[m].delta <= i64::MAX);
        }
        Ok(())
    }
}

impl Store {
    /// Moves the stock by the adjustments `plan`, the movement from the lines
    /// `from` to the lines `to`, which has been checked to be possible.
    pub(crate) fn apply_stock_plan(
        &mut self,
        plan: &Vec<StockChange>,
        Ghost(from): Ghost<Seq<Goods>>,
        Ghost(to): Ghost<Seq<Goods>>,
    )
        requires
            old(self).wf(),
            is_stock_plan(plan@, from, to),
            deltas_bounded(plan@),
            old(self).stock_ok(from, to),
        ensures
            final(self).wf(),
            restocked(old(self).products@, final(self).products@, from, to),
            final(self).clients == old(self).clients,
            final(self).invoices == old(self).invoices,
    {
        let ghost start = *self;
        let mut k: usize = 0;
        while k < plan.len()
            invariant
                self.wf(),
                start.wf(),
                is_stock_plan(plan@, from, to),
                deltas_bounded(plan@),
                start.stock_ok(from, to),
                k <= plan@.len(),
                self.products@.len() == start.products@.len(),
                self.clients == start.clients,
                self.invoices == start.invoices,
                forall|j: int|
                    0 <= j < start.products@.len() ==> #[trigger] self.products@[j]
                        == start.products@[j].with_stock(
                        if planned_before(plan@, k as int, start.products@[j].id) {
                            start.products@[j].stock + stock_change(from, to, start.products@[j].id)
                        } else {
                            start.products@[j].stock as int
                        },
                    ),
            decreases plan@.len() - k,
        {
            let pid = plan[k].product_id;
            let delta = plan[k].delta;
            assert(touched(from, to, plan@[k as int].product_id));
            match self.find_product(pid) {
                None => {
                    assert(self.products@[start.product_at(pid)].id == pid);
                    assert(false);
                },
                Some(i) => {
                    proof {
                        let s = start.product_at(pid);
                        assert(start.products@[s].id == pid);
                        assert(self.products@[s].id == pid);
                        assert(s == i);
                        if planned_before(plan@, k as int, pid) {
                            let m = choose|m: int| 0 <= m < k && #[trigger] plan@[m].product_id == pid;
                            assert(plan@[m].product_id != plan@[k as int].product_id);
                        }
                    }
                    let moved: i128 = self.products[i].stock as i128 + delta;
                    let ghost before = *self;
                    self.set_stock(i, moved as i64);
                    proof {
                        assert forall|j: int| 0 <= j < start.products@.len() implies #[trigger] self.products@[j]
                            == start.products@[j].with_stock(
                            if planned_before(plan@, k + 1, start.products@[j].id) {
                                start.products@[j].stock + stock_change(from, to, start.products@[j].id)
                            } else {
                                start.products@[j].stock as int
                            },
                        ) by {
                            if j == i {
                                assert(plan@[k as int].product_id == start.products@[j].id);
                            } else {
                                assert(before.products@[j] == self.products@[j]);
                                assert(start.products@[j].id == before.products@[j].id);
                                if planned_before(plan@, k + 1, start.products@[j].id) {
                                    let m = choose|m: int| 0 <= m < k + 1 && #[trigger] plan@[m].product_id
                                        == start.products@[j].id;
                                    if m == k {
                                        assert(start.products@[j].id == start.products@[i as int].id);
                                    }
                                    assert(planned_before(plan@, k as int, start.products@[j].id));
                                }
                            }
                        }
                    }
                },
            }
            k = k + 1;
        }
        proof {
            assert forall|j: int| 0 <= j < start.products@.len() implies #[trigger] self.products@[j]
                == start.products@[j].with_stock(
                start.products@[j].stock + stock_change(from, to, start.products@[j].id),
            ) by {
                let pid = start.products@[j].id;
                if touched(from, to, pid) {
                    let m = choose|m: int| 0 <= m < plan@.len() && #[trigger] plan@[m].product_id == pid;
                    assert(planned_before(plan@, k as int, pid));
                } else {
                    lemma_qty_unmentioned(from, pid);
                    lemma_qty_unmentioned(to, pid);
                    if planned_before(plan@, k as int, pid) {
                        let m = choose|m: int| 0 <= m < k && #[trigger] plan@[m].product_id == pid;
                        assert(touched(from, to, plan@[m].product_id));
                    }
                }
            }
        }
    }

    /// Whether the client is stored and its figures stay within what a `u64`
    /// holds when moved by the given amounts.
    pub(crate) fn financial_delta_fits(&self, client_id: RecordId, owed_delta: i128, paid_delta: i128) -> (r:
        bool)
        requires
            self.wf(),
        ensures
            r == (self.has_client(client_id) && self.client_fits(
                client_id,
                owed_delta as int,
                paid_delta as int,
            )),
    {
        match self.find_client(client_id) {
            None => false,
            Some(i) => {
                let owed = self.clients[i].total_owed;
                let paid = self.clients[i].total_paid;
                !(owed_delta < -(owed as i128) || owed_delta > (u64::MAX - owed) as i128 || paid_delta
                    < -(paid as i128) || paid_delta > (u64::MAX - paid) as i128)
            },
        }
    }

    /// Moves a client's owed and paid figures by the given signed amounts,
    /// sets the outstanding balance to the new owed figure, puts `invoice` (if
    /// any, a stored invoice of that client) on the client's list of invoices
    /// unless it is there already, and records the update time `now`. It is refused, and nothing changes,
    /// where the client is unknown or a figure would leave what a `u64` holds.
    pub fn apply_financial_delta(
        &mut self,
        client_id: RecordId,
        owed_delta: i128,
        paid_delta: i128,
        invoice: Option<RecordId>,
        now: i64,
    ) -> (r: Result<(), LedgerError>)
        requires
            old(self).wf(),
            invoice matches Some(id) ==> old(self).holds_invoice(id, client_id),
        ensures
            final(self).wf(),
            !old(self).has_client(client_id) ==> r == Err::<(), LedgerError>(
                LedgerError::ClientNotFound(client_id),
            ),
            old(self).has_client(client_id) && !old(self).client_fits(
                client_id,
                owed_delta as int,
                paid_delta as int,
            ) ==> r == Err::<(), LedgerError>(LedgerError::AmountOutOfRange),
            r is Ok <==> old(self).has_client(client_id) && old(self).client_fits(
                client_id,
                owed_delta as int,
                paid_delta as int,
            ),
            r is Err ==> *final(self) == *old(self),
            r is Ok ==> client_list_charged(
                old(self).clients@,
                final(self).clients@,
                old(self).client_at(client_id),
                owed_delta as int,
                paid_delta as int,
                invoice,
                now,
            ) && final(self).products == old(self).products && final(self).invoices == old(
                self,
            ).invoices,
    {
        match self.find_client(client_id) {
            None => Err(LedgerError::ClientNotFound(client_id)),
            Some(i) => {
                if !self.financial_delta_fits(client_id, owed_delta, paid_delta) {
                    return Err(LedgerError::AmountOutOfRange);
                }
                let owed = self.clients[i].total_owed;
                let paid = self.clients[i].total_paid;
                let new_owed = (owed as i128 + owed_delta) as u64;
                let new_paid = (paid as i128 + paid_delta) as u64;
                let ghost before = self.clients@;
                self.clients[i].total_owed = new_owed;
                self.clients[i].total_paid = new_paid;
                self.clients[i].outstanding_balance = new_owed;
                self.clients[i].updated_at = now;
                match invoice {
                    Some(id) => {
                        if !contains_id(&self.clients[i].invoices, id) {
                            self.clients[i].invoices.push(id);
                        }
                    },
                    None => {},
                }
                proof {
                    assert forall|a: int, b: int|
                        0 <= a < self.clients@.len() && 0 <= b < self.clients@.len() && a != b
                            implies #[trigger] self.clients@[a].id != #[trigger] self.clients@[b].id by {
                        assert(self.clients@[a].id == before[a].id);
                        assert(self.clients@[b].id == before[b].id);
                    }
                    assert forall|j: int| 0 <= j < self.clients@.len() implies #[trigger] self.clients@[j].outstanding_balance
                        == self.clients@[j].total_owed by {
                        if j != i {
                            assert(self.clients@[j] == before[j]);
                        }
                    }
                    assert forall|a: int, k: int|
                        0 <= a < self.clients@.len() && 0 <= k < self.clients@[a].invoices@.len()
                            implies self.holds_invoice(
                            #[trigger] self.clients@[a].invoices@[k],
                            self.clients@[a].id,
                        ) by {
                        if a != i {
                            assert(self.clients@[a] == before[a]);
                            assert(old(self).holds_invoice(before[a].invoices@[k], before[a].id));
                        } else if k < before[a].invoices@.len() {
                            assert(self.clients@[a].invoices@[k] == before[a].invoices@[k]);
                            assert(old(self).holds_invoice(before[a].invoices@[k], before[a].id));
                        }
                    }
                }
                Ok(())
            },
        }
    }
}

} // verus!
