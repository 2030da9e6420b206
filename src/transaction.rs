use vstd::prelude::*;
use crate::differ::stock_changes;
use crate::error::LedgerError;
use crate::ids::RecordId;
use crate::ledger::{client_list_charged, invoice_wf, restocked, Store};
use crate::model::{Goods, Invoice, NewInvoice};
use crate::pricing::{derive_status, goods_total, status_for, total_price};

verus! {

/// What an invoice for `goods` with `total_paid` paid adds to what its client
/// owes.
pub open spec fn owed_for(goods: Seq<Goods>, total_paid: int) -> int {
    goods_total(goods) - total_paid
}

impl Store {
    /// Creating invoice `id` for client `client_id` with the lines `goods` and
    /// `total_paid` paid can be done.
    pub open spec fn create_admits(
        self,
        id: RecordId,
        client_id: RecordId,
        goods: Seq<Goods>,
        total_paid: u64,
    ) -> bool {
        &&& goods_total(goods) <= u64::MAX
        &&& total_paid <= goods_total(goods)
        &&& !self.has_invoice(id)
        &&& self.has_client(client_id)
        &&& self.stock_ok(Seq::empty(), goods)
        &&& self.client_fits(client_id, owed_for(goods, total_paid as int), total_paid as int)
    }

    /// The error with which a creation that cannot be done is refused. The
    /// stock is checked first, then the price and payment, the invoice
    /// identifier, the client, and last the client's figures.
    pub open spec fn create_rejection(
        self,
        id: RecordId,
        client_id: RecordId,
        goods: Seq<Goods>,
        total_paid: u64,
        e: LedgerError,
    ) -> bool {
        let total = goods_total(goods);
        if !self.stock_ok(Seq::empty(), goods) {
            self.stock_rejection(Seq::empty(), goods, e)
        } else if total > u64::MAX {
            e == LedgerError::AmountOutOfRange
        } else if total_paid > total {
            e == LedgerError::InvalidPayment { total_paid, total_price: total as u64 }
        } else if self.has_invoice(id) {
            e == LedgerError::InvoiceExists(id)
        } else if !self.has_client(client_id) {
            e == LedgerError::ClientNotFound(client_id)
        } else {
            e == LedgerError::AmountOutOfRange
        }
    }

    /// `after` is `self` once invoice `id` was created for client
    /// `client_id` with the lines `goods` and `total_paid` paid, at time `now`:
    /// the stock each line takes is gone, the client owes the price less the
    /// payment more and has paid the payment more, and the invoice is stored
    /// last with its derived price and status.
    pub open spec fn created_as(
        self,
        after: Store,
        id: RecordId,
        client_id: RecordId,
        goods: Seq<Goods>,
        total_paid: u64,
        now: i64,
    ) -> bool {
        let inv = after.invoices@.last();
        &&& restocked(self.products@, after.products@, Seq::empty(), goods)
        &&& client_list_charged(
            self.clients@,
            after.clients@,
            self.client_at(client_id),
            owed_for(goods, total_paid as int),
            total_paid as int,
            Some(id),
            now,
        )
        &&& after.clients@[self.client_at(client_id)].invoices@ == self.clients@[self.client_at(
            client_id,
        )].invoices@.push(id)
        &&& after.invoices@.len() == self.invoices@.len() + 1
        &&& forall|j: int|
            0 <= j < self.invoices@.len() ==> #[trigger] after.invoices@[j] == self.invoices@[j]
        &&& inv.id == id
        &&& inv.client_id == client_id
        &&& inv.goods@ == goods
        &&& inv.total_paid == total_paid
        &&& inv.total_price == goods_total(goods)
        &&& inv.status == status_for(total_paid as int, goods_total(goods))
        &&& inv.created_at == now
        &&& inv.updated_at == now
    }

    /// Creates invoice `invoice_id` at time `now`, as one unit of work: the
    /// stock of every product on it goes down by the quantity sold, the
    /// client's figures move by the new debt and payment, and the invoice is
    /// stored with its price and status. Either all of it happens or, with an
    /// error, nothing does.
    pub fn create_invoice(&mut self, invoice_id: RecordId, new_invoice: NewInvoice, now: i64) -> (r:
        Result<(), LedgerError>)
        requires
            old(self).wf(),
        ensures
            final(self).wf(),
            r is Ok <==> old(self).create_admits(
                invoice_id,
                new_invoice.client_id,
                new_invoice.goods@,
                new_invoice.total_paid,
            ),
            r matches Err(e) ==> old(self).create_rejection(
                invoice_id,
                new_invoice.client_id,
                new_invoice.goods@,
                new_invoice.total_paid,
                e,
            ),
            r is Err ==> *final(self) == *old(self),
            r is Ok ==> old(self).created_as(
                *final(self),
                invoice_id,
                new_invoice.client_id,
                new_invoice.goods@,
                new_invoice.total_paid,
                now,
            ),
    {
        let client_id = new_invoice.client_id;
        let paid = new_invoice.total_paid;
        let none: Vec<Goods> = Vec::new();
        let plan = stock_changes(&none, &new_invoice.goods);
        match self.check_stock_plan(&plan, Ghost(none@), Ghost(new_invoice.goods@)) {
            Err(e) => {
                return Err(e);
            },
            Ok(()) => {},
        }
        let total = match total_price(&new_invoice.goods) {
            None => {
                return Err(LedgerError::AmountOutOfRange);
            },
            Some(t) => t,
        };
        if paid > total {
            return Err(LedgerError::InvalidPayment { total_paid: paid, total_price: total });
        }
        if self.find_invoice(invoice_id).is_some() {
            return Err(LedgerError::InvoiceExists(invoice_id));
        }
        let owed_delta: i128 = total as i128 - paid as i128;
        if !self.financial_delta_fits(client_id, owed_delta, paid as i128) {
            if self.find_client(client_id).is_none() {
                return Err(LedgerError::ClientNotFound(client_id));
            }
            return Err(LedgerError::AmountOutOfRange);
        }
        let ghost start = *self;
        self.apply_stock_plan(&plan, Ghost(none@), Ghost(new_invoice.goods@));
        let status = derive_status(paid, total);
        let invoice = Invoice {
            id: invoice_id,
            client_id,
            goods: new_invoice.goods,
            total_paid: paid,
            status,
            total_price: total,
            created_at: now,
            updated_at: now,
        };
        let ghost stocked = *self;
        self.invoices.push(invoice);
        proof {
            assert(self.invoices@ == stocked.invoices@.push(invoice));
            assert forall|i: int, j: int|
                0 <= i < self.invoices@.len() && 0 <= j < self.invoices@.len() && i != j
                    implies #[trigger] self.invoices@[i].id != #[trigger] self.invoices@[j].id by {
                if i == self.invoices@.len() - 1 {
                    assert(self.invoices@[j] == start.invoices@[j]);
                } else if j == self.invoices@.len() - 1 {
                    assert(self.invoices@[i] == start.invoices@[i]);
                }
            }
            assert forall|i: int| 0 <= i < self.invoices@.len() implies invoice_wf(
                #[trigger] self.invoices@[i],
            ) by {
                if i < self.invoices@.len() - 1 {
                    assert(self.invoices@[i] == stocked.invoices@[i]);
                }
            }
            assert forall|a: int, k: int|
                0 <= a < self.clients@.len() && 0 <= k < self.clients@[a].invoices@.len()
                    implies self.holds_invoice(
                    #[trigger] self.clients@[a].invoices@[k],
                    self.clients@[a].id,
                ) by {
                assert(stocked.holds_invoice(self.clients@[a].invoices@[k], self.clients@[a].id));
                let w = choose|w: int|
                    0 <= w < stocked.invoices@.len() && #[trigger] stocked.invoices@[w].id
                        == self.clients@[a].invoices@[k] && stocked.invoices@[w].client_id
                        == self.clients@[a].id;
                assert(self.invoices@[w] == stocked.invoices@[w]);
            }
            assert(self.holds_invoice(invoice_id, client_id)) by {
                assert(self.invoices@[self.invoices@.len() - 1] == invoice);
                assert(self.invoices@[self.invoices@.len() - 1].id == invoice_id);
                assert(self.invoices@[self.invoices@.len() - 1].client_id == client_id);
            }
            let c = start.client_at(client_id);
            assert(!start.clients@[c].invoices@.contains(invoice_id)) by {
                if start.clients@[c].invoices@.contains(invoice_id) {
                    let k = choose|k: int|
                        0 <= k < start.clients@[c].invoices@.len() && start.clients@[c].invoices@[k]
                            == invoice_id;
                    assert(start.holds_invoice(start.clients@[c].invoices@[k], start.clients@[c].id));
                }
            }
        }
        match self.apply_financial_delta(client_id, owed_delta, paid as i128, Some(invoice_id), now) {
            Err(e) => {
                assert(false);
                return Err(e);
            },
            Ok(()) => {},
        }
        Ok(())
    }
}

/// What amending an invoice with the lines `goods` and `total_paid` paid adds
/// to what its client owes: the new debt less the old one.
pub open spec fn owed_change(inv: Invoice, goods: Seq<Goods>, total_paid: int) -> int {
    owed_for(goods, total_paid) - (inv.total_price - inv.total_paid)
}

impl Store {
    /// Amending invoice `id` to the lines `goods` with `total_paid` paid can
    /// be done.
    pub open spec fn amend_admits(self, id: RecordId, goods: Seq<Goods>, total_paid: u64) -> bool {
        let inv = self.invoice_of(id);
        &&& goods_total(goods) <= u64::MAX
        &&& total_paid <= goods_total(goods)
        &&& self.has_invoice(id)
        &&& self.has_client(inv.client_id)
        &&& self.stock_ok(inv.goods@, goods)
        &&& self.client_fits(
            inv.client_id,
            owed_change(inv, goods, total_paid as int),
            total_paid - inv.total_paid,
        )
    }

    /// The error with which an amendment that cannot be done is refused. The
    /// invoice is looked up first, then the stock is checked, then the price
    /// and payment, the invoice's client, and last the client's figures.
    pub open spec fn amend_rejection(
        self,
        id: RecordId,
        goods: Seq<Goods>,
        total_paid: u64,
        e: LedgerError,
    ) -> bool {
        let total = goods_total(goods);
        let inv = self.invoice_of(id);
        if !self.has_invoice(id) {
            e == LedgerError::InvoiceNotFound(id)
        } else if !self.stock_ok(inv.goods@, goods) {
            self.stock_rejection(inv.goods@, goods, e)
        } else if total > u64::MAX {
            e == LedgerError::AmountOutOfRange
        } else if total_paid > total {
            e == LedgerError::InvalidPayment { total_paid, total_price: total as u64 }
        } else if !self.has_client(inv.client_id) {
            e == LedgerError::ClientNotFound(inv.client_id)
        } else {
            e == LedgerError::AmountOutOfRange
        }
    }

    /// `after` is `self` once invoice `id` was amended to the lines `goods`
    /// with `total_paid` paid, at time `now`: each product's stock moved by
    /// what the old lines took less what the new lines take, the client's
    /// figures moved by the change in debt and in payment, and the invoice
    /// replaced in place, keeping its client and creation time.
    pub open spec fn amended_as(
        self,
        after: Store,
        id: RecordId,
        goods: Seq<Goods>,
        total_paid: u64,
        now: i64,
    ) -> bool {
        let idx = self.invoice_at(id);
        let before = self.invoices@[idx];
        let inv = after.invoices@[idx];
        &&& restocked(self.products@, after.products@, before.goods@, goods)
        &&& client_list_charged(
            self.clients@,
            after.clients@,
            self.client_at(before.client_id),
            owed_change(before, goods, total_paid as int),
            total_paid - before.total_paid,
            None,
            now,
        )
        &&& after.invoices@.len() == self.invoices@.len()
        &&& forall|j: int|
            0 <= j < self.invoices@.len() && j != idx ==> #[trigger] after.invoices@[j]
                == self.invoices@[j]
        &&& inv.id == id
        &&& inv.client_id == before.client_id
        &&& inv.goods@ == goods
        &&& inv.total_paid == total_paid
        &&& inv.total_price == goods_total(goods)
        &&& inv.status == status_for(total_paid as int, goods_total(goods))
        &&& inv.created_at == before.created_at
        &&& inv.updated_at == now
    }

    /// Amends invoice `invoice_id` at time `now` to the lines `goods` with
    /// `total_paid` paid, as one unit of work: only the difference between
    /// the old and the new lines moves stock, the client's figures move by
    /// the change in debt and payment, and the invoice is replaced. Either all
    /// of it happens or, with an error, nothing does.
    pub fn amend_invoice(
        &mut self,
        invoice_id: RecordId,
        goods: Vec<Goods>,
        total_paid: u64,
        now: i64,
    ) -> (r: Result<(), LedgerError>)
        requires
            old(self).wf(),
        ensures
            final(self).wf(),
            r is Ok <==> old(self).amend_admits(invoice_id, goods@, total_paid),
            r matches Err(e) ==> old(self).amend_rejection(invoice_id, goods@, total_paid, e),
            r is Err ==> *final(self) == *old(self),
            r is Ok ==> old(self).amended_as(*final(self), invoice_id, goods@, total_paid, now),
    {
        let i = match self.find_invoice(invoice_id) {
            None => {
                return Err(LedgerError::InvoiceNotFound(invoice_id));
            },
            Some(i) => i,
        };
        let client_id = self.invoices[i].client_id;
        let old_paid = self.invoices[i].total_paid;
        let old_price = self.invoices[i].total_price;
        let created_at = self.invoices[i].created_at;
        let ghost prior = self.invoices@[i as int].goods@;
        let plan = stock_changes(&self.invoices[i].goods, &goods);
        match self.check_stock_plan(&plan, Ghost(prior), Ghost(goods@)) {
            Err(e) => {
                return Err(e);
            },
            Ok(()) => {},
        }
        let total = match total_price(&goods) {
            None => {
                return Err(LedgerError::AmountOutOfRange);
            },
            Some(t) => t,
        };
        if total_paid > total {
            return Err(LedgerError::InvalidPayment { total_paid, total_price: total });
        }
        if self.find_client(client_id).is_none() {
            return Err(LedgerError::ClientNotFound(client_id));
        }
        let owed_delta: i128 = (total as i128 - total_paid as i128) - (old_price as i128
            - old_paid as i128);
        let paid_delta: i128 = total_paid as i128 - old_paid as i128;
        match self.apply_financial_delta(client_id, owed_delta, paid_delta, None, now) {
            Err(e) => {
                return Err(e);
            },
            Ok(()) => {},
        }
        self.apply_stock_plan(&plan, Ghost(prior), Ghost(goods@));
        let status = derive_status(total_paid, total);
        let invoice = Invoice {
            id: invoice_id,
            client_id,
            goods,
            total_paid,
            status,
            total_price: total,
            created_at,
            updated_at: now,
        };
        let ghost stocked = *self;
        self.invoices.set(i, invoice);
        proof {
            assert(self.invoices@ == stocked.invoices@.update(i as int, invoice));
            assert forall|a: int, b: int|
                0 <= a < self.invoices@.len() && 0 <= b < self.invoices@.len() && a != b
                    implies #[trigger] self.invoices@[a].id != #[trigger] self.invoices@[b].id by {
                assert(self.invoices@[a].id == stocked.invoices@[a].id);
                assert(self.invoices@[b].id == stocked.invoices@[b].id);
            }
            assert forall|a: int| 0 <= a < self.invoices@.len() implies invoice_wf(
                #[trigger] self.invoices@[a],
            ) by {
                if a != i {
                    assert(self.invoices@[a] == stocked.invoices@[a]);
                }
            }
            assert forall|a: int, k: int|
                0 <= a < self.clients@.len() && 0 <= k < self.clients@[a].invoices@.len()
                    implies self.holds_invoice(
                    #[trigger] self.clients@[a].invoices@[k],
                    self.clients@[a].id,
                ) by {
                assert(stocked.holds_invoice(self.clients@[a].invoices@[k], self.clients@[a].id));
                let w = choose|w: int|
                    0 <= w < stocked.invoices@.len() && #[trigger] stocked.invoices@[w].id
                        == self.clients@[a].invoices@[k] && stocked.invoices@[w].client_id
                        == self.clients@[a].id;
                assert(self.invoices@[w].id == stocked.invoices@[w].id);
                assert(self.invoices@[w].client_id == stocked.invoices@[w].client_id);
            }
        }
        Ok(())
    }
}

} // verus!
