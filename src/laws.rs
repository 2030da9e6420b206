use vstd::prelude::*;
use crate::differ::{lemma_qty_unmentioned, stock_change, touched};
use crate::error::LedgerError;
use crate::ids::RecordId;
use crate::ledger::{invoice_wf, restocked, Store};
use crate::model::{Goods, Status};
use crate::pricing::{goods_total, status_for};

verus! {

/// An invoice's status follows its payment: nothing paid is unpaid, part of
/// the price paid is partly paid, and the whole price or more paid is paid.
/// (Nothing paid against a price of zero already covers the price, and is
/// paid.)
pub proof fn status_follows_payment(total_paid: u64, total_price: u64)
    requires
        total_paid > 0 || total_price > 0,
    ensures
        total_paid == 0 ==> status_for(total_paid as int, total_price as int) == Status::UnPaid,
        0 < total_paid < total_price ==> status_for(total_paid as int, total_price as int)
            == Status::PartialPaid,
        total_paid >= total_price ==> status_for(total_paid as int, total_price as int)
            == Status::Paid,
{
}

/// Amending an invoice with the lines it already has and the payment it
/// already records moves no stock and changes no client's figures.
pub proof fn amend_with_same_lines_is_neutral(before: Store, after: Store, id: RecordId, now: i64)
    requires
        before.wf(),
        before.has_invoice(id),
        before.amended_as(
            after,
            id,
            before.invoice_of(id).goods@,
            before.invoice_of(id).total_paid,
            now,
        ),
    ensures
        after.products@ == before.products@,
        after.clients@.len() == before.clients@.len(),
        forall|j: int|
            0 <= j < before.clients@.len() ==> {
                &&& (#[trigger] after.clients@[j]).total_owed == before.clients@[j].total_owed
                &&& after.clients@[j].total_paid == before.clients@[j].total_paid
                &&& after.clients@[j].outstanding_balance == before.clients@[j].outstanding_balance
            },
{
    let inv = before.invoice_of(id);
    assert(invoice_wf(before.invoices@[before.invoice_at(id)]));
    assert forall|j: int| 0 <= j < before.products@.len() implies #[trigger] after.products@[j]
        == before.products@[j] by {
        assert(stock_change(inv.goods@, inv.goods@, before.products@[j].id) == 0);
    }
    assert(after.products@ =~= before.products@);
}

/// Amending an invoice with the lines it already has and the payment it
/// already records succeeds while its client and every product on it are
/// still stored.
pub proof fn amend_with_same_lines_is_admitted(s: Store, id: RecordId)
    requires
        s.wf(),
        s.has_invoice(id),
        s.has_client(s.invoice_of(id).client_id),
        s.products_known(s.invoice_of(id).goods@, s.invoice_of(id).goods@),
    ensures
        s.amend_admits(id, s.invoice_of(id).goods@, s.invoice_of(id).total_paid),
{
    let inv = s.invoice_of(id);
    let g = inv.goods@;
    assert(invoice_wf(s.invoices@[s.invoice_at(id)]));
    assert forall|pid: RecordId| #[trigger] touched(g, g, pid) implies s.stock_of(pid)
        + stock_change(g, g, pid) >= 0 by {
        assert(s.has_product(pid));
        assert(s.products@[s.product_at(pid)].stock >= 0);
    }
}

/// A payment above the price of the lines is never accepted. Once the stock
/// can move (and, on amendment, the invoice is found) it is refused with
/// `InvalidPayment`, on creation and on amendment alike, whatever the lines.
pub proof fn overpayment_is_refused(
    s: Store,
    id: RecordId,
    client_id: RecordId,
    goods: Seq<Goods>,
    total_paid: u64,
    e: LedgerError,
)
    requires
        total_paid > goods_total(goods),
    ensures
        !s.create_admits(id, client_id, goods, total_paid),
        !s.amend_admits(id, goods, total_paid),
        s.stock_ok(Seq::empty(), goods) ==> (s.create_rejection(id, client_id, goods, total_paid, e)
            <==> e == (LedgerError::InvalidPayment {
            total_paid,
            total_price: goods_total(goods) as u64,
        })),
        s.has_invoice(id) && s.stock_ok(s.invoice_of(id).goods@, goods) ==> (s.amend_rejection(
            id,
            goods,
            total_paid,
            e,
        ) <==> e == (LedgerError::InvalidPayment {
            total_paid,
            total_price: goods_total(goods) as u64,
        })),
{
}

/// Lines that would take more of a stored product than it has are refused
/// with `InsufficientStock`, on creation and on amendment alike, whatever
/// else is wrong with the request (but, on amendment, an unknown invoice).
pub proof fn shortfall_is_refused(
    s: Store,
    id: RecordId,
    client_id: RecordId,
    goods: Seq<Goods>,
    total_paid: u64,
    e: LedgerError,
)
    ensures
        !s.stock_covers(Seq::empty(), goods) ==> {
            &&& !s.create_admits(id, client_id, goods, total_paid)
            &&& s.create_rejection(id, client_id, goods, total_paid, e) ==> e is InsufficientStock
        },
        s.has_invoice(id) && !s.stock_covers(s.invoice_of(id).goods@, goods) ==> {
            &&& !s.amend_admits(id, goods, total_paid)
            &&& s.amend_rejection(id, goods, total_paid, e) ==> e is InsufficientStock
        },
{
}

/// Moving stock from the lines `from` to the lines `to` where the move is
/// possible leaves no product with negative stock.
pub proof fn restocking_keeps_stock_non_negative(
    before: Store,
    after: Store,
    from: Seq<Goods>,
    to: Seq<Goods>,
)
    requires
        before.wf(),
        before.stock_ok(from, to),
        restocked(before.products@, after.products@, from, to),
    ensures
        forall|j: int| 0 <= j < after.products@.len() ==> #[trigger] after.products@[j].stock >= 0,
{
    assert forall|j: int| 0 <= j < after.products@.len() implies #[trigger] after.products@[j].stock
        >= 0 by {
        let pid = before.products@[j].id;
        if touched(from, to, pid) {
            assert(before.has_product(pid));
            let k = before.product_at(pid);
            assert(before.products@[k].id == before.products@[j].id);
            assert(before.stock_of(pid) + stock_change(from, to, pid) >= 0);
        } else {
            lemma_qty_unmentioned(from, pid);
            lemma_qty_unmentioned(to, pid);
        }
    }
}

/// Creating an invoice never leaves a product with negative stock.
pub proof fn creation_keeps_stock_non_negative(
    before: Store,
    after: Store,
    id: RecordId,
    client_id: RecordId,
    goods: Seq<Goods>,
    total_paid: u64,
    now: i64,
)
    requires
        before.wf(),
        before.create_admits(id, client_id, goods, total_paid),
        before.created_as(after, id, client_id, goods, total_paid, now),
    ensures
        forall|j: int| 0 <= j < after.products@.len() ==> #[trigger] after.products@[j].stock >= 0,
{
    restocking_keeps_stock_non_negative(before, after, Seq::empty(), goods);
}

/// Amending an invoice never leaves a product with negative stock.
pub proof fn amendment_keeps_stock_non_negative(
    before: Store,
    after: Store,
    id: RecordId,
    goods: Seq<Goods>,
    total_paid: u64,
    now: i64,
)
    requires
        before.wf(),
        before.amend_admits(id, goods, total_paid),
        before.amended_as(after, id, goods, total_paid, now),
    ensures
        forall|j: int| 0 <= j < after.products@.len() ==> #[trigger] after.products@[j].stock >= 0,
{
    restocking_keeps_stock_non_negative(before, after, before.invoice_of(id).goods@, goods);
}

} // verus!
