use vstd::prelude::*;
use crate::error::LedgerError;
use crate::ids::RecordId;
use crate::ledger::{invoice_wf, Store};
use crate::model::Invoice;
use crate::pricing::{derive_status, total_price};

verus! {

/// The invoices of a client, in the order they are stored.
pub open spec fn invoices_for(s: Seq<Invoice>, client_id: RecordId) -> Seq<Invoice>
    decreases s.len(),
{
    if s.len() == 0 {
        Seq::empty()
    } else if s.last().client_id == client_id {
        invoices_for(s.drop_last(), client_id).push(s.last())
    } else {
        invoices_for(s.drop_last(), client_id)
    }
}

impl Store {
    /// The invoice with this identifier.
    pub fn get_invoice(&self, invoice_id: RecordId) -> (r: Result<&Invoice, LedgerError>)
        requires
            self.wf(),
        ensures
            r is Ok <==> self.has_invoice(invoice_id),
            r matches Ok(inv) ==> *inv == self.invoice_of(invoice_id),
            r matches Err(e) ==> e == LedgerError::InvoiceNotFound(invoice_id),
    {
        match self.find_invoice(invoice_id) {
            Some(i) => Ok(&self.invoices[i]),
            None => Err(LedgerError::InvoiceNotFound(invoice_id)),
        }
    }

    /// Copies of the invoices of a client, in the order they are stored.
    pub fn list_invoices_by_client(&self, client_id: RecordId) -> (r: Vec<Invoice>)
        ensures
            r@.len() == invoices_for(self.invoices@, client_id).len(),
            forall|k: int|
                0 <= k < r@.len() ==> (#[trigger] r@[k]).same_as(
                    invoices_for(self.invoices@, client_id)[k],
                ),
    {
        let mut out: Vec<Invoice> = Vec::new();
        let mut i: usize = 0;
        while i < self.invoices.len()
            invariant
                i <= self.invoices@.len(),
                out@.len() == invoices_for(self.invoices@.take(i as int), client_id).len(),
                forall|k: int|
                    0 <= k < out@.len() ==> (#[trigger] out@[k]).same_as(
                        invoices_for(self.invoices@.take(i as int), client_id)[k],
                    ),
            decreases self.invoices@.len() - i,
        {
            assert(self.invoices@.take(i + 1).drop_last() =~= self.invoices@.take(i as int));
            if self.invoices[i].client_id == client_id {
                out.push(self.invoices[i].copied());
            }
            i = i + 1;
        }
        assert(self.invoices@.take(i as int) =~= self.invoices@);
        out
    }

    /// Whether the store is well formed: identifiers unique within each kind
    /// of record, no negative stock, each outstanding balance equal to the
    /// owed figure, each invoice's price and status agreeing with its lines
    /// and payment, and each invoice on a client's list stored for that
    /// client.
    pub fn is_well_formed(&self) -> (r: bool)
        ensures
            r == self.wf(),
    {
        let mut i: usize = 0;
        while i < self.products.len()
            invariant
                i <= self.products@.len(),
                forall|a: int, b: int|
                    0 <= a < i && 0 <= b < self.products@.len() && a != b
                        ==> #[trigger] self.products@[a].id != #[trigger] self.products@[b].id,
                forall|a: int| 0 <= a < i ==> #[trigger] self.products@[a].stock >= 0,
            decreases self.products@.len() - i,
        {
            if self.products[i].stock < 0 {
                return false;
            }
            let mut j: usize = 0;
            while j < self.products.len()
                invariant
                    i < self.products@.len(),
                    j <= self.products@.len(),
                    forall|b: int|
                        0 <= b < j && b != i ==> self.products@[i as int].id != #[trigger] self.products@[b].id,
                decreases self.products@.len() - j,
            {
                if j != i && self.products[i].id == self.products[j].id {
                    return false;
                }
                j = j + 1;
            }
            i = i + 1;
        }
        let mut i: usize = 0;
        while i < self.clients.len()
            invariant
                i <= self.clients@.len(),
                forall|a: int, b: int|
                    0 <= a < i && 0 <= b < self.clients@.len() && a != b
                        ==> #[trigger] self.clients@[a].id != #[trigger] self.clients@[b].id,
                forall|a: int|
                    0 <= a < i ==> #[trigger] self.clients@[a].outstanding_balance
                        == self.clients@[a].total_owed,
            decreases self.clients@.len() - i,
        {
            if self.clients[i].outstanding_balance != self.clients[i].total_owed {
                return false;
            }
            let mut j: usize = 0;
            while j < self.clients.len()
                invariant
                    i < self.clients@.len(),
                    j <= self.clients@.len(),
                    forall|b: int|
                        0 <= b < j && b != i ==> self.clients@[i as int].id != #[trigger] self.clients@[b].id,
                decreases self.clients@.len() - j,
            {
                if j != i && self.clients[i].id == self.clients[j].id {
                    return false;
                }
                j = j + 1;
            }
            i = i + 1;
        }
        let mut i: usize = 0;
        while i < self.invoices.len()
            invariant
                i <= self.invoices@.len(),
                forall|a: int, b: int|
                    0 <= a < i && 0 <= b < self.invoices@.len() && a != b
                        ==> #[trigger] self.invoices@[a].id != #[trigger] self.invoices@[b].id,
                forall|a: int| 0 <= a < i ==> invoice_wf(#[trigger] self.invoices@[a]),
            decreases self.invoices@.len() - i,
        {
            let inv = &self.invoices[i];
            match total_price(&inv.goods) {
                None => {
                    return false;
                },
                Some(t) => {
                    if t != inv.total_price || inv.total_paid > t || derive_status(inv.total_paid, t)
                        != inv.status {
                        return false;
                    }
                },
            }
            let mut j: usize = 0;
            while j < self.invoices.len()
                invariant
                    i < self.invoices@.len(),
                    j <= self.invoices@.len(),
                    forall|b: int|
                        0 <= b < j && b != i ==> self.invoices@[i as int].id != #[trigger] self.invoices@[b].id,
                decreases self.invoices@.len() - j,
            {
                if j != i && self.invoices[i].id == self.invoices[j].id {
                    return false;
                }
                j = j + 1;
            }
            i = i + 1;
        }
        let mut i: usize = 0;
        while i < self.clients.len()
            invariant
                i <= self.clients@.len(),
                forall|a: int, k: int|
                    0 <= a < i && 0 <= k < self.clients@[a].invoices@.len() ==> self.holds_invoice(
                        #[trigger] self.clients@[a].invoices@[k],
                        self.clients@[a].id,
                    ),
            decreases self.clients@.len() - i,
        {
            let mut k: usize = 0;
            while k < self.clients[i].invoices.len()
                invariant
                    i < self.clients@.len(),
                    k <= self.clients@[i as int].invoices@.len(),
                    forall|m: int|
                        0 <= m < k ==> self.holds_invoice(
                            #[trigger] self.clients@[i as int].invoices@[m],
                            self.clients@[i as int].id,
                        ),
                decreases self.clients@[i as int].invoices@.len() - k,
            {
                if !self.has_stored_invoice(self.clients[i].invoices[k], self.clients[i].id) {
                    return false;
                }
                k = k + 1;
            }
            i = i + 1;
        }
        true
    }

    fn has_stored_invoice(&self, id: RecordId, client_id: RecordId) -> (r: bool)
        ensures
            r == self.holds_invoice(id, client_id),
    {
        let mut j: usize = 0;
        while j < self.invoices.len()
            invariant
                j <= self.invoices@.len(),
                forall|w: int|
                    0 <= w < j ==> !(#[trigger] self.invoices@[w].id == id
                        && self.invoices@[w].client_id == client_id),
            decreases self.invoices@.len() - j,
        {
            if self.invoices[j].id == id && self.invoices[j].client_id == client_id {
                return true;
            }
            j = j + 1;
        }
        false
    }
}

} // verus!
