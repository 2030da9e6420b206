use accounting::error::LedgerError;
use accounting::ledger::Store;
use accounting::model::{
    Client, ClinetStatus, Goods, Invoice, NewClient, NewInvoice, NewProduct, Product,
    ProductUpdate, Status,
};

const A: u128 = 0xa;
const B: u128 = 0xb;
const C: u128 = 0xc;
const ALICE: u128 = 0x100;
const INV: u128 = 0x1000;

fn line(product_id: u128, price: u64, quantity: u32) -> Goods {
    Goods { name: format!("item {}", product_id), price, quantity, product_id }
}

fn product(id: u128, stock: i64) -> Product {
    Product {
        id,
        name: format!("product {}", id),
        discription: None,
        price: 10,
        stock,
        created_at: 1,
        updated_at: 1,
    }
}

fn client(id: u128) -> Client {
    Client {
        id,
        username: "alice".to_string(),
        email: Some("alice@example.com".to_string()),
        phone: "555".to_string(),
        company_name: "Acme".to_string(),
        city: "Springfield".to_string(),
        address: "1 Main St".to_string(),
        status: ClinetStatus::Active,
        invoices: Vec::new(),
        total_owed: 0,
        total_paid: 0,
        outstanding_balance: 0,
        created_at: 1,
        updated_at: 1,
    }
}

fn store() -> Store {
    let mut s = Store::new();
    s.products.push(product(A, 10));
    s.products.push(product(B, 10));
    s.products.push(product(C, 1));
    s.clients.push(client(ALICE));
    assert!(s.is_well_formed());
    s
}

fn stock(s: &Store, id: u128) -> i64 {
    s.get_stock(id).unwrap()
}

fn new_invoice(goods: Vec<Goods>, total_paid: u64) -> NewInvoice {
    NewInvoice { client_id: ALICE, goods, total_paid }
}

#[test]
fn create_invoice_moves_stock_and_balance() {
    let mut s = store();
    s.create_invoice(INV, new_invoice(vec![line(A, 100, 2), line(B, 50, 1)], 40), 77).unwrap();
    assert_eq!(stock(&s, A), 8);
    assert_eq!(stock(&s, B), 9);
    assert_eq!(stock(&s, C), 1);
    let c = &s.clients[0];
    assert_eq!(c.total_owed, 210);
    assert_eq!(c.total_paid, 40);
    assert_eq!(c.outstanding_balance, 210);
    assert_eq!(c.invoices, vec![INV]);
    assert_eq!(c.updated_at, 77);
    let inv = s.get_invoice(INV).unwrap();
    assert_eq!(inv.total_price, 250);
    assert_eq!(inv.total_paid, 40);
    assert_eq!(inv.status, Status::PartialPaid);
    assert_eq!(inv.created_at, 77);
    assert_eq!(inv.client_id, ALICE);
    assert!(s.is_well_formed());
}

#[test]
fn create_invoice_status_follows_payment() {
    let mut s = store();
    s.create_invoice(1, new_invoice(vec![line(A, 100, 1)], 100), 5).unwrap();
    s.create_invoice(2, new_invoice(vec![line(A, 100, 1)], 0), 5).unwrap();
    assert_eq!(s.get_invoice(1).unwrap().status, Status::Paid);
    assert_eq!(s.get_invoice(2).unwrap().status, Status::UnPaid);
}

#[test]
fn create_invoice_insufficient_stock_changes_nothing() {
    let mut s = store();
    let before = s.clone();
    let r = s.create_invoice(INV, new_invoice(vec![line(A, 1, 2), line(C, 1, 3)], 0), 9);
    assert_eq!(
        r,
        Err(LedgerError::InsufficientStock { product_id: C, available: 1, shortfall: 2 })
    );
    assert_eq!(s, before);
}

#[test]
fn create_invoice_counts_repeated_lines_together() {
    let mut s = store();
    let before = s.clone();
    let r = s.create_invoice(INV, new_invoice(vec![line(A, 1, 6), line(A, 1, 6)], 0), 9);
    assert_eq!(
        r,
        Err(LedgerError::InsufficientStock { product_id: A, available: 10, shortfall: 2 })
    );
    assert_eq!(s, before);
}

#[test]
fn create_invoice_rejects_overpayment() {
    let mut s = store();
    let before = s.clone();
    let r = s.create_invoice(INV, new_invoice(vec![line(A, 10, 1), line(B, 10, 1)], 21), 9);
    assert_eq!(r, Err(LedgerError::InvalidPayment { total_paid: 21, total_price: 20 }));
    assert_eq!(s, before);
    let r = s.create_invoice(INV, new_invoice(Vec::new(), 1), 9);
    assert_eq!(r, Err(LedgerError::InvalidPayment { total_paid: 1, total_price: 0 }));
    assert_eq!(s, before);
}

#[test]
fn create_invoice_unknown_references() {
    let mut s = store();
    let before = s.clone();
    let r = s.create_invoice(INV, new_invoice(vec![line(0x77, 1, 1)], 0), 9);
    assert_eq!(r, Err(LedgerError::ProductNotFound(0x77)));
    let r = s.create_invoice(
        INV,
        NewInvoice { client_id: 0x999, goods: vec![line(A, 1, 1)], total_paid: 0 },
        9,
    );
    assert_eq!(r, Err(LedgerError::ClientNotFound(0x999)));
    assert_eq!(s, before);
}

#[test]
fn create_invoice_twice_with_one_id() {
    let mut s = store();
    s.create_invoice(INV, new_invoice(vec![line(A, 1, 1)], 0), 9).unwrap();
    let before = s.clone();
    let r = s.create_invoice(INV, new_invoice(vec![line(A, 1, 1)], 0), 9);
    assert_eq!(r, Err(LedgerError::InvoiceExists(INV)));
    assert_eq!(s, before);
}

#[test]
fn create_invoice_price_out_of_range() {
    let mut s = store();
    let before = s.clone();
    let r = s.create_invoice(INV, new_invoice(vec![line(A, u64::MAX, 2)], 0), 9);
    assert_eq!(r, Err(LedgerError::AmountOutOfRange));
    assert_eq!(s, before);
}

#[test]
fn create_invoice_balance_out_of_range() {
    let mut s = store();
    s.clients[0].total_owed = u64::MAX;
    s.clients[0].outstanding_balance = u64::MAX;
    let before = s.clone();
    let r = s.create_invoice(INV, new_invoice(vec![line(A, 5, 1)], 0), 9);
    assert_eq!(r, Err(LedgerError::AmountOutOfRange));
    assert_eq!(s, before);
}

#[test]
fn amend_invoice_moves_only_the_difference() {
    let mut s = store();
    s.create_invoice(INV, new_invoice(vec![line(A, 10, 2)], 0), 1).unwrap();
    assert_eq!(stock(&s, A), 8);
    s.amend_invoice(INV, vec![line(A, 10, 5), line(B, 10, 1)], 0, 2).unwrap();
    assert_eq!(stock(&s, A), 5);
    assert_eq!(stock(&s, B), 9);
    let inv = s.get_invoice(INV).unwrap();
    assert_eq!(inv.total_price, 60);
    assert_eq!(inv.created_at, 1);
    assert_eq!(inv.updated_at, 2);
    assert_eq!(s.clients[0].total_owed, 60);
    assert!(s.is_well_formed());
}

#[test]
fn amend_invoice_removed_line_restores_stock() {
    let mut s = store();
    s.create_invoice(INV, new_invoice(vec![line(A, 10, 3)], 10), 1).unwrap();
    assert_eq!(stock(&s, A), 7);
    s.amend_invoice(INV, Vec::new(), 0, 2).unwrap();
    assert_eq!(stock(&s, A), 10);
    let c = &s.clients[0];
    assert_eq!(c.total_owed, 0);
    assert_eq!(c.total_paid, 0);
    assert_eq!(s.get_invoice(INV).unwrap().status, Status::Paid);
}

#[test]
fn amend_invoice_same_lines_is_neutral() {
    let mut s = store();
    let goods = vec![line(A, 10, 3), line(B, 4, 2)];
    s.create_invoice(INV, new_invoice(goods.clone(), 20), 1).unwrap();
    let before = s.clone();
    s.amend_invoice(INV, goods, 20, 2).unwrap();
    assert_eq!(s.products, before.products);
    assert_eq!(s.clients[0].total_owed, before.clients[0].total_owed);
    assert_eq!(s.clients[0].total_paid, before.clients[0].total_paid);
    assert_eq!(s.clients[0].outstanding_balance, before.clients[0].outstanding_balance);
}

#[test]
fn amend_invoice_moves_balance_by_the_change() {
    let mut s = store();
    s.create_invoice(INV, new_invoice(vec![line(A, 10, 3)], 10), 1).unwrap();
    assert_eq!(s.clients[0].total_owed, 20);
    s.amend_invoice(INV, vec![line(A, 10, 4)], 25, 2).unwrap();
    assert_eq!(s.clients[0].total_owed, 15);
    assert_eq!(s.clients[0].total_paid, 25);
    assert_eq!(s.clients[0].outstanding_balance, 15);
    assert_eq!(s.clients[0].invoices, vec![INV]);
}

#[test]
fn amend_invoice_rejections_change_nothing() {
    let mut s = store();
    s.create_invoice(INV, new_invoice(vec![line(A, 10, 2)], 0), 1).unwrap();
    let before = s.clone();
    assert_eq!(
        s.amend_invoice(INV, vec![line(A, 10, 1)], 11, 2),
        Err(LedgerError::InvalidPayment { total_paid: 11, total_price: 10 })
    );
    assert_eq!(
        s.amend_invoice(0x4444, vec![line(A, 10, 1)], 0, 2),
        Err(LedgerError::InvoiceNotFound(0x4444))
    );
    assert_eq!(
        s.amend_invoice(INV, vec![line(A, 10, 2), line(0x77, 1, 1)], 0, 2),
        Err(LedgerError::ProductNotFound(0x77))
    );
    assert_eq!(
        s.amend_invoice(INV, vec![line(A, 10, 13)], 0, 2),
        Err(LedgerError::InsufficientStock { product_id: A, available: 8, shortfall: 3 })
    );
    assert_eq!(s, before);
}

#[test]
fn amend_invoice_client_gone() {
    let mut s = store();
    s.create_invoice(INV, new_invoice(vec![line(A, 10, 2)], 0), 1).unwrap();
    s.clients.clear();
    let before = s.clone();
    assert_eq!(
        s.amend_invoice(INV, vec![line(A, 10, 1)], 0, 2),
        Err(LedgerError::ClientNotFound(ALICE))
    );
    assert_eq!(s, before);
}

#[test]
fn stock_never_negative_over_a_sequence() {
    let mut s = store();
    let _ = s.create_invoice(1, new_invoice(vec![line(C, 1, 1)], 0), 1);
    let _ = s.create_invoice(2, new_invoice(vec![line(C, 1, 1)], 0), 1);
    let _ = s.amend_invoice(1, vec![line(C, 1, 2)], 0, 1);
    let _ = s.amend_invoice(1, vec![line(A, 1, 11)], 0, 1);
    for p in &s.products {
        assert!(p.stock >= 0);
    }
    assert_eq!(stock(&s, C), 0);
    assert!(s.is_well_formed());
}

#[test]
fn stock_ledger_adjusts_and_refuses() {
    let mut s = store();
    s.adjust_stock(A, -4).unwrap();
    assert_eq!(stock(&s, A), 6);
    s.adjust_stock(A, 5).unwrap();
    assert_eq!(stock(&s, A), 11);
    let before = s.clone();
    assert_eq!(
        s.adjust_stock(A, -12),
        Err(LedgerError::InsufficientStock { product_id: A, available: 11, shortfall: 1 })
    );
    assert_eq!(s.adjust_stock(A, i64::MAX), Err(LedgerError::AmountOutOfRange));
    assert_eq!(s.adjust_stock(0x55, 1), Err(LedgerError::ProductNotFound(0x55)));
    assert_eq!(s.get_stock(0x55), Err(LedgerError::ProductNotFound(0x55)));
    assert_eq!(s, before);
    s.adjust_stock(A, -11).unwrap();
    assert_eq!(stock(&s, A), 0);
    s.adjust_stock(A, i64::MAX).unwrap();
    assert_eq!(stock(&s, A), i64::MAX);
}

#[test]
fn billing_ledger_applies_deltas() {
    let mut s = store();
    s.create_invoice(7, new_invoice(vec![line(A, 10, 1)], 0), 40).unwrap();
    s.apply_financial_delta(ALICE, 30, 10, Some(7), 50).unwrap();
    s.apply_financial_delta(ALICE, -5, 0, Some(7), 60).unwrap();
    let c = &s.clients[0];
    assert_eq!(c.total_owed, 35);
    assert_eq!(c.total_paid, 10);
    assert_eq!(c.outstanding_balance, 35);
    assert_eq!(c.invoices, vec![7]);
    assert_eq!(c.updated_at, 60);
    let before = s.clone();
    assert_eq!(s.apply_financial_delta(ALICE, -36, 0, None, 70), Err(LedgerError::AmountOutOfRange));
    assert_eq!(s.apply_financial_delta(0x1, 1, 0, None, 70), Err(LedgerError::ClientNotFound(0x1)));
    assert_eq!(s, before);
    s.apply_financial_delta(ALICE, 0, 0, None, 80).unwrap();
    assert_eq!(s.clients[0].total_owed, 35);
    assert_eq!(s.clients[0].updated_at, 80);
}

#[test]
fn billing_ledger_lists_invoice_once() {
    let mut s = store();
    s.clients[0].invoices.clear();
    s.create_invoice(8, new_invoice(vec![line(B, 1, 1)], 0), 1).unwrap();
    assert_eq!(s.clients[0].invoices, vec![8]);
    s.apply_financial_delta(ALICE, 1, 0, Some(8), 2).unwrap();
    assert_eq!(s.clients[0].invoices, vec![8]);
    assert!(s.is_well_formed());
}

#[test]
fn create_invoice_reports_stock_before_client() {
    let mut s = store();
    let before = s.clone();
    let r = s.create_invoice(
        INV,
        NewInvoice { client_id: 0x999, goods: vec![line(C, 1, 3)], total_paid: 0 },
        9,
    );
    assert_eq!(
        r,
        Err(LedgerError::InsufficientStock { product_id: C, available: 1, shortfall: 2 })
    );
    let r = s.create_invoice(INV, new_invoice(vec![line(C, 1, 3)], 100), 9);
    assert_eq!(
        r,
        Err(LedgerError::InsufficientStock { product_id: C, available: 1, shortfall: 2 })
    );
    assert_eq!(s, before);
}

#[test]
fn amend_invoice_reports_missing_invoice_first() {
    let mut s = store();
    s.create_invoice(INV, new_invoice(vec![line(A, 10, 2)], 0), 1).unwrap();
    let before = s.clone();
    assert_eq!(
        s.amend_invoice(0x4444, vec![line(A, 10, 1)], 500, 2),
        Err(LedgerError::InvoiceNotFound(0x4444))
    );
    assert_eq!(
        s.amend_invoice(0x4444, vec![line(A, u64::MAX, 2)], 0, 2),
        Err(LedgerError::InvoiceNotFound(0x4444))
    );
    assert_eq!(s, before);
}

#[test]
fn amend_invoice_reports_stock_before_payment_and_client() {
    let mut s = store();
    s.create_invoice(INV, new_invoice(vec![line(A, 10, 2)], 0), 1).unwrap();
    let shortfall = Err(LedgerError::InsufficientStock { product_id: A, available: 8, shortfall: 3 });
    let before = s.clone();
    assert_eq!(s.amend_invoice(INV, vec![line(A, 10, 13)], 1000, 2), shortfall);
    s.clients.clear();
    let cleared = s.clone();
    assert_eq!(s.amend_invoice(INV, vec![line(A, 10, 13)], 0, 2), shortfall);
    assert_eq!(s, cleared);
    assert_ne!(s, before);
}

#[test]
fn list_invoices_by_client_keeps_order() {
    let mut s = store();
    s.clients.push(client(0x200));
    s.create_invoice(3, new_invoice(vec![line(A, 1, 1)], 0), 1).unwrap();
    s.create_invoice(
        4,
        NewInvoice { client_id: 0x200, goods: vec![line(B, 1, 1)], total_paid: 0 },
        1,
    )
    .unwrap();
    s.create_invoice(5, new_invoice(vec![line(B, 2, 1)], 1), 1).unwrap();
    let ids: Vec<u128> = s.list_invoices_by_client(ALICE).iter().map(|i| i.id).collect();
    assert_eq!(ids, vec![3, 5]);
    let theirs: Vec<Invoice> = s.list_invoices_by_client(0x200);
    assert_eq!(theirs.len(), 1);
    assert_eq!(theirs[0], s.invoices[1]);
    assert!(s.list_invoices_by_client(0x300).is_empty());
    assert_eq!(s.get_invoice(0x9), Err(LedgerError::InvoiceNotFound(0x9)));
}

#[test]
fn well_formedness_check() {
    let mut s = store();
    assert!(s.is_well_formed());
    s.products.push(product(A, 3));
    assert!(!s.is_well_formed());
    let mut s = store();
    s.products[0].stock = -1;
    assert!(!s.is_well_formed());
    let mut s = store();
    s.clients[0].outstanding_balance = 3;
    assert!(!s.is_well_formed());
    let mut s = store();
    s.create_invoice(INV, new_invoice(vec![line(A, 10, 1)], 0), 1).unwrap();
    s.invoices[0].status = Status::Paid;
    assert!(!s.is_well_formed());
    let mut s = store();
    s.clients[0].invoices.push(0x5);
    assert!(!s.is_well_formed());
    let mut s = store();
    s.clients.push(client(0x200));
    s.create_invoice(INV, new_invoice(vec![line(A, 10, 1)], 0), 1).unwrap();
    assert!(s.is_well_formed());
    s.clients[1].invoices.push(INV);
    assert!(!s.is_well_formed());
}

#[test]
fn new_records_start_clean() {
    let c = Client::from_new(
        NewClient {
            username: "bob".to_string(),
            email: None,
            phone: "1".to_string(),
            company_name: "B".to_string(),
            city: "C".to_string(),
            address: "D".to_string(),
        },
        0x42,
        9,
    );
    assert_eq!(c.id, 0x42);
    assert_eq!(c.status, ClinetStatus::Active);
    assert!(c.invoices.is_empty());
    assert_eq!((c.total_owed, c.total_paid, c.outstanding_balance), (0, 0, 0));
    assert_eq!((c.created_at, c.updated_at), (9, 9));
    let p = Product::from_new(
        NewProduct { name: "n".to_string(), discription: None, price: 5, stock: 3 },
        0x43,
        9,
    )
    .unwrap();
    assert_eq!((p.id, p.price, p.stock, p.created_at), (0x43, 5, 3, 9));
    let r = Product::from_new(
        NewProduct { name: "n".to_string(), discription: None, price: 5, stock: -1 },
        0x44,
        9,
    );
    assert_eq!(r, Err(LedgerError::AmountOutOfRange));
}

#[test]
fn amend_invoice_reports_shortfall_before_missing_product() {
    let mut s = store();
    s.create_invoice(INV, new_invoice(vec![line(A, 10, 2)], 0), 1).unwrap();
    let before = s.clone();
    assert_eq!(
        s.amend_invoice(INV, vec![line(0x77, 1, 1), line(A, 10, 13)], 0, 2),
        Err(LedgerError::InsufficientStock { product_id: A, available: 8, shortfall: 3 })
    );
    assert_eq!(
        s.create_invoice(2, new_invoice(vec![line(0x77, 1, 1), line(C, 1, 2)], 0), 2),
        Err(LedgerError::InsufficientStock { product_id: C, available: 1, shortfall: 1 })
    );
    assert_eq!(s, before);
}

#[test]
fn product_update_changes_given_fields() {
    let mut p = product(A, 4);
    p.apply_update(
        ProductUpdate { name: Some("renamed".to_string()), price: Some(99), ..Default::default() },
        20,
    )
    .unwrap();
    assert_eq!(p.name, "renamed");
    assert_eq!(p.price, 99);
    assert_eq!(p.stock, 4);
    assert_eq!(p.discription, None);
    assert_eq!((p.created_at, p.updated_at), (1, 20));
    p.apply_update(
        ProductUpdate { discription: Some("d".to_string()), stock: Some(0), ..Default::default() },
        21,
    )
    .unwrap();
    assert_eq!(p.discription.as_deref(), Some("d"));
    assert_eq!(p.stock, 0);
    let before = p.clone();
    assert_eq!(
        p.apply_update(ProductUpdate { stock: Some(-1), ..Default::default() }, 22),
        Err(LedgerError::AmountOutOfRange)
    );
    assert_eq!(p, before);
}
