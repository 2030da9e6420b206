use vstd::prelude::*;
use vstd::string::StringExecFns;
use crate::ids::RecordId;
use crate::text::{append_decimal, append_hex_fixed, decimal, hex_fixed};

verus! {

/// An error as it is handed to the caller: an HTTP-like status code, a
/// message and optional detail.
#[derive(Clone, Debug)]
pub struct ErrorResponse {
    pub code: u16,
    pub message: String,
    pub details: Option<String>,
}

impl ErrorResponse {
    pub fn new(code: u16, message: &str, details: Option<String>) -> (r: Self)
        ensures
            r.code == code,
            r.message@ == message@,
            r.details == details,
    {
        ErrorResponse { code, message: message.to_string(), details }
    }
}

pub type AppResult<T> = Result<T, ErrorResponse>;

/// Why the invoice transaction engine refused an operation.
#[derive(Clone, Copy, Debug, PartialEq, Eq, Structural)]
pub enum LedgerError {
    /// No invoice has this identifier.
    InvoiceNotFound(RecordId),
    /// No product has this identifier.
    ProductNotFound(RecordId),
    /// No client has this identifier.
    ClientNotFound(RecordId),
    /// An invoice with this identifier is already stored.
    InvoiceExists(RecordId),
    /// The stock of a product would fall below zero, by `shortfall`.
    InsufficientStock { product_id: RecordId, available: i64, shortfall: u128 },
    /// The amount paid exceeds the price of the invoice.
    InvalidPayment { total_paid: u64, total_price: u64 },
    /// A price, stock or balance would leave the range it is stored in.
    AmountOutOfRange,
}

impl LedgerError {
    /// The status code the error is reported with.
    pub open spec fn code_spec(self) -> u16 {
        match self {
            LedgerError::InvoiceNotFound(_) => 404,
            LedgerError::ProductNotFound(_) => 404,
            LedgerError::ClientNotFound(_) => 404,
            LedgerError::InvoiceExists(_) => 409,
            LedgerError::InsufficientStock { .. } => 400,
            LedgerError::InvalidPayment { .. } => 400,
            LedgerError::AmountOutOfRange => 400,
        }
    }

    /// The message the error is reported with; a shortfall names the product.
    pub open spec fn message_spec(self) -> Seq<char> {
        match self {
            LedgerError::InvoiceNotFound(_) => "Invoice not found"@,
            LedgerError::ProductNotFound(_) => "Product not found"@,
            LedgerError::ClientNotFound(_) => "Client not found"@,
            LedgerError::InvoiceExists(_) => "Invoice already exists"@,
            LedgerError::InsufficientStock { product_id, .. } => "Insufficient stock for product: "@
                + hex_fixed(product_id as nat, 24),
            LedgerError::InvalidPayment { .. } => "Total paid must be less than or equial total price"@,
            LedgerError::AmountOutOfRange => "Amount out of range"@,
        }
    }

    /// The detail the error is reported with: the shortfall of stock, or the
    /// payment against the price.
    pub open spec fn details_spec(self) -> Option<Seq<char>> {
        match self {
            LedgerError::InsufficientStock { shortfall, .. } => Some(
                "short by "@ + decimal(shortfall as nat),
            ),
            LedgerError::InvalidPayment { total_paid, total_price } => Some(
                "paid "@ + decimal(total_paid as nat) + ", price "@ + decimal(total_price as nat),
            ),
            _ => None,
        }
    }

    /// The status code the error is reported with.
    pub fn code(&self) -> (r: u16)
        ensures
            r == self.code_spec(),
    {
        match self {
            LedgerError::InvoiceNotFound(_) => 404,
            LedgerError::ProductNotFound(_) => 404,
            LedgerError::ClientNotFound(_) => 404,
            LedgerError::InvoiceExists(_) => 409,
            LedgerError::InsufficientStock { .. } => 400,
            LedgerError::InvalidPayment { .. } => 400,
            LedgerError::AmountOutOfRange => 400,
        }
    }

    /// The message the error is reported with.
    pub fn message_text(&self) -> (r: String)
        ensures
            r@ == self.message_spec(),
    {
        match self {
            LedgerError::InvoiceNotFound(_) => String::from_str("Invoice not found"),
            LedgerError::ProductNotFound(_) => String::from_str("Product not found"),
            LedgerError::ClientNotFound(_) => String::from_str("Client not found"),
            LedgerError::InvoiceExists(_) => String::from_str("Invoice already exists"),
            LedgerError::InsufficientStock { product_id, .. } => {
                let mut text = String::from_str("Insufficient stock for product: ");
                append_hex_fixed(&mut text, *product_id, 24);
                text
            },
            LedgerError::InvalidPayment { .. } => String::from_str(
                "Total paid must be less than or equial total price",
            ),
            LedgerError::AmountOutOfRange => String::from_str("Amount out of range"),
        }
    }

    /// The detail the error is reported with.
    pub fn details_text(&self) -> (r: Option<String>)
        ensures
            match self.details_spec() {
                Some(t) => r matches Some(d) && d@ == t,
                None => r is None,
            },
    {
        match self {
            LedgerError::InsufficientStock { shortfall, .. } => {
                let mut text = String::from_str("short by ");
                append_decimal(&mut text, *shortfall);
                Some(text)
            },
            LedgerError::InvalidPayment { total_paid, total_price } => {
                let mut text = String::from_str("paid ");
                append_decimal(&mut text, *total_paid as u128);
                text.append(", price ");
                append_decimal(&mut text, *total_price as u128);
                Some(text)
            },
            _ => None,
        }
    }

    /// The error as it is handed to the caller.
    pub fn to_response(&self) -> (r: ErrorResponse)
        ensures
            r.code == self.code_spec(),
            r.message@ == self.message_spec(),
            match self.details_spec() {
                Some(t) => r.details matches Some(d) && d@ == t,
                None => r.details is None,
            },
    {
        ErrorResponse { code: self.code(), message: self.message_text(), details: self.details_text() }
    }
}

} // verus!
