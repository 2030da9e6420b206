use vstd::prelude::*;
use crate::error::LedgerError;
use crate::ids::RecordId;

verus! {

/// Whether a client is active.
#[derive(Clone, Copy, Debug, PartialEq, Eq, Structural)]
pub enum ClinetStatus {
    Active,
    InActive,
}

impl ClinetStatus {
    pub open spec fn name_spec(self) -> Seq<char> {
        match self {
            ClinetStatus::Active => "Active"@,
            ClinetStatus::InActive => "InActive"@,
        }
    }

    /// The name under which the status is stored and shown.
    pub fn as_str(&self) -> (r: &'static str)
        ensures
            r@ == self.name_spec(),
    {
        match self {
            ClinetStatus::Active => "Active",
            ClinetStatus::InActive => "InActive",
        }
    }
}

/// How far an invoice has been paid.
#[derive(Clone, Copy, Debug, PartialEq, Eq, Structural)]
pub enum Status {
    Paid,
    UnPaid,
    PartialPaid,
}

impl Status {
    pub open spec fn name_spec(self) -> Seq<char> {
        match self {
            Status::Paid => "Paid"@,
            Status::UnPaid => "UnPaid"@,
            Status::PartialPaid => "PartialPaid"@,
        }
    }

    /// The name under which the status is stored and shown.
    pub fn as_str(&self) -> (r: &'static str)
        ensures
            r@ == self.name_spec(),
    {
        match self {
            Status::Paid => "Paid",
            Status::UnPaid => "UnPaid",
            Status::PartialPaid => "PartialPaid",
        }
    }
}

/// One line of an invoice: a product, the name and unit price it had when it
/// was sold, and the quantity sold. Prices are in minor currency units.
#[derive(Clone, Debug, PartialEq, Eq)]
pub struct Goods {
    pub name: String,
    pub price: u64,
    pub quantity: u32,
    pub product_id: RecordId,
}

/// A product and its stock. Timestamps are milliseconds since the epoch.
#[derive(Clone, Debug, PartialEq, Eq)]
pub struct Product {
    pub id: RecordId,
    pub name: String,
    pub discription: Option<String>,
    pub price: u64,
    pub stock: i64,
    pub created_at: i64,
    pub updated_at: i64,
}

/// A client with its running balance. Under the accounting convention of this
/// library the owed figure already nets payments, so the outstanding balance
/// equals the amount owed.
#[derive(Clone, Debug, PartialEq, Eq)]
pub struct Client {
    pub id: RecordId,
    pub username: String,
    pub email: Option<String>,
    pub phone: String,
    pub company_name: String,
    pub city: String,
    pub address: String,
    pub status: ClinetStatus,
    pub invoices: Vec<RecordId>,
    pub total_owed: u64,
    pub total_paid: u64,
    pub outstanding_balance: u64,
    pub created_at: i64,
    pub updated_at: i64,
}

/// What a caller gives to register a client.
#[derive(Clone, Debug, PartialEq, Eq)]
pub struct NewClient {
    pub username: String,
    pub email: Option<String>,
    pub phone: String,
    pub company_name: String,
    pub city: String,
    pub address: String,
}

/// What a caller gives to register a product.
#[derive(Clone, Debug, PartialEq, Eq)]
pub struct NewProduct {
    pub name: String,
    pub discription: Option<String>,
    pub price: u64,
    pub stock: i64,
}

/// The fields of a product that may be changed directly; a field left `None`
/// keeps its value.
#[derive(Clone, Debug, PartialEq, Eq, Default)]
pub struct ProductUpdate {
    pub name: Option<String>,
    pub discription: Option<String>,
    pub price: Option<u64>,
    pub stock: Option<i64>,
}

/// What a caller gives to create an invoice.
#[derive(Clone, Debug, PartialEq, Eq)]
pub struct NewInvoice {
    pub client_id: RecordId,
    pub goods: Vec<Goods>,
    pub total_paid: u64,
}

/// A stored invoice; `total_price` and `status` are derived from the goods
/// and the amount paid.
#[derive(Clone, Debug, PartialEq, Eq)]
pub struct Invoice {
    pub id: RecordId,
    pub client_id: RecordId,
    pub goods: Vec<Goods>,
    pub total_paid: u64,
    pub status: Status,
    pub total_price: u64,
    pub created_at: i64,
    pub updated_at: i64,
}

impl Goods {
    /// A copy of this line.
    pub fn copied(&self) -> (r: Goods)
        ensures
            r == *self,
    {
        Goods {
            name: self.name.clone(),
            price: self.price,
            quantity: self.quantity,
            product_id: self.product_id,
        }
    }
}

/// A copy of a list of lines.
pub fn copy_goods(goods: &Vec<Goods>) -> (r: Vec<Goods>)
    ensures
        r@ == goods@,
{
    let mut out: Vec<Goods> = Vec::new();
    let mut i: usize = 0;
    while i < goods.len()
        invariant
            i <= goods@.len(),
            out@ == goods@.take(i as int),
        decreases goods@.len() - i,
    {
        out.push(goods[i].copied());
        i = i + 1;
        assert(out@ =~= goods@.take(i as int));
    }
    assert(goods@.take(goods@.len() as int) =~= goods@);
    out
}

impl Invoice {
    /// Two invoices that hold the same values.
    pub open spec fn same_as(self, other: Invoice) -> bool {
        &&& self.id == other.id
        &&& self.client_id == other.client_id
        &&& self.goods@ == other.goods@
        &&& self.total_paid == other.total_paid
        &&& self.status == other.status
        &&& self.total_price == other.total_price
        &&& self.created_at == other.created_at
        &&& self.updated_at == other.updated_at
    }

    /// A copy of this invoice.
    pub fn copied(&self) -> (r: Invoice)
        ensures
            r.same_as(*self),
    {
        let goods = copy_goods(&self.goods);
        assert(goods@ == self.goods@);
        Invoice {
            id: self.id,
            client_id: self.client_id,
            goods,
            total_paid: self.total_paid,
            status: self.status,
            total_price: self.total_price,
            created_at: self.created_at,
            updated_at: self.updated_at,
        }
    }
}

impl Client {
    /// A newly registered client, stored as `id` at time `now`: active, with
    /// no invoices and nothing owed or paid.
    pub fn from_new(new_client: NewClient, id: RecordId, now: i64) -> (r: Client)
        ensures
            r.id == id,
            r.username == new_client.username,
            r.email == new_client.email,
            r.phone == new_client.phone,
            r.company_name == new_client.company_name,
            r.city == new_client.city,
            r.address == new_client.address,
            r.status == ClinetStatus::Active,
            r.invoices@.len() == 0,
            r.total_owed == 0,
            r.total_paid == 0,
            r.outstanding_balance == 0,
            r.created_at == now,
            r.updated_at == now,
    {
        Client {
            id,
            username: new_client.username,
            email: new_client.email,
            phone: new_client.phone,
            company_name: new_client.company_name,
            city: new_client.city,
            address: new_client.address,
            status: ClinetStatus::Active,
            invoices: Vec::new(),
            total_owed: 0,
            total_paid: 0,
            outstanding_balance: 0,
            created_at: now,
            updated_at: now,
        }
    }
}

impl Product {
    /// A newly registered product, stored as `id` at time `now`. A negative
    /// stock is refused.
    pub fn from_new(new_product: NewProduct, id: RecordId, now: i64) -> (r: Result<
        Product,
        LedgerError,
    >)
        ensures
            r is Err <==> new_product.stock < 0,
            r matches Err(e) ==> e == LedgerError::AmountOutOfRange,
            r matches Ok(p) ==> p.id == id && p.name == new_product.name && p.discription
                == new_product.discription && p.price == new_product.price && p.stock
                == new_product.stock && p.created_at == now && p.updated_at == now,
    {
        if new_product.stock < 0 {
            return Err(LedgerError::AmountOutOfRange);
        }
        Ok(
            Product {
                id,
                name: new_product.name,
                discription: new_product.discription,
                price: new_product.price,
                stock: new_product.stock,
                created_at: now,
                updated_at: now,
            },
        )
    }
}

impl Product {
    /// Changes the fields that `update` gives and records the update time
    /// `now`. A negative stock is refused, and then nothing changes.
    pub fn apply_update(&mut self, update: ProductUpdate, now: i64) -> (r: Result<(), LedgerError>)
        ensures
            r is Err <==> (update.stock matches Some(s) && s < 0),
            r is Err ==> r == Err::<(), LedgerError>(LedgerError::AmountOutOfRange) && *final(self)
                == *old(self),
            r is Ok ==> {
                &&& final(self).id == old(self).id
                &&& final(self).name == (match update.name {
                    Some(n) => n,
                    None => old(self).name,
                })
                &&& final(self).discription == (match update.discription {
                    Some(d) => Some(d),
                    None => old(self).discription,
                })
                &&& final(self).price == (match update.price {
                    Some(p) => p,
                    None => old(self).price,
                })
                &&& final(self).stock == (match update.stock {
                    Some(s) => s,
                    None => old(self).stock,
                })
                &&& final(self).created_at == old(self).created_at
                &&& final(self).updated_at == now
            },
    {
        if let Some(stock) = update.stock {
            if stock < 0 {
                return Err(LedgerError::AmountOutOfRange);
            }
        }
        if let Some(name) = update.name {
            self.name = name;
        }
        if let Some(discription) = update.discription {
            self.discription = Some(discription);
        }
        if let Some(price) = update.price {
            self.price = price;
        }
        if let Some(stock) = update.stock {
            self.stock = stock;
        }
        self.updated_at = now;
        Ok(())
    }
}

} // verus!
