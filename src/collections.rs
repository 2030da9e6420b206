use vstd::prelude::*;

verus! {

/// The document collections the application stores its records in.
#[derive(Clone, Copy, Debug, PartialEq, Eq, Structural)]
pub enum Collection {
    Client,
    Product,
    Invoice,
}

impl Collection {
    /// The name under which the collection is stored.
    pub open spec fn name_spec(self) -> Seq<char> {
        match self {
            Collection::Client => "clients"@,
            Collection::Product => "products"@,
            Collection::Invoice => "invoices"@,
        }
    }

    /// Returns the name of the collection.
    pub fn as_str(&self) -> (r: &'static str)
        ensures
            r@ == self.name_spec(),
    {
        match self {
            Collection::Client => "clients",
            Collection::Product => "products",
            Collection::Invoice => "invoices",
        }
    }
}

} // verus!
