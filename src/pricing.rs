use vstd::prelude::*;
use crate::model::{Goods, Status};

verus! {

/// What one line costs: unit price times quantity.
pub open spec fn line_total(g: Goods) -> int {
    g.price as int * g.quantity as int
}

/// What a list of lines costs in all.
pub open spec fn goods_total(s: Seq<Goods>) -> int
    decreases s.len(),
{
    if s.len() == 0 {
        0
    } else {
        goods_total(s.drop_last()) + line_total(s.last())
    }
}

/// The status that an amount paid against a price gives.
pub open spec fn status_for(total_paid: int, total_price: int) -> Status {
    if total_paid >= total_price {
        Status::Paid
    } else if total_paid > 0 {
        Status::PartialPaid
    } else {
        Status::UnPaid
    }
}

pub proof fn lemma_line_total_bounds(g: Goods)
    ensures
        0 <= line_total(g) <= 0xffff_ffff_ffff_ffff * 0xffff_ffff,
{
    let p = g.price as int;
    let q = g.quantity as int;
    assert(0 <= p * q <= 0xffff_ffff_ffff_ffff * 0xffff_ffff) by (nonlinear_arith)
        requires
            0 <= p <= 0xffff_ffff_ffff_ffff,
            0 <= q <= 0xffff_ffff,
    ;
}

/// A list costs at least as much as any of its prefixes.
pub proof fn lemma_goods_total_prefix(s: Seq<Goods>, i: int)
    requires
        0 <= i <= s.len(),
    ensures
        0 <= goods_total(s.take(i)) <= goods_total(s),
    decreases s.len(),
{
    if i == s.len() {
        assert(s.take(i) =~= s);
        if s.len() > 0 {
            lemma_goods_total_prefix(s.drop_last(), i - 1);
            assert(s.drop_last().take(i - 1) =~= s.drop_last());
            lemma_line_total_bounds(s.last());
        }
    } else {
        lemma_goods_total_prefix(s.drop_last(), i);
        assert(s.drop_last().take(i) =~= s.take(i));
        lemma_line_total_bounds(s.last());
    }
}

/// The price of a list of lines, or `None` where it exceeds what a `u64`
/// holds.
pub fn total_price(goods: &Vec<Goods>) -> (r: Option<u64>)
    ensures
        r is None <==> goods_total(goods@) > u64::MAX,
        r matches Some(t) ==> t == goods_total(goods@),
{
    let mut acc: u128 = 0;
    let mut i: usize = 0;
    while i < goods.len()
        invariant
            i <= goods@.len(),
            acc == goods_total(goods@.take(i as int)),
            acc <= u64::MAX,
        decreases goods@.len() - i,
    {
        let g = &goods[i];
        proof {
            lemma_line_total_bounds(*g);
            assert(goods@.take(i + 1).drop_last() =~= goods@.take(i as int));
        }
        acc = acc + (g.price as u128) * (g.quantity as u128);
        i = i + 1;
        if acc > u64::MAX as u128 {
            proof {
                lemma_goods_total_prefix(goods@, i as int);
            }
            return None;
        }
    }
    assert(goods@.take(i as int) =~= goods@);
    Some(acc as u64)
}

/// The status of an invoice: paid once the amount paid reaches the price,
/// partly paid while something but not all of it is paid, unpaid otherwise.
pub fn derive_status(total_paid: u64, total_price: u64) -> (r: Status)
    ensures
        r == status_for(total_paid as int, total_price as int),
{
    if total_paid >= total_price {
        Status::Paid
    } else if total_paid > 0 {
        Status::PartialPaid
    } else {
        Status::UnPaid
    }
}

} // verus!
