use vstd::prelude::*;
use crate::ids::RecordId;
use crate::model::Goods;

verus! {

/// How much of a product a list of lines takes; a product on several lines
/// takes the sum of their quantities.
pub open spec fn qty_of(s: Seq<Goods>, pid: RecordId) -> int
    decreases s.len(),
{
    if s.len() == 0 {
        0
    } else {
        qty_of(s.drop_last(), pid) + if s.last().product_id == pid {
            s.last().quantity as int
        } else {
            0
        }
    }
}

/// Whether a list of lines names a product.
pub open spec fn mentions(s: Seq<Goods>, pid: RecordId) -> bool {
    exists|i: int| 0 <= i < s.len() && #[trigger] s[i].product_id == pid
}

/// Whether either of two lists of lines names a product.
pub open spec fn touched(before: Seq<Goods>, after: Seq<Goods>, pid: RecordId) -> bool {
    mentions(before, pid) || mentions(after, pid)
}

/// How a product's stock moves when the lines `before` are replaced by `after`:
/// what the lines `before` took goes back, what the lines `after` take goes out.
pub open spec fn stock_change(before: Seq<Goods>, after: Seq<Goods>, pid: RecordId) -> int {
    qty_of(before, pid) - qty_of(after, pid)
}

/// A signed adjustment of one product's stock.
#[derive(Clone, Copy, Debug, PartialEq, Eq, Structural)]
pub struct StockChange {
    pub product_id: RecordId,
    pub delta: i128,
}

/// No product appears twice in a list of adjustments.
pub open spec fn ids_unique(c: Seq<StockChange>) -> bool {
    forall|i: int, j: int|
        0 <= i < c.len() && 0 <= j < c.len() && i != j ==> #[trigger] c[i].product_id
            != #[trigger] c[j].product_id
}

/// No adjustment moves more than the largest quantity that lines held in a
/// vector can add up to.
pub open spec fn deltas_bounded(c: Seq<StockChange>) -> bool {
    forall|k: int|
        0 <= k < c.len() ==> -0xffff_ffff * 0xffff_ffff_ffff_ffff <= #[trigger] c[k].delta
            <= 0xffff_ffff * 0xffff_ffff_ffff_ffff
}

/// A product that no line names is taken in no quantity.
pub proof fn lemma_qty_unmentioned(s: Seq<Goods>, pid: RecordId)
    requires
        !mentions(s, pid),
    ensures
        qty_of(s, pid) == 0,
    decreases s.len(),
{
    if s.len() > 0 {
        assert(s.last() == s[s.len() - 1]);
        assert forall|i: int| 0 <= i < s.drop_last().len() implies #[trigger] s.drop_last()[i].product_id
            != pid by {
            assert(s.drop_last()[i] == s[i]);
        }
        lemma_qty_unmentioned(s.drop_last(), pid);
    }
}

/// A list of adjustments is exactly the movement of stock from `before` to
/// `after`: one entry for each product that either list names, with its
/// change.
pub open spec fn is_stock_plan(c: Seq<StockChange>, before: Seq<Goods>, after: Seq<Goods>) -> bool {
    &&& ids_unique(c)
    &&& forall|k: int|
        0 <= k < c.len() ==> touched(before, after, #[trigger] c[k].product_id) && c[k].delta
            == stock_change(before, after, c[k].product_id)
    &&& forall|pid: RecordId|
        #[trigger] touched(before, after, pid) ==> exists|k: int|
            0 <= k < c.len() && #[trigger] c[k].product_id == pid
}

/// The quantity a list of lines takes of one product.
pub fn quantity_of(s: &Vec<Goods>, pid: RecordId) -> (r: u128)
    ensures
        r == qty_of(s@, pid),
        r <= 0xffff_ffff * 0xffff_ffff_ffff_ffff,
{
    let mut acc: u128 = 0;
    let mut i: usize = 0;
    while i < s.len()
        invariant
            i <= s@.len(),
            acc == qty_of(s@.take(i as int), pid),
            acc <= i * 0xffff_ffff,
        decreases s@.len() - i,
    {
        proof {
            assert(s@.take(i + 1).drop_last() =~= s@.take(i as int));
        }
        if s[i].product_id == pid {
            acc = acc + s[i].quantity as u128;
        }
        i = i + 1;
    }
    assert(s@.take(i as int) =~= s@);
    acc
}

pub(crate) fn contains_id(ids: &Vec<RecordId>, pid: RecordId) -> (r: bool)
    ensures
        r == ids@.contains(pid),
{
    let mut i: usize = 0;
    while i < ids.len()
        invariant
            i <= ids@.len(),
            forall|j: int| 0 <= j < i ==> ids@[j] != pid,
        decreases ids@.len() - i,
    {
        if ids[i] == pid {
            return true;
        }
        i = i + 1;
    }
    false
}

/// Adds the products a list of lines names to `ids`, each once.
fn collect_ids(ids: &mut Vec<RecordId>, s: &Vec<Goods>)
    requires
        forall|a: int, b: int|
            0 <= a < old(ids)@.len() && 0 <= b < old(ids)@.len() && a != b ==> old(ids)@[a]
                != old(ids)@[b],
    ensures
        forall|a: int, b: int|
            0 <= a < final(ids)@.len() && 0 <= b < final(ids)@.len() && a != b
                ==> final(ids)@[a] != final(ids)@[b],
        forall|k: int|
            0 <= k < final(ids)@.len() ==> old(ids)@.contains(#[trigger] final(ids)@[k])
                || mentions(s@, final(ids)@[k]),
        forall|pid: RecordId|
            old(ids)@.contains(pid) || mentions(s@, pid) ==> #[trigger] final(ids)@.contains(pid),
{
    let ghost start = ids@;
    let mut i: usize = 0;
    while i < s.len()
        invariant
            i <= s@.len(),
            forall|a: int, b: int|
                0 <= a < ids@.len() && 0 <= b < ids@.len() && a != b ==> ids@[a] != ids@[b],
            forall|k: int|
                0 <= k < ids@.len() ==> start.contains(#[trigger] ids@[k]) || mentions(
                    s@,
                    ids@[k],
                ),
            forall|pid: RecordId| #[trigger] start.contains(pid) ==> ids@.contains(pid),
            forall|j: int| 0 <= j < i ==> ids@.contains(#[trigger] s@[j].product_id),
        decreases s@.len() - i,
    {
        let pid = s[i].product_id;
        if !contains_id(ids, pid) {
            let ghost before = ids@;
            ids.push(pid);
            proof {
                assert forall|q: RecordId| before.contains(q) implies ids@.contains(q) by {
                    let k = choose|k: int| 0 <= k < before.len() && before[k] == q;
                    assert(ids@[k] == q);
                }
                assert(ids@[ids@.len() - 1] == pid);
            }
        }
        i = i + 1;
    }
    assert forall|pid: RecordId|
        start.contains(pid) || mentions(s@, pid) implies #[trigger] ids@.contains(pid) by {
        if mentions(s@, pid) {
            let j = choose|j: int| 0 <= j < s@.len() && #[trigger] s@[j].product_id == pid;
            assert(ids@.contains(s@[j].product_id));
        }
    }
}

/// The stock movement from the lines `before` to the lines `after`: for each
/// product that either names, what the lines `before` took goes back and what
/// the lines `after` take goes out. A product kept at the same quantity gets a
/// change of zero, so unchanged lines are never taken twice.
pub fn stock_changes(before: &Vec<Goods>, after: &Vec<Goods>) -> (r: Vec<StockChange>)
    ensures
        is_stock_plan(r@, before@, after@),
        deltas_bounded(r@),
{
    let mut ids: Vec<RecordId> = Vec::new();
    collect_ids(&mut ids, before);
    collect_ids(&mut ids, after);
    let mut out: Vec<StockChange> = Vec::new();
    let mut k: usize = 0;
    while k < ids.len()
        invariant
            k <= ids@.len(),
            out@.len() == k,
            forall|a: int, b: int|
                0 <= a < ids@.len() && 0 <= b < ids@.len() && a != b ==> ids@[a] != ids@[b],
            forall|m: int| 0 <= m < ids@.len() ==> touched(before@, after@, #[trigger] ids@[m]),
            forall|m: int|
                0 <= m < k ==> (#[trigger] out@[m]).product_id == ids@[m] && out@[m].delta
                    == stock_change(before@, after@, ids@[m]),
            deltas_bounded(out@),
        decreases ids@.len() - k,
    {
        let pid = ids[k];
        let taken_before = quantity_of(before, pid);
        let taken_after = quantity_of(after, pid);
        out.push(StockChange { product_id: pid, delta: taken_before as i128 - taken_after as i128 });
        k = k + 1;
    }
    proof {
        assert forall|pid: RecordId| #[trigger] touched(before@, after@, pid) implies exists|k: int|
            0 <= k < out@.len() && #[trigger] out@[k].product_id == pid by {
            assert(ids@.contains(pid));
            let m = choose|m: int| 0 <= m < ids@.len() && ids@[m] == pid;
            assert(out@[m].product_id == pid);
        }
        assert forall|a: int, b: int|
            0 <= a < out@.len() && 0 <= b < out@.len() && a != b implies #[trigger] out@[a].product_id
            != #[trigger] out@[b].product_id by {
            assert(out@[a].product_id == ids@[a]);
            assert(out@[b].product_id == ids@[b]);
        }
    }
    out
}

} // verus!
