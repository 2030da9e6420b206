use accounting::differ::{quantity_of, stock_changes, StockChange};
use accounting::model::Goods;

fn line(product_id: u128, price: u64, quantity: u32) -> Goods {
    Goods { name: format!("item {}", product_id), price, quantity, product_id }
}

fn delta_of(plan: &[StockChange], product_id: u128) -> Option<i128> {
    let found: Vec<&StockChange> = plan.iter().filter(|c| c.product_id == product_id).collect();
    assert!(found.len() <= 1);
    found.first().map(|c| c.delta)
}

#[test]
fn differ_moves_only_the_difference() {
    let a = 1u128;
    let b = 2u128;
    let old = vec![line(a, 10, 2)];
    let new = vec![line(a, 10, 5), line(b, 7, 1)];
    let plan = stock_changes(&old, &new);
    assert_eq!(plan.len(), 2);
    assert_eq!(delta_of(&plan, a), Some(-3));
    assert_eq!(delta_of(&plan, b), Some(-1));
}

#[test]
fn differ_restores_removed_lines() {
    let old = vec![line(1, 10, 3)];
    let plan = stock_changes(&old, &Vec::new());
    assert_eq!(plan, vec![StockChange { product_id: 1, delta: 3 }]);
}

#[test]
fn differ_unchanged_lines_move_nothing() {
    let goods = vec![line(1, 10, 3), line(2, 5, 4)];
    let plan = stock_changes(&goods, &goods);
    assert_eq!(plan.len(), 2);
    assert!(plan.iter().all(|c| c.delta == 0));
}

#[test]
fn differ_adds_up_repeated_products() {
    let old = vec![line(1, 10, 3), line(1, 10, 4)];
    let new = vec![line(1, 10, 2)];
    assert_eq!(quantity_of(&old, 1), 7);
    assert_eq!(quantity_of(&old, 9), 0);
    let plan = stock_changes(&old, &new);
    assert_eq!(plan, vec![StockChange { product_id: 1, delta: 5 }]);
}

#[test]
fn differ_of_empty_lists_is_empty() {
    assert!(stock_changes(&Vec::new(), &Vec::new()).is_empty());
}
