use shared_ledger::restaurant::{order_food, take_order, Pizza};

#[test]
fn lunch_pizza_has_regular_dough_and_mozzarella() {
    let pizza = Pizza::lunch("veggies");
    assert_eq!(pizza.dough, "regular dough");
    assert_eq!(pizza.cheese, "mozzarella");
    assert_eq!(pizza.topping, "veggies");
}

#[test]
fn lunch_pizza_takes_any_topping() {
    assert_eq!(Pizza::lunch("").topping, "");
    assert_eq!(Pizza::lunch("jalape\u{f1}o").topping, "jalape\u{f1}o");
}

#[test]
fn take_order_seats_then_serves() {
    assert_eq!(
        take_order(),
        vec![
            "Customer seated at table".to_string(),
            "The customer is served a regular pizza with veggies".to_string(),
        ]
    );
}

#[test]
fn order_food_takes_one_order() {
    assert_eq!(order_food(), take_order());
    assert_eq!(order_food().len(), 2);
    assert_eq!(order_food()[1], "The customer is served a regular pizza with veggies");
}
