//! A pizza counter: the one pizza it makes, and what is said while a customer is seated and
//! served. The lines are handed back as text; printing them is the caller's business.

use vstd::prelude::*;
use vstd::string::StringExecFns;

verus! {

/// A pizza, by what it is made of.
pub struct Pizza {
    pub dough: String,
    pub cheese: String,
    pub topping: String,
}

impl Pizza {
    /// The lunch pizza: regular dough and mozzarella under the topping asked for.
    pub fn lunch(topping: &str) -> (pizza: Pizza)
        ensures
            pizza.dough@ == "regular dough"@,
            pizza.cheese@ == "mozzarella"@,
            pizza.topping@ == topping@,
    {
        Pizza {
            dough: "regular dough".to_owned(),
            cheese: "mozzarella".to_owned(),
            topping: topping.to_owned(),
        }
    }
}

/// The line said when a customer is served a pizza with `topping`.
pub open spec fn served_line(topping: Seq<char>) -> Seq<char> {
    "The customer is served a regular pizza with "@ + topping
}

/// The line said when a customer sits down.
fn seat_at_table() -> (line: String)
    ensures
        line@ == "Customer seated at table"@,
{
    "Customer seated at table".to_owned()
}

/// The line said when `cust_pizza` reaches the customer.
fn serve_customer(cust_pizza: Pizza) -> (line: String)
    ensures
        line@ == served_line(cust_pizza.topping@),
{
    "The customer is served a regular pizza with ".to_owned().concat(cust_pizza.topping.as_str())
}

/// Seats a customer, makes them a lunch pizza with veggies and serves it; hands back the two
/// lines said on the way, in the order in which they are said.
pub fn take_order() -> (lines: Vec<String>)
    ensures
        lines.len() == 2,
        lines[0]@ == "Customer seated at table"@,
        lines[1]@ == served_line("veggies"@),
{
    let seated = seat_at_table();
    let cust_pizza = Pizza::lunch("veggies");
    let served = serve_customer(cust_pizza);
    let mut lines = Vec::new();
    lines.push(seated);
    lines.push(served);
    lines
}

/// The way in from outside the counter: takes one order, as [`take_order`] does.
pub fn order_food() -> (lines: Vec<String>)
    ensures
        lines.len() == 2,
        lines[0]@ == "Customer seated at table"@,
        lines[1]@ == served_line("veggies"@),
{
    take_order()
}

} // verus!
