//! A balance that many actors draw on, guarded by a floor below which nothing is paid out.
//!
//! [`ledger`] holds the balance and the rule for a withdrawal, [`shared`] puts it behind a lock,
//! [`runs`] says what holds of the calls that a ledger serves, and [`scenario`] runs a number
//! of equal withdrawals and tells what they must come to. The other modules are small things
//! that a program around the ledger uses: sums, a line of text, a day of the week, a number
//! drawn by chance, a tree and a pizza counter.

pub mod arith;
pub mod calendar;
pub mod chance;
pub mod ledger;
pub mod restaurant;
pub mod runs;
pub mod scenario;
pub mod shared;
pub mod tally;
pub mod text;
pub mod tree;
