//! The two functions that the composition example chains:
//! `add_one >> add_one >> stringify`.

use vstd::prelude::*;
use crate::text::{decimal, decimal_string};

verus! {

/// `n + 1`.
pub fn add_one(n: i32) -> (res: i32)
    requires
        n < i32::MAX,
    ensures
        res == n + 1,
{
    n + 1
}

/// The decimal numeral of `n`.
pub fn stringify(n: i32) -> (res: String)
    ensures
        res@ == decimal(n as int),
{
    decimal_string(n as i64)
}

} // verus!
