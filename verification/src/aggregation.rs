//! What is left of a number of observed values once they are aggregated.
use vstd::prelude::*;

verus! {

/// The least, the greatest, the sum and the number of the observed values.
#[derive(Debug, Clone, Copy, PartialEq, Eq, Structural)]
pub struct StatisticSet {
    pub min: i64,
    pub max: i64,
    pub sum: i64,
    pub count: u64,
}

/// The sum of the observed values.
#[derive(Debug, Clone, Copy, PartialEq, Eq, Structural)]
pub struct Sum {
    pub sum: i64,
}

/// Aggregated values.
#[derive(Debug, Clone, Copy, PartialEq, Eq, Structural)]
pub enum Aggregation {
    StatisticSet(StatisticSet),
    Sum(Sum),
}

/// The number of values that 64 bits can tell apart.
pub open spec fn modulus() -> int {
    0x1_0000_0000_0000_0000
}

/// The 64 bit number that `x` comes to when it wraps around.
pub open spec fn wrapped(x: int) -> i64 {
    ((x - i64::MIN) % modulus() + i64::MIN) as i64
}

/// The 64 bit count that `n` comes to when it wraps around.
pub open spec fn wrapped_count(n: int) -> u64 {
    (n % modulus()) as u64
}

/// The sum of two numbers, wrapped around.
pub(crate) fn wrapping_sum(a: i64, b: i64) -> (sum: i64)
    ensures
        sum == wrapped(a + b),
        i64::MIN <= a + b <= i64::MAX ==> sum == a + b,
        a + b > i64::MAX ==> sum == a + b - 0x1_0000_0000_0000_0000,
        a + b < i64::MIN ==> sum == a + b + 0x1_0000_0000_0000_0000,
{
    a.wrapping_add(b)
}

/// One more, wrapped around.
pub(crate) fn wrapping_successor(count: u64) -> (successor: u64)
    ensures
        successor == wrapped_count(count + 1),
        count < u64::MAX ==> successor == count + 1,
        count == u64::MAX ==> successor == 0,
{
    count.wrapping_add(1)
}

} // verus!
