//! Sums of machine integers, each exact wherever it can be had at all.

use vstd::prelude::*;
use vstd::std_specs::ops::AddSpec;

verus! {

/// The sum of `x` and `y`.
pub fn get_sum_2(x: i32, y: i32) -> (sum: i32)
    requires
        i32::MIN <= x + y <= i32::MAX,
    ensures
        sum == x + y,
{
    x + y
}

/// The sum of `x` and `y`, handed back by an early return.
pub fn get_sum_3(x: i32, y: i32) -> (sum: i32)
    requires
        i32::MIN <= x + y <= i32::MAX,
    ensures
        sum == x + y,
{
    return x + y;
}

/// The two numbers that follow `x`.
pub fn get_2(x: i32) -> (next: (i32, i32))
    requires
        x + 2 <= i32::MAX,
    ensures
        next.0 == x + 1,
        next.1 == x + 2,
{
    return (x + 1, x + 2);
}

/// The sum of all the values of `list`.
pub open spec fn sum_of(list: Seq<i32>) -> int
    decreases list.len(),
{
    if list.len() == 0 {
        0
    } else {
        sum_of(list.drop_last()) + list.last()
    }
}

/// Sums `list` from its first value to its last. Every sum on the way has to fit.
pub fn sum_list(list: &[i32]) -> (sum: i32)
    requires
        forall|n: int| 0 <= n <= list@.len() ==> i32::MIN <= #[trigger] sum_of(list@.take(n)) <= i32::MAX,
    ensures
        sum == sum_of(list@),
{
    let mut sum: i32 = 0;
    let mut at: usize = 0;
    while at < list.len()
        invariant
            at <= list@.len(),
            sum == sum_of(list@.take(at as int)),
            forall|n: int|
                0 <= n <= list@.len() ==> i32::MIN <= #[trigger] sum_of(list@.take(n)) <= i32::MAX,
        decreases list@.len() - at,
    {
        proof {
            let longer = list@.take(at + 1);
            assert(longer.drop_last() =~= list@.take(at as int));
            assert(longer.last() == list@[at as int]);
            assert(sum_of(longer) == sum + list@[at as int]);
        }
        sum = sum + list[at];
        at = at + 1;
    }
    proof {
        assert(list@.take(list@.len() as int) =~= list@);
    }
    sum
}

/// The sum of `x` and `y`, for any type that can be added to itself.
pub fn get_sum_gen<T: core::ops::Add<Output = T>>(x: T, y: T) -> (sum: T)
    requires
        x.add_req(y),
    ensures
        T::obeys_add_spec() ==> sum == x.add_spec(y),
{
    return x + y;
}

/// What `func` makes of `a` and `b`.
pub fn use_func<T>(a: i32, b: i32, func: T) -> (made: i32) where T: Fn(i32, i32) -> i32
    requires
        func.requires((a, b)),
    ensures
        func.ensures((a, b), made),
{
    func(a, b)
}

} // verus!
