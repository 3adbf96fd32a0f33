use vstd::prelude::*;

verus! {

/// Relies on rand 0.4's `thread_rng().gen_range(low, high)`: a uniform draw
/// from the half-open range `[low, high)`; it panics unless `low < high`.
#[verifier::external_body]
fn gen_range(low: i32, high: i32) -> (r: i32)
    requires
        low < high,
    ensures
        low <= r < high,
{
    rand::Rng::gen_range(&mut rand::thread_rng(), low, high)
}

/// Relies on rand 0.4's `random::<bool>()`: a fair coin.
#[verifier::external_body]
pub(crate) fn coin() -> (r: bool) {
    rand::random::<bool>()
}

/// Random number within the inclusive range `[min, max]`.
pub fn within(min: i32, max: i32) -> (r: i32)
    requires
        min <= max < i32::MAX,
    ensures
        min <= r <= max,
{
    gen_range(min, max + 1)
}

/// True with a chance of `percent` in a hundred.
pub fn chance(percent: i32) -> (r: bool)
    ensures
        percent <= 0 ==> !r,
        percent >= 100 ==> r,
{
    d100() <= percent
}

/// Relies on rand 0.4's `thread_rng().choose(values)`: `None` for an empty
/// slice, else one of its elements, drawn uniformly.
#[verifier::external_body]
fn choose_in<T>(values: &[T]) -> (r: Option<&T>)
    ensures
        values@.len() == 0 <==> r is None,
        r matches Some(v) ==> exists|i: int| 0 <= i < values@.len() && values@[i] == *v,
{
    rand::Rng::choose(&mut rand::thread_rng(), values)
}

/// One element picked at random, or `None` for an empty slice.
pub fn pick<T>(values: &[T]) -> (r: Option<&T>)
    ensures
        values@.len() == 0 <==> r is None,
        r matches Some(v) ==> exists|i: int| 0 <= i < values@.len() && values@[i] == *v,
{
    choose_in(values)
}

/// Roll one die with `x` faces; a die without faces rolls 0.
pub fn dx(x: i32) -> (r: i32)
    requires
        0 <= x < i32::MAX,
    ensures
        x == 0 ==> r == 0,
        x > 0 ==> 1 <= r <= x,
{
    if x == 0 {
        0
    } else {
        gen_range(1, x + 1)
    }
}

/// Roll `n` dice with `x` faces and add them up.
pub fn ndx(n: i32, x: i32) -> (r: i32)
    requires
        0 <= x < i32::MAX,
        n <= 0 || n * x <= i32::MAX,
    ensures
        n <= 0 ==> r == 0,
        n > 0 && x > 0 ==> n <= r <= n * x,
        x == 0 ==> r == 0,
{
    let mut sum: i32 = 0;
    let mut k: i32 = 0;
    while k < n
        invariant
            n > 0 ==> 0 <= k <= n,
            n <= 0 ==> k == 0,
            n <= 0 || n * x <= i32::MAX,
            0 <= x < i32::MAX,
            x > 0 ==> k <= sum <= k * x,
            x == 0 ==> sum == 0,
        decreases n - k,
    {
        let r = dx(x);
        proof {
            if x > 0 {
                assert((k + 1) * x <= n * x) by (nonlinear_arith)
                    requires
                        k + 1 <= n,
                        x > 0,
                ;
                assert((k + 1) * x == k * x + x) by (nonlinear_arith);
            }
        }
        sum = sum + r;
        k = k + 1;
    }
    sum
}

/// Roll 1d3.
pub fn d3() -> (r: i32)
    ensures
        1 <= r <= 3,
{
    gen_range(1, 4)
}

/// Roll `n` three-sided dice.
pub fn nd3(n: i32) -> (r: i32)
    requires
        n <= 0 || n * 3 <= i32::MAX,
    ensures
        n <= 0 ==> r == 0,
        n > 0 ==> n <= r <= 3 * n,
{
    ndx(n, 3)
}

/// Roll 1d6.
pub fn d6() -> (r: i32)
    ensures
        1 <= r <= 6,
{
    gen_range(1, 7)
}

/// Roll `n` six-sided dice.
pub fn nd6(n: i32) -> (r: i32)
    requires
        n <= 0 || n * 6 <= i32::MAX,
    ensures
        n <= 0 ==> r == 0,
        n > 0 ==> n <= r <= 6 * n,
{
    ndx(n, 6)
}

/// Roll 1d12.
pub fn d12() -> (r: i32)
    ensures
        1 <= r <= 12,
{
    gen_range(1, 13)
}

/// Roll `n` twelve-sided dice.
pub fn nd12(n: i32) -> (r: i32)
    requires
        n <= 0 || n * 12 <= i32::MAX,
    ensures
        n <= 0 ==> r == 0,
        n > 0 ==> n <= r <= 12 * n,
{
    ndx(n, 12)
}

/// Roll 1d20.
pub fn d20() -> (r: i32)
    ensures
        1 <= r <= 20,
{
    gen_range(1, 21)
}

/// Roll 1d100.
pub fn d100() -> (r: i32)
    ensures
        1 <= r <= 100,
{
    gen_range(1, 101)
}

} // verus!
