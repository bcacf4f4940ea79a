//! Small arithmetic routines: dot products, Fibonacci numbers and triangle
//! numbers.
use vstd::prelude::*;

verus! {

/// The sum of `a[k] * b[k]` over the first `n` positions.
pub open spec fn dot_prefix(a: Seq<i64>, b: Seq<i64>, n: int) -> int
    decreases n,
{
    if n <= 0 {
        0
    } else {
        dot_prefix(a, b, n - 1) + a[n - 1] * b[n - 1]
    }
}

/// The dot product of `v1` with the first `v1.len()` elements of `v2`.
pub fn dot(v1: &[i64], v2: &[i64]) -> (r: i64)
    requires
        v1@.len() <= v2@.len(),
        forall|k: int|
            0 <= k < v1@.len() ==> i64::MIN <= #[trigger] (v1@[k] * v2@[k]) <= i64::MAX,
        forall|k: int|
            0 <= k <= v1@.len() ==> i64::MIN <= #[trigger] dot_prefix(v1@, v2@, k) <= i64::MAX,
    ensures
        r == dot_prefix(v1@, v2@, v1@.len() as int),
{
    let mut sum: i64 = 0;
    let mut idx: usize = 0;
    while idx < v1.len()
        invariant
            idx <= v1@.len() <= v2@.len(),
            sum == dot_prefix(v1@, v2@, idx as int),
            forall|k: int|
                0 <= k < v1@.len() ==> i64::MIN <= #[trigger] (v1@[k] * v2@[k]) <= i64::MAX,
            forall|k: int|
                0 <= k <= v1@.len() ==> i64::MIN <= #[trigger] dot_prefix(v1@, v2@, k)
                    <= i64::MAX,
        decreases v1@.len() - idx,
    {
        assert(i64::MIN <= v1@[idx as int] * v2@[idx as int] <= i64::MAX);
        assert(i64::MIN <= dot_prefix(v1@, v2@, idx + 1) <= i64::MAX);
        sum = sum + v1[idx] * v2[idx];
        idx = idx + 1;
    }
    sum
}

/// The Fibonacci numbers: 0, 1, 1, 2, 3, 5, ...
pub open spec fn fib_spec(n: nat) -> nat
    decreases n,
{
    if n == 0 {
        0
    } else if n == 1 {
        1
    } else {
        fib_spec((n - 1) as nat) + fib_spec((n - 2) as nat)
    }
}

/// The Fibonacci numbers never decrease.
pub proof fn lemma_fib_monotone(i: nat, j: nat)
    requires
        i <= j,
    ensures
        fib_spec(i) <= fib_spec(j),
    decreases j - i,
{
    if i < j {
        lemma_fib_monotone(i, (j - 1) as nat);
    }
}

/// The `n`-th Fibonacci number, by the defining recursion.
pub fn fib(n: usize) -> (r: u64)
    requires
        fib_spec(n as nat) <= u64::MAX,
    ensures
        r == fib_spec(n as nat),
    decreases n,
{
    if n == 0 {
        0
    } else if n == 1 {
        1
    } else {
        proof {
            lemma_fib_monotone((n - 1) as nat, n as nat);
            lemma_fib_monotone((n - 2) as nat, n as nat);
        }
        fib(n - 1) + fib(n - 2)
    }
}

/// The first `count` Fibonacci numbers, each computed from the two before.
pub fn gen_fib(count: usize) -> (r: Vec<u64>)
    requires
        fib_spec(count as nat + 1) <= u64::MAX,
    ensures
        r@.len() == count,
        forall|i: int| 0 <= i < count ==> r@[i] == fib_spec(i as nat),
{
    let mut out: Vec<u64> = Vec::new();
    let mut a: u64 = 0;
    let mut b: u64 = 1;
    let mut i: usize = 0;
    while i < count
        invariant
            i <= count,
            out@.len() == i,
            forall|k: int| 0 <= k < i ==> out@[k] == fib_spec(k as nat),
            a == fib_spec(i as nat),
            b == fib_spec(i as nat + 1),
            fib_spec(count as nat + 1) <= u64::MAX,
        decreases count - i,
    {
        out.push(a);
        proof {
            lemma_fib_monotone(i as nat + 2, count as nat + 1);
        }
        let next = a + b;
        a = b;
        b = next;
        i = i + 1;
    }
    out
}

/// The sum `1 + 2 + ... + n`.
pub open spec fn triangle(n: nat) -> nat
    decreases n,
{
    if n == 0 {
        0
    } else {
        triangle((n - 1) as nat) + n
    }
}

/// The sum `1 + 2 + ... + n` is `n * (n + 1) / 2`.
pub proof fn lemma_triangle_closed_form(n: nat)
    ensures
        triangle(n) * 2 == n * (n + 1),
        triangle(n) == n * (n + 1) / 2,
    decreases n,
{
    if n > 0 {
        let m = (n - 1) as nat;
        lemma_triangle_closed_form(m);
        assert(m * (m + 1) + 2 * n == n * (n + 1)) by (nonlinear_arith)
            requires
                n == m + 1,
        ;
        assert(triangle(n) == triangle(m) + n);
        assert(triangle(m) * 2 == m * (m + 1));
        assert(triangle(n) * 2 == n * (n + 1));
    } else {
        assert(triangle(n) == 0);
    }
}

/// Triangle numbers grow with `n`.
pub proof fn lemma_triangle_monotone(i: nat, j: nat)
    requires
        i <= j,
    ensures
        triangle(i) <= triangle(j),
    decreases j - i,
{
    if i < j {
        lemma_triangle_monotone(i, (j - 1) as nat);
    }
}

/// The `n`-th triangle number, summed by a loop.
pub fn triangle_number(n: u32) -> (r: u32)
    requires
        n * (n + 1) / 2 <= u32::MAX,
    ensures
        r == triangle(n as nat),
        r == n * (n + 1) / 2,
{
    proof {
        lemma_triangle_closed_form(n as nat);
    }
    let mut sum: u32 = 0;
    let mut i: u32 = 0;
    while i < n
        invariant
            i <= n,
            sum == triangle(i as nat),
            triangle(n as nat) <= u32::MAX,
        decreases n - i,
    {
        proof {
            lemma_triangle_monotone(i as nat + 1, n as nat);
        }
        i = i + 1;
        sum = sum + i;
    }
    sum
}

/// The `n`-th triangle number, folded from `n` down to `1`.
pub fn triangle_number_fold(n: u32) -> (r: u32)
    requires
        n * (n + 1) / 2 <= u32::MAX,
    ensures
        r == triangle(n as nat),
        r == n * (n + 1) / 2,
    decreases n,
{
    proof {
        lemma_triangle_closed_form(n as nat);
    }
    if n == 0 {
        0
    } else {
        proof {
            lemma_triangle_monotone((n - 1) as nat, n as nat);
            lemma_triangle_closed_form((n - 1) as nat);
        }
        triangle_number_fold(n - 1) + n
    }
}

} // verus!
