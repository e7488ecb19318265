use vstd::prelude::*;

verus! {

/// Whether `x` is a power of two (1, 2, 4, ...).
pub open spec fn is_pow2(x: int) -> bool
    decreases x,
{
    if x <= 0 {
        false
    } else if x == 1 {
        true
    } else {
        x % 2 == 0 && is_pow2(x / 2)
    }
}

/// The smallest power of two that is not less than `n`.
pub open spec fn next_pow2(n: nat) -> nat
    decreases n,
{
    if n <= 1 {
        1
    } else {
        2 * next_pow2(((n + 1) / 2) as nat)
    }
}

/// Of two powers of two, the larger is at least twice the smaller.
proof fn lemma_pow2_gap(a: int, b: int)
    requires
        is_pow2(a),
        is_pow2(b),
        a < b,
    ensures
        2 * a <= b,
    decreases b,
{
    if a > 1 {
        lemma_pow2_gap(a / 2, b / 2);
    }
}

/// `next_pow2(n)` is a power of two in `[n, 2n)`.
pub proof fn lemma_next_pow2_bounds(n: nat)
    requires
        n >= 1,
    ensures
        is_pow2(next_pow2(n) as int),
        n <= next_pow2(n),
        next_pow2(n) < 2 * n,
    decreases n,
{
    if n > 1 {
        let h = ((n + 1) / 2) as nat;
        lemma_next_pow2_bounds(h);
        let p = next_pow2(h) as int;
        assert((2 * p) % 2 == 0 && (2 * p) / 2 == p);
    }
}

/// Exactly one power of two lies in `[n, 2n)`: `next_pow2(n)`.
pub proof fn lemma_next_pow2_unique(n: nat, p: int)
    requires
        n >= 1,
        is_pow2(p),
        n <= p < 2 * n,
    ensures
        p == next_pow2(n),
{
    lemma_next_pow2_bounds(n);
    let q = next_pow2(n) as int;
    if p < q {
        lemma_pow2_gap(p, q);
    } else if q < p {
        lemma_pow2_gap(q, p);
    }
}

/// Rounding a power of two up to a power of two leaves it unchanged.
pub proof fn lemma_next_pow2_fixes_powers(n: nat)
    requires
        is_pow2(n as int),
    ensures
        next_pow2(n) == n,
{
    lemma_next_pow2_unique(n, n as int);
}

/// Rounds `n` up to the nearest power of two.
pub fn round_to_power_2(n: i64) -> (r: i64)
    requires
        1 <= n <= 0x4000_0000_0000_0000,
    ensures
        r == next_pow2(n as nat),
        is_pow2(r as int),
        n <= r < 2 * n,
{
    let mut p: i64 = 1;
    while p < n
        invariant
            1 <= p,
            is_pow2(p as int),
            p < 2 * n,
            n <= 0x4000_0000_0000_0000,
        decreases 2 * n - p,
    {
        assert((2 * p) % 2 == 0 && (2 * p) / 2 == p);
        p = p * 2;
    }
    proof {
        lemma_next_pow2_unique(n as nat, p as int);
    }
    p
}

/// Extends `vector` to `new_length` elements, filling the tail with `default`.
pub fn pad<T: Copy>(vector: &[T], new_length: usize, default: T) -> (r: Vec<T>)
    requires
        vector@.len() <= new_length,
    ensures
        r@ == vector@ + Seq::new((new_length - vector@.len()) as nat, |_i: int| default),
{
    let mut padded: Vec<T> = Vec::with_capacity(new_length);
    for i in 0..vector.len()
        invariant
            padded@ == vector@.subrange(0, i as int),
    {
        padded.push(vector[i]);
    }
    while padded.len() < new_length
        invariant
            vector@.len() <= padded@.len() <= new_length,
            padded@.subrange(0, vector@.len() as int) == vector@,
            forall|k: int| vector@.len() <= k < padded@.len() ==> padded@[k] == default,
        decreases new_length - padded.len(),
    {
        padded.push(default);
    }
    assert(padded@ =~= vector@ + Seq::new((new_length - vector@.len()) as nat, |_i: int| default));
    padded
}

/// Whether kernel tap `j` meets a sample of the signal at output index `i` of the
/// full linear convolution of a signal of length `n` with a kernel of length `m`:
/// output `i` sums `signal[i + j - (m - 1)] * kernel[m - 1 - j]` over such `j`.
pub open spec fn contributes(n: int, m: int, i: int, j: int) -> bool {
    0 <= j < m && 0 <= i + j - (m - 1) < n
}

/// The taps `j` that contribute to output `i` of the full convolution, as the
/// half-open range `[lo, hi)`; reads outside the signal count as zero.
pub fn kernel_overlap(n: usize, m: usize, i: usize) -> (r: (usize, usize))
    requires
        m >= 1,
        i + 1 < n + m,
        n + m <= usize::MAX,
    ensures
        r.0 <= r.1 <= m,
        forall|j: int| r.0 <= j < r.1 <==> contributes(n as int, m as int, i as int, j),
{
    let lo: usize = if i + 1 >= m { 0 } else { m - 1 - i };
    let hi: usize = if n + m - 1 - i >= m { m } else { n + m - 1 - i };
    (lo, hi)
}

/// Keeps the `n` values of `full` starting at index `m - 1`, where a kernel of
/// length `m` lies wholly over a signal of length `n`.
pub fn valid_slice<T: Copy>(full: &[T], n: usize, m: usize) -> (r: Vec<T>)
    requires
        m >= 1,
        m - 1 + n <= full@.len(),
    ensures
        r@ == full@.subrange(m - 1, m - 1 + n),
{
    let start: usize = m - 1;
    let mut row: Vec<T> = Vec::with_capacity(n);
    for k in 0..n
        invariant
            start == m - 1,
            start + n <= full.len(),
            row@ == full@.subrange(start as int, start + k),
    {
        row.push(full[start + k]);
    }
    row
}

/// How a convolution is computed.
#[derive(PartialEq, Eq, Structural, Clone, Copy, Debug)]
pub enum ConvolutionMethod {
    /// The nested sum over every signal sample and kernel tap.
    Direct,
    /// Padding to a power of two and multiplying the spectra.
    Spectral,
}

/// The base-two logarithm of `x`, rounded down; 0 for `x <= 1`.
pub open spec fn log2(x: nat) -> nat
    decreases x,
{
    if x <= 1 {
        0
    } else {
        1 + log2(x / 2)
    }
}

proof fn lemma_log2_le(x: nat)
    ensures
        log2(x) <= x,
    decreases x,
{
    if x > 1 {
        lemma_log2_le(x / 2);
    }
}

/// The transform length used by the spectral method for a signal of length `n`
/// and a kernel of length `m`.
pub open spec fn spectral_length(n: nat, m: nat) -> nat {
    next_pow2((n + m - 1) as nat)
}

/// The cost model: the spectral method is used when `N log2 N <= n m`, with
/// `N` the transform length; an empty signal or kernel has nothing to compute.
pub open spec fn method_for(n: nat, m: nat) -> ConvolutionMethod {
    if n == 0 || m == 0 {
        ConvolutionMethod::Direct
    } else if spectral_length(n, m) * log2(spectral_length(n, m)) <= n * m {
        ConvolutionMethod::Spectral
    } else {
        ConvolutionMethod::Direct
    }
}

/// Length of the spectral transform for a signal of length `n` and a kernel
/// of length `m`: `n + m - 1` rounded up to a power of two.
pub fn convolution_length(n: usize, m: usize) -> (r: usize)
    requires
        n >= 1,
        m >= 1,
        n + m <= 0x4000_0000_0000_0001,
        2 * (n + m) <= usize::MAX,
    ensures
        r == spectral_length(n as nat, m as nat),
        n + m - 1 <= r < 2 * (n + m - 1),
{
    let r = round_to_power_2((n + m - 1) as i64);
    r as usize
}

/// Chooses between direct and spectral convolution for a signal of length `n`
/// and a kernel of length `m`.
pub fn convolution_method(n: usize, m: usize) -> (r: ConvolutionMethod)
    requires
        n + m <= 0x4000_0000_0000_0001,
        2 * (n + m) <= usize::MAX,
    ensures
        r == method_for(n as nat, m as nat),
{
    if n == 0 || m == 0 {
        return ConvolutionMethod::Direct;
    }
    let big = convolution_length(n, m) as u128;
    proof {
        lemma_log2_le(big as nat);
    }
    let mut x: u128 = big;
    let mut k: u128 = 0;
    while x > 1
        invariant
            log2(big as nat) == k + log2(x as nat),
            k <= log2(big as nat) <= big <= 0x8000_0000_0000_0000,
        decreases x,
    {
        x = x / 2;
        k = k + 1;
    }
    assert(big * k <= 0x8000_0000_0000_0000 * 0x8000_0000_0000_0000) by (nonlinear_arith)
        requires
            big <= 0x8000_0000_0000_0000,
            k <= 0x8000_0000_0000_0000,
    ;
    assert((n as u128) * (m as u128) <= 0xffff_ffff_ffff_ffff * 0xffff_ffff_ffff_ffff)
        by (nonlinear_arith)
        requires
            n <= 0xffff_ffff_ffff_ffff,
            m <= 0xffff_ffff_ffff_ffff,
    ;
    let cost = big * k;
    if cost <= (n as u128) * (m as u128) {
        ConvolutionMethod::Spectral
    } else {
        ConvolutionMethod::Direct
    }
}

} // verus!
