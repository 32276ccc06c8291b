//! Rolling probe history and the health verdict derived from it.

use vstd::prelude::*;

verus! {

/// Whether bit `i` of `h` is set (bit 0 holds the most recent outcome).
pub open spec fn bit_set(h: u64, i: nat) -> bool {
    i < 64 && (h >> (i as u64)) & 1u64 == 1u64
}

/// Number of set bits among the low `w` bits of `h`.
pub open spec fn low_bits_count(h: u64, w: nat) -> nat
    decreases w,
{
    if w == 0 {
        0
    } else {
        low_bits_count(h, (w - 1) as nat) + if bit_set(h, (w - 1) as nat) {
            1nat
        } else {
            0nat
        }
    }
}

/// Healthy when `threshold` or more of the `window` most recent outcomes passed.
pub open spec fn verdict(h: u64, window: nat, threshold: nat) -> bool {
    low_bits_count(h, window) >= threshold
}

/// The history after recording one more outcome.
pub open spec fn shifted(h: u64, pass: bool) -> u64 {
    ((h << 1u64) | if pass { 1u64 } else { 0u64 }) as u64
}

proof fn lemma_count_agrees(h1: u64, h2: u64, w: nat)
    requires
        forall|i: nat| i < w ==> bit_set(h1, i) == bit_set(h2, i),
    ensures
        low_bits_count(h1, w) == low_bits_count(h2, w),
    decreases w,
{
    if w > 0 {
        lemma_count_agrees(h1, h2, (w - 1) as nat);
    }
}

proof fn lemma_count_of_prefix(h: u64, n: nat, w: nat)
    requires
        forall|i: nat| #[trigger] bit_set(h, i) <==> i < n && i < 64,
        w <= 64,
    ensures
        low_bits_count(h, w) == if n < w {
            n
        } else {
            w
        },
    decreases w,
{
    if w > 0 {
        lemma_count_of_prefix(h, n, (w - 1) as nat);
        assert(bit_set(h, (w - 1) as nat) <==> (w - 1) < n);
    }
}

/// The verdict is a function of the low `window` bits of the history and of
/// the threshold alone: two histories that agree on those bits get the same
/// verdict.
pub proof fn lemma_verdict_depends_on_window(
    h1: u64,
    h2: u64,
    window: nat,
    threshold: nat,
)
    requires
        window <= 64,
        forall|i: nat| i < window ==> bit_set(h1, i) == bit_set(h2, i),
    ensures
        verdict(h1, window, threshold) == verdict(h2, window, threshold),
{
    lemma_count_agrees(h1, h2, window);
}

/// A freshly seeded history (the low `initial` bits pass, the rest fail) is
/// healthy exactly when `min(initial, window)` reaches the threshold.
pub proof fn lemma_seeded_verdict(seed: u64, initial: nat, window: nat, threshold: nat)
    requires
        window <= 64,
        forall|i: nat| #[trigger] bit_set(seed, i) <==> i < initial && i < 64,
    ensures
        verdict(seed, window, threshold) == (if initial < window {
            initial
        } else {
            window
        } >= threshold),
{
    lemma_count_of_prefix(seed, initial, window);
}

/// Counts the set bits among the low `window` bits of `history`.
pub fn count_low_bits(history: u64, window: u32) -> (r: u32)
    requires
        window <= 64,
    ensures
        r == low_bits_count(history, window as nat),
{
    let mut count: u32 = 0;
    let mut i: u32 = 0;
    while i < window
        invariant
            i <= window <= 64,
            count == low_bits_count(history, i as nat),
            count <= i,
        decreases window - i,
    {
        let b = (history >> (i as u64)) & 1u64;
        assert(b == 0u64 || b == 1u64) by (bit_vector)
            requires
                b == (history >> (i as u64)) & 1u64,
        ;
        if b == 1u64 {
            count = count + 1;
        }
        i = i + 1;
    }
    count
}

/// The health verdict of a history: healthy when the low `window` bits hold at
/// least `threshold` passes.
pub fn is_healthy(history: u64, window: u32, threshold: u32) -> (r: bool)
    requires
        window <= 64,
    ensures
        r == verdict(history, window as nat, threshold as nat),
{
    count_low_bits(history, window) >= threshold
}

/// A history whose low `min(initial, 64)` bits record passes and whose other
/// bits record failures.
pub fn seed_history(initial: u32) -> (r: u64)
    ensures
        forall|i: nat| #[trigger] bit_set(r, i) <==> i < initial && i < 64,
{
    let r: u64 = if initial >= 64 {
        0xffff_ffff_ffff_ffffu64
    } else {
        let k: u64 = initial as u64;
        let p: u64 = 1u64 << k;
        assert(p >= 1u64) by (bit_vector)
            requires
                p == 1u64 << k,
                k < 64,
        ;
        p - 1u64
    };
    assert forall|i: nat| #[trigger] bit_set(r, i) <==> i < initial && i < 64 by {
        if i < 64 {
            let j: u64 = i as u64;
            if initial >= 64 {
                assert(r == 0xffff_ffff_ffff_ffffu64);
                assert((0xffff_ffff_ffff_ffffu64 >> j) & 1u64 == 1u64) by (bit_vector)
                    requires
                        j < 64,
                ;
            } else {
                let k: u64 = initial as u64;
                assert(((((1u64 << k) - 1u64) as u64 >> j) & 1u64 == 1u64) <==> j < k)
                    by (bit_vector)
                    requires
                        j < 64,
                        k < 64,
                ;
            }
        }
    }
    r
}

/// Records one probe outcome: the history moves up one bit and bit 0 takes the
/// new outcome. Also reports whether the verdict changed.
pub fn record_outcome(history: u64, pass: bool, window: u32, threshold: u32) -> (r: (u64, bool))
    requires
        window <= 64,
    ensures
        r.0 == shifted(history, pass),
        bit_set(r.0, 0) == pass,
        forall|i: nat| i < 63 ==> (#[trigger] bit_set(r.0, i + 1) == bit_set(history, i)),
        r.1 == (verdict(history, window as nat, threshold as nat) != verdict(
            r.0,
            window as nat,
            threshold as nat,
        )),
{
    let b: u64 = if pass { 1u64 } else { 0u64 };
    let next: u64 = (history << 1u64) | b;
    proof {
        assert(((((history << 1u64) | b) >> 0u64) & 1u64 == 1u64) == (b == 1u64)) by (bit_vector)
            requires
                b == 0u64 || b == 1u64,
        ;
        assert forall|i: nat| i < 63 implies (#[trigger] bit_set(next, i + 1) == bit_set(
            history,
            i,
        )) by {
            let j: u64 = i as u64;
            assert(((((history << 1u64) | b) >> ((j + 1) as u64)) & 1u64 == 1u64) == ((history
                >> j) & 1u64 == 1u64)) by (bit_vector)
                requires
                    j < 63,
                    b == 0u64 || b == 1u64,
            ;
        }
    }
    let before = is_healthy(history, window, threshold);
    let after = is_healthy(next, window, threshold);
    (next, before != after)
}

/// A probe passes when it got a response whose status is the expected one;
/// a transport failure (`None`) fails it.
pub fn probe_passed(status: Option<u16>, exp_status: u32) -> (r: bool)
    ensures
        r == (status.is_some() && status.unwrap() as u32 == exp_status),
{
    match status {
        Some(s) => s as u32 == exp_status,
        None => false,
    }
}

} // verus!
