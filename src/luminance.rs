//! Mean-luminance normalization of an interleaved RGBA pixel buffer.
//!
//! Luminance of a pixel is `0.299 R + 0.587 G + 0.114 B`. All arithmetic is
//! carried out exactly in thousandths: a pixel weighs `299 R + 587 G + 114 B`,
//! and a mean luminance of at least 80 means a total weight of at least
//! `80_000` per pixel.
use crate::error::ImageError;
use vstd::prelude::*;

verus! {

/// Mean luminance (on the 0..=255 scale) that an image must reach.
pub const LUMINANCE_THRESHOLD: u32 = 80;

/// Defensive cap on the number of brightening passes.
pub const MAX_PASSES: u32 = 64;

/// Number of whole RGBA pixels in a buffer.
pub open spec fn pixel_count(s: Seq<u8>) -> nat {
    s.len() / 4
}

/// Luminance of pixel `p`, scaled by 1000.
pub open spec fn pixel_weight(s: Seq<u8>, p: int) -> int {
    299 * s[4 * p] + 587 * s[4 * p + 1] + 114 * s[4 * p + 2]
}

/// Sum of the scaled luminance of the first `n` pixels.
pub open spec fn luminance_total(s: Seq<u8>, n: nat) -> int
    decreases n,
{
    if n == 0 {
        0
    } else {
        luminance_total(s, (n - 1) as nat) + pixel_weight(s, n - 1)
    }
}

/// The mean luminance of the buffer is at least the threshold.
pub open spec fn is_bright(s: Seq<u8>) -> bool {
    luminance_total(s, pixel_count(s)) >= 1000 * LUMINANCE_THRESHOLD * pixel_count(s)
}

/// One colour channel after a brightening step: scaled by 1.1 and rounded
/// down, unless that would pass 255, in which case it is left as it is.
pub open spec fn brighten_channel(c: u8) -> u8 {
    if 11 * c <= 2550 {
        ((11 * c) / 10) as u8
    } else {
        c
    }
}

/// One brightening pass: every R, G and B byte is brightened, alpha is kept.
pub open spec fn brighten(s: Seq<u8>) -> Seq<u8> {
    Seq::new(s.len(), |i: int| if i % 4 == 3 { s[i] } else { brighten_channel(s[i]) })
}

/// The buffer after `k` brightening passes.
pub open spec fn iterate(s: Seq<u8>, k: nat) -> Seq<u8>
    decreases k,
{
    if k == 0 {
        s
    } else {
        brighten(iterate(s, (k - 1) as nat))
    }
}

/// The first pass count, from `j` up to the cap, after which the buffer is
/// bright; `None` if there is none.
pub open spec fn passes_from(s: Seq<u8>, j: nat) -> Option<nat>
    decreases MAX_PASSES - j,
{
    if is_bright(iterate(s, j)) {
        Some(j)
    } else if j >= MAX_PASSES {
        None
    } else {
        passes_from(s, j + 1)
    }
}

/// How many passes normalization applies to a buffer, if it succeeds.
pub open spec fn passes_needed(s: Seq<u8>) -> Option<nat> {
    passes_from(s, 0)
}

proof fn lemma_passes_from(s: Seq<u8>, j: nat)
    requires
        j <= MAX_PASSES,
        forall|i: nat| i < j ==> !is_bright(#[trigger] iterate(s, i)),
    ensures
        passes_from(s, j) == passes_needed(s),
    decreases j,
{
    if j > 0 {
        let p = (j - 1) as nat;
        assert(!is_bright(iterate(s, p)));
        lemma_passes_from(s, p);
    }
}

/// What the pass count says: after `k` passes the buffer is bright, and after
/// none of the fewer counts was it; when there is no such count within the
/// cap, no count up to the cap makes it bright.
pub proof fn lemma_passes_needed(s: Seq<u8>)
    ensures
        passes_needed(s) matches Some(k) ==> k <= MAX_PASSES && is_bright(iterate(s, k))
            && forall|j: nat| j < k ==> !is_bright(#[trigger] iterate(s, j)),
        passes_needed(s) is None ==> forall|j: nat|
            j <= MAX_PASSES ==> !is_bright(#[trigger] iterate(s, j)),
{
    lemma_passes_from_facts(s, 0);
}

proof fn lemma_passes_from_facts(s: Seq<u8>, j: nat)
    requires
        j <= MAX_PASSES,
    ensures
        passes_from(s, j) matches Some(k) ==> j <= k <= MAX_PASSES && is_bright(iterate(s, k))
            && forall|i: nat| j <= i < k ==> !is_bright(#[trigger] iterate(s, i)),
        passes_from(s, j) is None ==> forall|i: nat|
            j <= i <= MAX_PASSES ==> !is_bright(#[trigger] iterate(s, i)),
    decreases MAX_PASSES - j,
{
    if !is_bright(iterate(s, j)) && j < MAX_PASSES {
        lemma_passes_from_facts(s, j + 1);
    }
}

/// Normalizing a buffer that normalization has already brightened applies no
/// further pass: the second run finds the threshold met at once.
pub proof fn lemma_normalize_idempotent(s: Seq<u8>)
    requires
        passes_needed(s) is Some,
    ensures
        passes_needed(iterate(s, passes_needed(s)->Some_0)) == Some(0nat),
        iterate(iterate(s, passes_needed(s)->Some_0), 0) == iterate(s, passes_needed(s)->Some_0),
{
    lemma_passes_needed(s);
    let t = iterate(s, passes_needed(s)->Some_0);
    assert(iterate(t, 0) == t);
}

/// A brightened channel never falls below its old value.
pub proof fn lemma_brighten_channel_grows(c: u8)
    ensures
        brighten_channel(c) >= c,
{
    if 11 * c <= 2550 {
        assert((11 * (c as int)) / 10 >= c as int);
    }
}

/// Across any number of brightening passes no byte decreases, the length is
/// kept and every alpha byte stays exactly as it was.
pub proof fn lemma_iterate_monotone(s: Seq<u8>, k: nat)
    ensures
        iterate(s, k).len() == s.len(),
        forall|i: int| 0 <= i < s.len() ==> #[trigger] iterate(s, k)[i] >= s[i],
        forall|i: int| 0 <= i < s.len() && i % 4 == 3 ==> #[trigger] iterate(s, k)[i] == s[i],
    decreases k,
{
    if k > 0 {
        let p = (k - 1) as nat;
        lemma_iterate_monotone(s, p);
        let prev = iterate(s, p);
        assert forall|i: int| 0 <= i < s.len() implies #[trigger] iterate(s, k)[i] >= s[i] by {
            lemma_brighten_channel_grows(prev[i]);
        }
    }
}

/// Computes whether the mean luminance of the buffer reaches the threshold.
fn mean_reaches_threshold(data: &Vec<u8>) -> (r: bool)
    ensures
        r == is_bright(data@),
{
    let len: usize = data.len();
    let n: usize = len / 4;
    let mut total: u128 = 0;
    let mut p: usize = 0;
    while p < n
        invariant
            len == data@.len(),
            n == pixel_count(data@),
            p <= n,
            total == luminance_total(data@, p as nat),
            total <= 255000 * p,
        decreases n - p,
    {
        assert(4 * p + 3 < data@.len());
        let base: usize = 4 * p;
        let r = data[base] as u128;
        let g = data[base + 1] as u128;
        let b = data[base + 2] as u128;
        assert(p < 0x1_0000_0000_0000_0000) by {
            assert(p < n);
        }
        assert(255000 * (p + 1) < 0x1_0000_0000_0000_0000_0000_0000) by (nonlinear_arith)
            requires
                p < 0x1_0000_0000_0000_0000,
        ;
        total = total + 299 * r + 587 * g + 114 * b;
        p = p + 1;
    }
    assert(80000 * n < 0x1_0000_0000_0000_0000_0000_0000) by (nonlinear_arith)
        requires
            n < 0x1_0000_0000_0000_0000,
    ;
    total >= 80000 * (n as u128)
}

/// Applies one brightening pass in place.
fn brighten_pass(data: &mut Vec<u8>)
    ensures
        final(data)@ == brighten(old(data)@),
{
    let ghost before = data@;
    let len: usize = data.len();
    let mut i: usize = 0;
    while i < len
        invariant
            len == before.len(),
            data@.len() == len,
            i <= len,
            forall|j: int| 0 <= j < i ==> data@[j] == #[trigger] brighten(before)[j],
            forall|j: int| i <= j < len ==> data@[j] == before[j],
        decreases len - i,
    {
        if i % 4 != 3 {
            let c: u16 = data[i] as u16;
            if 11 * c <= 2550 {
                data.set(i, ((11 * c) / 10) as u8);
            }
        }
        i = i + 1;
    }
    assert(data@ =~= brighten(before));
}

/// Brightens the buffer in place, pass by pass, until its mean luminance
/// reaches the threshold, and returns the number of passes applied.
///
/// A buffer without pixels is refused. After `MAX_PASSES` passes without
/// success the loop gives up with `IterationLimitExceeded`.
pub fn normalize(data: &mut Vec<u8>) -> (r: Result<u32, ImageError>)
    requires
        old(data)@.len() % 4 == 0,
    ensures
        old(data)@.len() == 0 ==> r == Err::<u32, ImageError>(ImageError::DegenerateImage)
            && final(data)@ == old(data)@,
        old(data)@.len() > 0 ==> match passes_needed(old(data)@) {
            Some(k) => r matches Ok(m) && m as nat == k && final(data)@ == iterate(old(data)@, k),
            None => r == Err::<u32, ImageError>(ImageError::IterationLimitExceeded)
                && final(data)@ == iterate(old(data)@, MAX_PASSES as nat),
        },
{
    if data.len() == 0 {
        return Err(ImageError::DegenerateImage);
    }
    let ghost start = data@;
    let mut passes: u32 = 0;
    loop
        invariant
            passes <= MAX_PASSES,
            start == old(data)@,
            start.len() > 0,
            data@ == iterate(start, passes as nat),
            forall|i: nat| i < passes ==> !is_bright(#[trigger] iterate(start, i)),
        decreases MAX_PASSES - passes,
    {
        if mean_reaches_threshold(data) {
            proof {
                lemma_passes_from(start, passes as nat);
            }
            return Ok(passes);
        }
        if passes == MAX_PASSES {
            proof {
                lemma_passes_from(start, passes as nat);
            }
            return Err(ImageError::IterationLimitExceeded);
        }
        brighten_pass(data);
        passes = passes + 1;
    }
}

} // verus!
