//! Sample-rate conversion of 16-bit PCM by linear interpolation, as used
//! when the microphone and the system stream run at different rates. The
//! arithmetic is exact: positions and weights are kept as fractions of the
//! target rate, and results are rounded to the nearest integer (halves away
//! from zero), then clamped to the 16-bit range.
use vstd::prelude::*;

verus! {

/// The number of output samples: `len * target / src` rounded to the
/// nearest integer (halves up), and at least one.
pub open spec fn resampled_len(len: nat, src: nat, target: nat) -> nat {
    let n = (2 * len * target + src) / (2 * src);
    if n < 1 {
        1
    } else {
        n as nat
    }
}

/// `num / d` rounded to the nearest integer, halves away from zero.
pub open spec fn round_div(num: int, d: int) -> int {
    if num >= 0 {
        (2 * num + d) / (2 * d)
    } else {
        -((2 * (-num) + d) / (2 * d))
    }
}

pub open spec fn clamp_i16(v: int) -> i16 {
    if v < i16::MIN {
        i16::MIN
    } else if v > i16::MAX {
        i16::MAX
    } else {
        v as i16
    }
}

/// Output sample `i`: the input is read at position `i * src / target`,
/// between sample `idx` (0 past the end) and the next one (the last sample
/// past the end), weighted by the fractional part.
pub open spec fn resampled_sample(input: Seq<i16>, i: int, src: int, target: int) -> i16 {
    let p = i * src;
    let idx = p / target;
    let rem = p % target;
    let a: int = if idx < input.len() {
        input[idx] as int
    } else {
        0
    };
    let b: int = if idx + 1 < input.len() {
        input[idx + 1] as int
    } else {
        input.last() as int
    };
    clamp_i16(round_div(a * target + (b - a) * rem, target))
}

/// What resampling gives: nothing for no input, the input itself when the
/// rates agree or the source rate is unknown (0), one silent sample for a
/// target rate of 0 (no position can be computed), else the interpolated
/// samples.
pub open spec fn resampled(input: Seq<i16>, src: nat, target: nat) -> Seq<i16> {
    if input.len() == 0 {
        Seq::empty()
    } else if src == 0 || src == target {
        input
    } else if target == 0 {
        seq![0i16]
    } else {
        Seq::new(
            resampled_len(input.len(), src, target),
            |i: int| resampled_sample(input, i, src as int, target as int),
        )
    }
}

proof fn lemma_product_bound(i: nat, src: nat)
    requires
        i <= 0xffff_ffff_ffff_ffff,
        src <= 0xffff_ffff,
    ensures
        i * src <= 0xffff_ffff_ffff_ffff * 0xffff_ffff,
{
    assert(i * src <= 0xffff_ffff_ffff_ffff * 0xffff_ffff) by (nonlinear_arith)
        requires
            i <= 0xffff_ffff_ffff_ffff,
            src <= 0xffff_ffff,
    ;
}

proof fn lemma_len_bound(len: nat, target: nat)
    requires
        len <= 0xffff_ffff_ffff_ffff,
        target <= 0xffff_ffff,
    ensures
        2 * len * target + 0xffff_ffff <= 0x1_0000_0000_0000_0000_0000_0000_0000,
{
    assert(len * target <= 0xffff_ffff_ffff_ffff * 0xffff_ffff) by (nonlinear_arith)
        requires
            len <= 0xffff_ffff_ffff_ffff,
            target <= 0xffff_ffff,
    ;
    assert(2 * len * target == 2 * (len * target)) by (nonlinear_arith);
}

proof fn lemma_weight_bounds(a: int, b: int, rem: int, t: int)
    requires
        -32768 <= a <= 32767,
        -32768 <= b <= 32767,
        0 <= rem < t,
        t <= 0xffff_ffff,
    ensures
        -0x1_0000_0000_0000 <= a * t <= 0x1_0000_0000_0000,
        -0x1_0000_0000_0000_0000 <= (b - a) * rem <= 0x1_0000_0000_0000_0000,
{
    assert(-0x1_0000_0000_0000 <= a * t <= 0x1_0000_0000_0000) by (nonlinear_arith)
        requires
            -32768 <= a <= 32767,
            0 < t <= 0xffff_ffff,
    ;
    assert(-0x1_0000_0000_0000_0000 <= (b - a) * rem <= 0x1_0000_0000_0000_0000) by (
    nonlinear_arith)
        requires
            -65535 <= b - a <= 65535,
            0 <= rem <= 0xffff_ffff,
    ;
}

fn round_div_exec(num: i128, d: i128) -> (r: i128)
    requires
        0 < d <= 0xffff_ffff,
        -0x1_0000_0000_0000_0000_0000 <= num <= 0x1_0000_0000_0000_0000_0000,
    ensures
        r == round_div(num as int, d as int),
{
    if num >= 0 {
        (2 * num + d) / (2 * d)
    } else {
        -((2 * (-num) + d) / (2 * d))
    }
}

fn clamp_exec(v: i128) -> (r: i16)
    ensures
        r == clamp_i16(v as int),
{
    if v < -32768 {
        -32768
    } else if v > 32767 {
        32767
    } else {
        v as i16
    }
}

/// Converts `input`, sampled at `src_rate`, to `target_rate`.
pub fn resample_i16(input: &[i16], src_rate: u32, target_rate: u32) -> (out: Vec<i16>)
    requires
        input@.len() == 0 || src_rate == 0 || src_rate == target_rate || resampled_len(
            input@.len(),
            src_rate as nat,
            target_rate as nat,
        ) <= usize::MAX,
    ensures
        out@ == resampled(input@, src_rate as nat, target_rate as nat),
{
    let len = input.len();
    if len == 0 {
        return Vec::new();
    }
    if src_rate == 0 || src_rate == target_rate {
        let mut copy: Vec<i16> = Vec::new();
        let mut k: usize = 0;
        while k < len
            invariant
                len == input@.len(),
                k <= len,
                copy@ == input@.subrange(0, k as int),
            decreases len - k,
        {
            copy.push(input[k]);
            proof {
                assert(input@.subrange(0, k + 1) =~= input@.subrange(0, k as int).push(input@[k as int]));
            }
            k = k + 1;
        }
        proof {
            assert(input@.subrange(0, len as int) =~= input@);
        }
        return copy;
    }
    if target_rate == 0 {
        let mut silent: Vec<i16> = Vec::new();
        silent.push(0);
        proof {
            assert(silent@ =~= seq![0i16]);
        }
        return silent;
    }
    let src: u128 = src_rate as u128;
    let target: u128 = target_rate as u128;
    proof {
        lemma_len_bound(len as nat, target_rate as nat);
    }
    let n_raw: u128 = (2 * (len as u128) * target + src) / (2 * src);
    let n: usize = if n_raw < 1 {
        1
    } else {
        n_raw as usize
    };
    assert(n == resampled_len(len as nat, src_rate as nat, target_rate as nat));
    let last: i16 = input[len - 1];
    let mut out: Vec<i16> = Vec::new();
    let mut i: usize = 0;
    while i < n
        invariant
            len == input@.len(),
            len > 0,
            last == input@.last(),
            src == src_rate,
            target == target_rate,
            0 < src <= 0xffff_ffff,
            0 < target <= 0xffff_ffff,
            i <= n,
            out@.len() == i,
            forall|j: int|
                0 <= j < i ==> #[trigger] out@[j] == resampled_sample(
                    input@,
                    j,
                    src as int,
                    target as int,
                ),
        decreases n - i,
    {
        proof {
            lemma_product_bound(i as nat, src as nat);
        }
        let p: u128 = (i as u128) * src;
        let idx: u128 = p / target;
        let rem: u128 = p % target;
        let a: i16 = if idx < len as u128 {
            input[idx as usize]
        } else {
            0
        };
        let b: i16 = if idx + 1 < len as u128 {
            input[(idx + 1) as usize]
        } else {
            last
        };
        let t: i128 = target as i128;
        let r: i128 = rem as i128;
        proof {
            lemma_weight_bounds(a as int, b as int, r as int, t as int);
        }
        let num: i128 = (a as i128) * t + ((b as i128) - (a as i128)) * r;
        let v = clamp_exec(round_div_exec(num, t));
        out.push(v);
        i = i + 1;
    }
    proof {
        assert(out@ =~= resampled(input@, src_rate as nat, target_rate as nat));
    }
    out
}

} // verus!
