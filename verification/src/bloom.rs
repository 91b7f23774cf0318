//! Post-processing: a separable blur of the emissive plane and the additive
//! bloom that composes it onto the colour plane.

use vstd::prelude::*;
use crate::color::Color;
use crate::fixed::{clamp_int, lemma_div_unique, lemma_mul_bounded};
use crate::framebuffer::lemma_index_in_range;

verus! {

/// The blurred emission is scaled by `BLOOM_STRENGTH_NUM / BLOOM_STRENGTH_DEN`
/// before it is added to a channel.
pub const BLOOM_STRENGTH_NUM: u64 = 4;

/// The denominator of the bloom strength.
pub const BLOOM_STRENGTH_DEN: u64 = 5;

/// The overall ceiling of a bloomed channel, before the channel maximum applies.
pub const BLOOM_CEILING: u64 = 306;

/// One channel after bloom: the channel plus the scaled emission, held to
/// the bloom ceiling and to the channel maximum.
pub open spec fn bloom_channel(c: int, intensity: int) -> int {
    let raised = c + (intensity * BLOOM_STRENGTH_NUM) / (BLOOM_STRENGTH_DEN as int);
    let capped = if raised > BLOOM_CEILING {
        BLOOM_CEILING as int
    } else {
        raised
    };
    if capped > 255 {
        255
    } else {
        capped
    }
}

/// A packed colour after bloom of the given intensity.
pub open spec fn bloom_blend(base: u32, intensity: u32) -> int {
    let c = Color::unpacked(base as int);
    bloom_channel(c.r as int, intensity as int) * 65536 + bloom_channel(
        c.g as int,
        intensity as int,
    ) * 256 + bloom_channel(c.b as int, intensity as int)
}

/// The colour plane after bloom: a pixel changes only where the blurred
/// emission is present and positive.
pub open spec fn bloomed(colors: Seq<u32>, bloom: Seq<u32>) -> Seq<u32> {
    Seq::new(
        colors.len(),
        |i: int|
            if i < bloom.len() && bloom[i] > 0 {
                bloom_blend(colors[i], bloom[i]) as u32
            } else {
                colors[i]
            },
    )
}

fn bloom_byte(c: u8, intensity: u32) -> (r: u32)
    ensures
        r == bloom_channel(c as int, intensity as int),
        r <= 255,
{
    let raised: u64 = c as u64 + (intensity as u64 * BLOOM_STRENGTH_NUM) / BLOOM_STRENGTH_DEN;
    let capped: u64 = if raised > BLOOM_CEILING {
        BLOOM_CEILING
    } else {
        raised
    };
    if capped > 255 {
        255
    } else {
        capped as u32
    }
}

/// Adds the scaled emission to every channel of a packed colour.
pub fn blend_bloom(base_color: u32, bloom_intensity: u32) -> (blended: u32)
    ensures
        blended == bloom_blend(base_color, bloom_intensity),
        blended <= 0xFFFFFF,
        bloom_intensity == 0 ==> blended == base_color % 0x1000000,
{
    let c: Color = Color::from_hex(base_color);
    let r: u32 = bloom_byte(c.r, bloom_intensity);
    let g: u32 = bloom_byte(c.g, bloom_intensity);
    let b: u32 = bloom_byte(c.b, bloom_intensity);
    r * 65536 + g * 256 + b
}

/// Composes the blurred emissive plane onto the colour plane. Pixels whose
/// emission is zero, or that have no entry in `bloom`, are left as they are.
pub fn apply_bloom(colors: &mut Vec<u32>, bloom: &Vec<u32>, width: usize, height: usize)
    ensures
        final(colors)@ == bloomed(old(colors)@, bloom@),
        final(colors).len() == old(colors).len(),
        forall|i: int|
            0 <= i < old(colors).len() && (i >= bloom.len() || bloom[i] == 0)
                ==> final(colors)[i] == old(colors)[i],
{
    let mut i: usize = 0;
    while i < colors.len()
        invariant
            i <= colors.len(),
            colors.len() == old(colors).len(),
            forall|k: int| 0 <= k < i ==> colors[k] == bloomed(old(colors)@, bloom@)[k],
            forall|k: int| i <= k < colors.len() ==> colors[k] == old(colors)[k],
        decreases colors.len() - i,
    {
        if i < bloom.len() {
            let bloom_intensity: u32 = bloom[i];
            if bloom_intensity > 0 {
                let base_color: u32 = colors[i];
                colors.set(i, blend_bloom(base_color, bloom_intensity));
            }
        }
        i = i + 1;
    }
    assert(colors@ =~= bloomed(old(colors)@, bloom@));
}

/// The sum of the first `n` kernel weights.
pub open spec fn weight_sum(kernel: Seq<u32>, n: int) -> int
    decreases n,
{
    if n <= 0 {
        0
    } else {
        weight_sum(kernel, n - 1) + kernel[n - 1] as int
    }
}

/// The position in the line that kernel tap `j` reads for the sample at
/// `pos`: the kernel is centred on `pos`.
pub open spec fn tap_source(kernel_len: int, pos: int, j: int) -> int {
    pos + j - kernel_len / 2
}

/// The contribution of kernel tap `j` to the sample at `pos`. A tap that
/// falls outside the line contributes zero.
pub open spec fn tap(line: Seq<u32>, kernel: Seq<u32>, pos: int, j: int) -> int {
    let s = tap_source(kernel.len() as int, pos, j);
    if 0 <= s < line.len() {
        line[s] as int * kernel[j] as int
    } else {
        0
    }
}

/// The contributions of the first `n` kernel taps.
pub open spec fn tap_sum(line: Seq<u32>, kernel: Seq<u32>, pos: int, n: int) -> int
    decreases n,
{
    if n <= 0 {
        0
    } else {
        tap_sum(line, kernel, pos, n - 1) + tap(line, kernel, pos, n - 1)
    }
}

/// `acc / total` rounded to the nearest integer, halves upwards, and held to
/// 32 bits. A kernel without weight yields zero.
pub open spec fn rounded_quotient(acc: int, total: int) -> int {
    if total <= 0 {
        0
    } else {
        clamp_int((2 * acc + total) / (2 * total), 0, 0xFFFF_FFFF)
    }
}

/// The convolution of `line` with `kernel` at `pos`, normalised by the
/// kernel's own sum.
pub open spec fn blur_value(line: Seq<u32>, kernel: Seq<u32>, pos: int) -> u32 {
    rounded_quotient(
        tap_sum(line, kernel, pos, kernel.len() as int),
        weight_sum(kernel, kernel.len() as int),
    ) as u32
}

/// The line of `count` samples that starts at `start` and advances by `stride`.
pub open spec fn strided(src: Seq<u32>, start: int, stride: int, count: int) -> Seq<u32> {
    Seq::new(count as nat, |s: int| src[start + s * stride])
}

/// Every row of a row-major image convolved with the kernel.
pub open spec fn blur_rows(img: Seq<u32>, width: int, height: int, kernel: Seq<u32>) -> Seq<u32> {
    Seq::new(
        (width * height) as nat,
        |i: int| blur_value(strided(img, (i / width) * width, 1, width), kernel, i % width),
    )
}

/// Every column of a row-major image convolved with the kernel.
pub open spec fn blur_columns(img: Seq<u32>, width: int, height: int, kernel: Seq<u32>) -> Seq<
    u32,
> {
    Seq::new(
        (width * height) as nat,
        |i: int| blur_value(strided(img, i % width, width, height), kernel, i / width),
    )
}

/// The separable blur: rows first, then columns of the intermediate image.
pub open spec fn blurred(img: Seq<u32>, width: int, height: int, kernel: Seq<u32>) -> Seq<u32> {
    blur_columns(blur_rows(img, width, height, kernel), width, height, kernel)
}

/// Rounding to nearest is the quotient, plus one when the remainder is at
/// least half the divisor.
pub proof fn lemma_rounded_quotient(acc: int, total: int)
    requires
        acc >= 0,
        total > 0,
    ensures
        (2 * acc + total) / (2 * total) == acc / total + (if 2 * (acc % total) >= total {
            1int
        } else {
            0int
        }),
{
    let q = acc / total;
    let r = acc % total;
    assert(acc == total * q + r && 0 <= r < total) by (nonlinear_arith)
        requires
            total > 0,
            q == acc / total,
            r == acc % total,
    ;
    if 2 * r >= total {
        assert(2 * acc + total == (2 * total) * (q + 1) + (2 * r - total)) by (nonlinear_arith)
            requires
                acc == total * q + r,
        ;
        lemma_div_unique(2 * acc + total, 2 * total, q + 1, 2 * r - total);
    } else {
        assert(2 * acc + total == (2 * total) * q + (2 * r + total)) by (nonlinear_arith)
            requires
                acc == total * q + r,
        ;
        lemma_div_unique(2 * acc + total, 2 * total, q, 2 * r + total);
    }
}

/// Where every tap of the kernel falls inside the line on the same value,
/// the taps add up to that value times the kernel's sum.
pub proof fn lemma_tap_sum_constant(line: Seq<u32>, kernel: Seq<u32>, pos: int, c: u32, n: int)
    requires
        0 <= n <= kernel.len(),
        forall|j: int|
            0 <= j < n ==> {
                let s = #[trigger] tap_source(kernel.len() as int, pos, j);
                0 <= s < line.len() && line[s] == c
            },
    ensures
        tap_sum(line, kernel, pos, n) == c as int * weight_sum(kernel, n),
    decreases n,
{
    if n > 0 {
        lemma_tap_sum_constant(line, kernel, pos, c, n - 1);
        let s = tap_source(kernel.len() as int, pos, n - 1);
        assert(0 <= s < line.len() && line[s] == c);
        assert(c as int * (weight_sum(kernel, n - 1) + kernel[n - 1] as int) == c as int
            * weight_sum(kernel, n - 1) + c as int * kernel[n - 1] as int) by (nonlinear_arith);
    }
}

/// Convolving a constant with a kernel of positive weight, normalised by the
/// kernel's sum, gives the constant back: wherever the whole kernel window
/// lies inside the line on one value, the blurred sample is that value.
pub proof fn lemma_blur_constant(line: Seq<u32>, kernel: Seq<u32>, pos: int, c: u32)
    requires
        weight_sum(kernel, kernel.len() as int) > 0,
        forall|j: int|
            0 <= j < kernel.len() ==> {
                let s = #[trigger] tap_source(kernel.len() as int, pos, j);
                0 <= s < line.len() && line[s] == c
            },
    ensures
        blur_value(line, kernel, pos) == c,
{
    let total = weight_sum(kernel, kernel.len() as int);
    lemma_tap_sum_constant(line, kernel, pos, c, kernel.len() as int);
    let acc = c as int * total;
    assert(acc >= 0) by (nonlinear_arith)
        requires
            acc == c as int * total,
            total > 0,
    ;
    assert(2 * acc + total == (2 * total) * (c as int) + total) by (nonlinear_arith)
        requires
            acc == c as int * total,
    ;
    lemma_div_unique(2 * acc + total, 2 * total, c as int, total);
}

/// The index of pixel `(x, y)` in a row-major image.
pub open spec fn pixel_index(width: int, x: int, y: int) -> int {
    y * width + x
}

/// Blurring a constant image returns the constant wherever the kernel window
/// lies inside the image in both directions.
pub proof fn lemma_blur_constant_image(
    img: Seq<u32>,
    width: int,
    height: int,
    kernel: Seq<u32>,
    c: u32,
    x: int,
    y: int,
)
    requires
        img.len() == width * height,
        forall|i: int| 0 <= i < img.len() ==> img[i] == c,
        weight_sum(kernel, kernel.len() as int) > 0,
        0 <= tap_source(kernel.len() as int, x, 0),
        tap_source(kernel.len() as int, x, kernel.len() - 1) < width,
        0 <= tap_source(kernel.len() as int, y, 0),
        tap_source(kernel.len() as int, y, kernel.len() - 1) < height,
    ensures
        0 <= y * width + x < width * height,
        blurred(img, width, height, kernel)[y * width + x] == c,
{
    let n = kernel.len() as int;
    let mid = blur_rows(img, width, height, kernel);
    assert(n > 0);
    assert(0 <= x < width && 0 <= y < height);
    assert(0 <= width * height) by (nonlinear_arith)
        requires
            width > 0,
            height > 0,
    ;
    assert forall|row: int| 0 <= row < height implies 0 <= #[trigger] pixel_index(width, x, row)
        < width * height && mid[pixel_index(width, x, row)] == c by {
        lemma_index_in_range(width, height, x, row);
        let i = row * width + x;
        assert(width * row == row * width) by (nonlinear_arith);
        lemma_div_unique(i, width, row, x);
        let line = strided(img, row * width, 1, width);
        assert forall|j: int| 0 <= j < n implies {
            let s = #[trigger] tap_source(n, x, j);
            0 <= s < line.len() && line[s] == c
        } by {
            let s = tap_source(n, x, j);
            lemma_index_in_range(width, height, s, row);
        }
        lemma_blur_constant(line, kernel, x, c);
    }
    lemma_index_in_range(width, height, x, y);
    let i = y * width + x;
    assert(width * y == y * width) by (nonlinear_arith);
    lemma_div_unique(i, width, y, x);
    let column = strided(mid, x, width, height);
    assert forall|j: int| 0 <= j < n implies {
        let s = #[trigger] tap_source(n, y, j);
        0 <= s < column.len() && column[s] == c
    } by {
        let s = tap_source(n, y, j);
        assert(column[s] == mid[pixel_index(width, x, s)]);
    }
    lemma_blur_constant(column, kernel, y, c);
}

/// The kernel's weights are bounded, so their sum is.
proof fn lemma_weight_sum_bound(kernel: Seq<u32>, n: int)
    requires
        0 <= n <= kernel.len(),
    ensures
        0 <= weight_sum(kernel, n) <= n * 0xFFFF_FFFF,
    decreases n,
{
    if n > 0 {
        lemma_weight_sum_bound(kernel, n - 1);
    }
}

fn kernel_weight(kernel: &Vec<u32>) -> (total: u128)
    ensures
        total == weight_sum(kernel@, kernel.len() as int),
{
    let mut total: u128 = 0;
    let mut k: usize = 0;
    while k < kernel.len()
        invariant
            k <= kernel.len(),
            total == weight_sum(kernel@, k as int),
            total <= k * 0xFFFF_FFFF,
        decreases kernel.len() - k,
    {
        total = total + kernel[k] as u128;
        k = k + 1;
    }
    total
}

fn round_quotient(acc: u128, total: u128) -> (r: u32)
    requires
        acc < u128::MAX,
    ensures
        r == rounded_quotient(acc as int, total as int),
{
    if total == 0 {
        0
    } else {
        proof {
            lemma_rounded_quotient(acc as int, total as int);
            assert(acc as int / total as int <= acc) by (nonlinear_arith)
                requires
                    acc >= 0,
                    total >= 1,
            ;
        }
        let q: u128 = acc / total;
        let rem: u128 = acc % total;
        let rounded: u128 = if rem >= total - rem {
            q + 1
        } else {
            q
        };
        if rounded > 0xFFFF_FFFF {
            0xFFFF_FFFF
        } else {
            rounded as u32
        }
    }
}

/// The blurred sample at `pos` of one strided line of `src`.
fn blur_at(
    src: &Vec<u32>,
    start: usize,
    stride: usize,
    count: usize,
    pos: usize,
    kernel: &Vec<u32>,
    total: u128,
) -> (r: u32)
    requires
        pos < count,
        start + (count - 1) * stride < src.len(),
        total == weight_sum(kernel@, kernel.len() as int),
    ensures
        r == blur_value(
            strided(src@, start as int, stride as int, count as int),
            kernel@,
            pos as int,
        ),
{
    let ghost line = strided(src@, start as int, stride as int, count as int);
    let half: u128 = (kernel.len() / 2) as u128;
    let mut acc: u128 = 0;
    let mut k: usize = 0;
    while k < kernel.len()
        invariant
            k <= kernel.len(),
            pos < count,
            start + (count - 1) * stride < src.len(),
            half == kernel.len() as int / 2,
            line == strided(src@, start as int, stride as int, count as int),
            acc == tap_sum(line, kernel@, pos as int, k as int),
            acc <= k * 0xFFFF_FFFE_0000_0001,
        decreases kernel.len() - k,
    {
        let shifted: u128 = pos as u128 + k as u128;
        if shifted >= half && shifted - half < count as u128 {
            let s: usize = (shifted - half) as usize;
            proof {
                assert(0 <= s * stride <= (count - 1) * stride) by (nonlinear_arith)
                    requires
                        0 <= s <= count - 1,
                        stride >= 0,
                ;
            }
            let sample: u32 = src[start + s * stride];
            proof {
                lemma_mul_bounded(sample as int, kernel[k as int] as int, 0xFFFF_FFFF, 0xFFFF_FFFF);
                assert(line[s as int] == sample);
            }
            acc = acc + (sample as u128) * (kernel[k] as u128);
        }
        k = k + 1;
    }
    round_quotient(acc, total)
}

/// One pass of the separable blur over a row-major image.
fn blur_pass(src: &Vec<u32>, width: usize, height: usize, kernel: &Vec<u32>, vertical: bool) -> (out:
    Vec<u32>)
    requires
        src.len() == width * height,
    ensures
        out@ == (if vertical {
            blur_columns(src@, width as int, height as int, kernel@)
        } else {
            blur_rows(src@, width as int, height as int, kernel@)
        }),
{
    let total: u128 = kernel_weight(kernel);
    let ghost want = if vertical {
        blur_columns(src@, width as int, height as int, kernel@)
    } else {
        blur_rows(src@, width as int, height as int, kernel@)
    };
    let mut out: Vec<u32> = Vec::new();
    let mut y: usize = 0;
    assert(0 <= width * height) by (nonlinear_arith);
    while y < height
        invariant
            y <= height,
            src.len() == width * height,
            total == weight_sum(kernel@, kernel.len() as int),
            want == (if vertical {
                blur_columns(src@, width as int, height as int, kernel@)
            } else {
                blur_rows(src@, width as int, height as int, kernel@)
            }),
            want.len() == width * height,
            out.len() == y * width,
            out.len() <= want.len(),
            forall|i: int| 0 <= i < out.len() ==> out[i] == want[i],
        decreases height - y,
    {
        let mut x: usize = 0;
        while x < width
            invariant
                x <= width,
                y < height,
                src.len() == width * height,
                total == weight_sum(kernel@, kernel.len() as int),
                want == (if vertical {
                    blur_columns(src@, width as int, height as int, kernel@)
                } else {
                    blur_rows(src@, width as int, height as int, kernel@)
                }),
                want.len() == width * height,
                out.len() == y * width + x,
                out.len() <= want.len(),
                forall|i: int| 0 <= i < out.len() ==> out[i] == want[i],
            decreases width - x,
        {
            proof {
                lemma_index_in_range(width as int, height as int, x as int, y as int);
                lemma_index_in_range(width as int, height as int, width as int - 1, y as int);
                lemma_index_in_range(width as int, height as int, x as int, height as int - 1);
                assert(width * y == y * width) by (nonlinear_arith);
                lemma_div_unique(y * width + x, width as int, y as int, x as int);
            }
            let value: u32 = if vertical {
                blur_at(src, x, width, height, y, kernel, total)
            } else {
                blur_at(src, y * width, 1, width, x, kernel, total)
            };
            out.push(value);
            x = x + 1;
        }
        assert((y + 1) * width == y * width + width) by (nonlinear_arith);
        y = y + 1;
    }
    assert(out.len() == want.len()) by (nonlinear_arith)
        requires
            out.len() == height * width,
            want.len() == width * height,
    ;
    assert(out@ =~= want);
    out
}

/// Blurs a row-major image in place with a separable kernel: every row is
/// convolved with the kernel, then every column of the result. Samples
/// outside the image contribute zero, and each pass is normalised by the
/// kernel's own sum.
pub fn gaussian_blur(buffer: &mut Vec<u32>, width: usize, height: usize, kernel: &Vec<u32>)
    requires
        old(buffer).len() == width * height,
    ensures
        final(buffer)@ == blurred(old(buffer)@, width as int, height as int, kernel@),
        final(buffer).len() == old(buffer).len(),
{
    let rows: Vec<u32> = blur_pass(buffer, width, height, kernel, false);
    let columns: Vec<u32> = blur_pass(&rows, width, height, kernel, true);
    *buffer = columns;
}

} // verus!
