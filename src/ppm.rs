use vstd::prelude::*;

use crate::canvas::Rgb8;

verus! {

/// The byte of a line break.
pub const NEWLINE: u8 = 10;

/// The byte that separates two samples on a line.
pub const SPACE: u8 = 32;

/// The largest value a sample can take, written in the header.
pub const MAX_COLOR_VALUE: u8 = 255;

/// A line of pixel data is broken before its length reaches this many bytes.
pub const LINE_LIMIT: u8 = 69;

/// The decimal digits of `n` as ASCII bytes, without leading zeros.
pub open spec fn decimal(n: nat) -> Seq<u8>
    decreases n,
{
    if n < 10 {
        seq![(48 + n) as u8]
    } else {
        decimal(n / 10).push((48 + n % 10) as u8)
    }
}

/// The header of a plain PPM image: magic number, size and largest sample value.
pub open spec fn ppm_header(width: nat, height: nat) -> Seq<u8> {
    seq![80u8, 51u8, NEWLINE] + decimal(width) + seq![SPACE] + decimal(height) + seq![NEWLINE]
        + decimal(MAX_COLOR_VALUE as nat) + seq![NEWLINE]
}

/// Channel `c` (0 red, 1 green, 2 blue) of a pixel.
pub open spec fn channel(p: Rgb8, c: int) -> u8 {
    if c == 0 {
        p.red
    } else if c == 1 {
        p.green
    } else {
        p.blue
    }
}

/// The samples of a row-major pixel sequence, three per pixel.
pub open spec fn samples(pixels: Seq<Rgb8>) -> Seq<u8> {
    Seq::new(3 * pixels.len(), |k: int| channel(pixels[k / 3], k % 3))
}

/// Whether sample `k` is the blue sample of the last pixel of a row.
pub open spec fn ends_row(width: nat, k: int) -> bool {
    (k / 3) % (width as int) == width - 1 && k % 3 == 2
}

/// Writing one sample on a line that already holds `count` bytes: the bytes
/// written and the length of the line afterwards.
pub open spec fn wrap_step(count: nat, value: u8, row_end: bool) -> (Seq<u8>, nat) {
    let digits = decimal(value as nat);
    let filled = count + digits.len();
    if filled + 2 >= LINE_LIMIT || row_end {
        (digits.push(NEWLINE), 0)
    } else {
        (digits.push(SPACE), filled + 1)
    }
}

/// The bytes written for the first `k` samples, and the length of the last line.
pub open spec fn ppm_lines(samples: Seq<u8>, width: nat, k: nat) -> (Seq<u8>, nat)
    decreases k,
{
    if k == 0 {
        (Seq::empty(), 0)
    } else {
        let prev = ppm_lines(samples, width, (k - 1) as nat);
        let step = wrap_step(prev.1, samples[k - 1], ends_row(width, k - 1));
        (prev.0 + step.0, step.1)
    }
}

/// The pixel data of a PPM image of the given width.
pub open spec fn ppm_data(width: nat, pixels: Seq<Rgb8>) -> Seq<u8> {
    let s = samples(pixels);
    ppm_lines(s, width, s.len()).0
}

proof fn lemma_decimal_len(n: nat)
    requires
        n <= 255,
    ensures
        1 <= decimal(n).len() <= 3,
        forall|k: int| 0 <= k < decimal(n).len() ==> 48 <= #[trigger] decimal(n)[k] <= 57,
{
    reveal_with_fuel(decimal, 3);
}

/// How many bytes before position `j` of `bytes` stand on the same line.
pub open spec fn column(bytes: Seq<u8>, j: int) -> nat
    decreases j,
{
    if j <= 0 || bytes[j - 1] == NEWLINE {
        0
    } else {
        1 + column(bytes, j - 1)
    }
}

proof fn lemma_column_prefix(a: Seq<u8>, b: Seq<u8>, j: int)
    requires
        0 <= j <= a.len(),
    ensures
        column(a + b, j) == column(a, j),
    decreases j,
{
    if j > 0 {
        assert((a + b)[j - 1] == a[j - 1]);
        lemma_column_prefix(a, b, j - 1);
    }
}

proof fn lemma_column_append(a: Seq<u8>, b: Seq<u8>, m: int)
    requires
        0 <= m <= b.len(),
        forall|k: int| 0 <= k < m ==> b[k] != NEWLINE,
    ensures
        column(a + b, a.len() + m) == column(a, a.len() as int) + m,
    decreases m,
{
    if m > 0 {
        assert((a + b)[a.len() + m - 1] == b[m - 1]);
        lemma_column_append(a, b, m - 1);
    } else {
        lemma_column_prefix(a, b, a.len() as int);
    }
}

proof fn lemma_lines_short(s: Seq<u8>, width: nat, k: nat)
    requires
        k <= s.len(),
    ensures
        column(ppm_lines(s, width, k).0, ppm_lines(s, width, k).0.len() as int) == ppm_lines(
            s,
            width,
            k,
        ).1,
        ppm_lines(s, width, k).1 + 2 <= LINE_LIMIT,
        forall|j: int|
            0 <= j <= ppm_lines(s, width, k).0.len() ==> #[trigger] column(
                ppm_lines(s, width, k).0,
                j,
            ) <= LINE_LIMIT + 1,
    decreases k,
{
    if k > 0 {
        lemma_lines_short(s, width, (k - 1) as nat);
        let (out, count) = ppm_lines(s, width, (k - 1) as nat);
        let value = s[k - 1];
        let digits = decimal(value as nat);
        let (piece, next) = wrap_step(count, value, ends_row(width, k - 1));
        lemma_decimal_len(value as nat);
        let joined = out + piece;
        assert(joined == ppm_lines(s, width, k).0);
        assert forall|j: int| 0 <= j <= joined.len() implies #[trigger] column(joined, j)
            <= LINE_LIMIT + 1 by {
            if j <= out.len() {
                lemma_column_prefix(out, piece, j);
            } else if j <= out.len() + digits.len() {
                lemma_column_append(out, piece, j - out.len());
            } else {
                lemma_column_append(out, piece, digits.len() as int);
            }
        }
        lemma_column_append(out, piece, digits.len() as int);
    }
}

/// No line of PPM pixel data holds more than 70 bytes before its break.
pub proof fn ppm_lines_are_short(width: nat, pixels: Seq<Rgb8>)
    ensures
        forall|j: int|
            0 <= j <= ppm_data(width, pixels).len() ==> #[trigger] column(ppm_data(width, pixels), j)
                <= 70,
{
    lemma_lines_short(samples(pixels), width, samples(pixels).len());
}

/// Appends the decimal digits of `n`.
pub fn push_decimal(out: &mut Vec<u8>, n: usize)
    ensures
        final(out)@ == old(out)@ + decimal(n as nat),
    decreases n,
{
    if n >= 10 {
        push_decimal(out, n / 10);
    }
    out.push((48 + n % 10) as u8);
    proof {
        if n >= 10 {
            assert(decimal(n as nat) == decimal((n / 10) as nat).push((48 + n % 10) as u8));
        }
        assert(out@ =~= old(out)@ + decimal(n as nat));
    }
}

/// Appends one sample to a line that holds `count` bytes, breaking the line
/// where it would grow too long or where the row ends; returns the length of
/// the line afterwards.
pub fn push_sample(out: &mut Vec<u8>, count: u8, value: u8, row_end: bool) -> (r: u8)
    requires
        count + 2 <= LINE_LIMIT,
    ensures
        final(out)@ == old(out)@ + wrap_step(count as nat, value, row_end).0,
        r == wrap_step(count as nat, value, row_end).1,
        r + 2 <= LINE_LIMIT,
{
    let start = out.len();
    push_decimal(out, value as usize);
    proof {
        lemma_decimal_len(value as nat);
    }
    let filled: u8 = count + (out.len() - start) as u8;
    if filled + 2 >= LINE_LIMIT || row_end {
        out.push(NEWLINE);
        0
    } else {
        out.push(SPACE);
        filled + 1
    }
}

} // verus!
