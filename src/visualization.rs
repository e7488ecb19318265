use vstd::prelude::*;

verus! {

/// Horizontal pixels per second of signal.
pub const PIXELS_PER_SECOND: u32 = 32;

/// Sum of channel `ch` over `count` consecutive RGB pixels starting at byte `base`.
pub open spec fn channel_sum(image: Seq<u8>, base: int, count: nat, ch: int) -> nat
    decreases count,
{
    if count == 0 {
        0
    } else {
        channel_sum(image, base, (count - 1) as nat, ch) + image[base + 3 * (count - 1) + ch] as nat
    }
}

proof fn lemma_channel_sum_bound(image: Seq<u8>, base: int, count: nat, ch: int)
    ensures
        channel_sum(image, base, count, ch) <= 255 * count,
    decreases count,
{
    if count > 0 {
        lemma_channel_sum_bound(image, base, (count - 1) as nat, ch);
    }
}

/// Samples of signal that make one pixel column at `sample_rate`.
pub open spec fn run_length(sample_rate: nat) -> nat {
    sample_rate / PIXELS_PER_SECOND as nat
}

/// Byte of the resampled image at `row`, `column`, channel `ch`: the mean,
/// rounded down, of that channel over the run of pixels that the column covers
/// in a source image `samples` pixels wide.
pub open spec fn resampled_byte(
    image: Seq<u8>,
    samples: nat,
    run: nat,
    row: int,
    column: int,
    ch: int,
) -> nat {
    channel_sum(image, 3 * (row * samples + column * run), run, ch) / run
}

/// The channel-wise mean, rounded down, of `run` consecutive RGB pixels of
/// `image` starting at byte `base`.
fn run_mean(image: &Vec<u8>, base: usize, run: usize) -> (r: [u8; 3])
    requires
        run >= 1,
        run <= u32::MAX,
        base + 3 * run <= image.len(),
    ensures
        forall|ch: int| 0 <= ch < 3 ==> r[ch] == channel_sum(image@, base as int, run as nat, ch) / run as nat,
{
    let mut sums: [u64; 3] = [0, 0, 0];
    for k in 0..run
        invariant
            run <= u32::MAX,
            base + 3 * run <= image.len(),
            forall|ch: int| 0 <= ch < 3 ==> sums[ch] == channel_sum(image@, base as int, k as nat, ch),
            forall|ch: int| 0 <= ch < 3 ==> sums[ch] <= 255 * k,
    {
        sums[0] = sums[0] + image[base + 3 * k] as u64;
        sums[1] = sums[1] + image[base + 3 * k + 1] as u64;
        sums[2] = sums[2] + image[base + 3 * k + 2] as u64;
    }
    let r64 = run as u64;
    assert forall|ch: int| 0 <= ch < 3 implies sums[ch] / r64 <= 255 by {
        let x = sums[ch];
        assert(x / r64 <= 255) by (nonlinear_arith)
            requires
                x <= 255 * r64,
                r64 >= 1,
        ;
    }
    [(sums[0] / r64) as u8, (sums[1] / r64) as u8, (sums[2] / r64) as u8]
}

/// Shrinks an RGB image of `frequencies` rows and `samples` columns along its
/// width, so that each second of signal at `sample_rate` spans 32 pixels: each
/// new pixel is the channel-wise mean of a run of `sample_rate / 32` source
/// pixels. Returns the new width and the new pixels, row after row.
pub fn resample(frequencies: u32, sample_rate: u32, samples: u32, image_data: &Vec<u8>) -> (r: (
    usize,
    Vec<u8>,
))
    requires
        sample_rate >= PIXELS_PER_SECOND,
        3 * frequencies * samples <= image_data@.len(),
    ensures
        r.0 == samples as nat / run_length(sample_rate as nat),
        r.1@.len() == 3 * frequencies * r.0,
        forall|row: int, column: int, ch: int|
            0 <= row < frequencies && 0 <= column < r.0 && 0 <= ch < 3 ==> r.1@[3 * (row * r.0
                + column) + ch] == resampled_byte(
                image_data@,
                samples as nat,
                run_length(sample_rate as nat),
                row,
                column,
                ch,
            ),
{
    let run = (sample_rate / PIXELS_PER_SECOND) as usize;
    let width = samples as usize / run;
    let rows = frequencies as usize;
    let columns = samples as usize;
    let ghost img = image_data@;
    assert(width * run <= columns) by (nonlinear_arith)
        requires
            width == columns / run,
            run >= 1,
    ;
    let mut resized: Vec<u8> = Vec::new();
    assert(3 * 0 * width == 0) by (nonlinear_arith);
    for i in 0..rows
        invariant
            run == run_length(sample_rate as nat),
            1 <= run <= u32::MAX,
            width == columns / run,
            width * run <= columns,
            rows == frequencies,
            columns == samples,
            img == image_data@,
            3 * rows * columns <= image_data.len(),
            resized@.len() == 3 * i * width,
            forall|row: int, column: int, ch: int|
                0 <= row < i && 0 <= column < width && 0 <= ch < 3 ==> resized@[3 * (row * width
                    + column) + ch] == resampled_byte(img, columns as nat, run as nat, row, column, ch),
    {
        assert(3 * (i * columns + columns) <= 3 * rows * columns) by (nonlinear_arith)
            requires
                i < rows,
        ;
        let row_offset: usize = i * columns;
        assert(3 * (i * width + 0) == 3 * i * width) by (nonlinear_arith);
        for c in 0..width
            invariant
                run == run_length(sample_rate as nat),
                1 <= run <= u32::MAX,
                width == columns / run,
                width * run <= columns,
                rows == frequencies,
                columns == samples,
                img == image_data@,
                3 * (i * columns + columns) <= image_data.len(),
                i < rows,
                row_offset == i * columns,
                resized@.len() == 3 * (i * width + c),
                forall|row: int, column: int, ch: int|
                    (0 <= row < i && 0 <= column < width || row == i && 0 <= column < c) && 0 <= ch
                        < 3 ==> resized@[3 * (row * width + column) + ch] == resampled_byte(
                        img,
                        columns as nat,
                        run as nat,
                        row,
                        column,
                        ch,
                    ),
        {
            assert(c * run + run <= columns) by (nonlinear_arith)
                requires
                    c < width,
                    width * run <= columns,
            ;
            let base: usize = 3 * (row_offset + c * run);
            let mean = run_mean(image_data, base, run);
            let ghost before = resized@;
            resized.push(mean[0]);
            resized.push(mean[1]);
            resized.push(mean[2]);
            assert(3 * (i * width + c) + 3 == 3 * (i * width + (c + 1))) by (nonlinear_arith);
            assert forall|row: int, column: int, ch: int|
                (0 <= row < i && 0 <= column < width || row == i && 0 <= column < c + 1) && 0 <= ch
                    < 3 implies resized@[3 * (row * width + column) + ch] == resampled_byte(
                img,
                columns as nat,
                run as nat,
                row,
                column,
                ch,
            ) by {
                if row == i && column == c {
                    assert(3 * (row * width + column) == 3 * (i * width + c));
                } else {
                    assert(3 * (row * width + column) + ch < 3 * (i * width + c)) by (nonlinear_arith)
                        requires
                            0 <= row < i && 0 <= column < width || row == i && 0 <= column < c,
                            0 <= ch < 3,
                    ;
                    assert(resized@[3 * (row * width + column) + ch] == before[3 * (row * width
                        + column) + ch]);
                }
            }
        }
        assert(3 * (i * width + width) == 3 * (i + 1) * width) by (nonlinear_arith);
    }
    (width, resized)
}

} // verus!
