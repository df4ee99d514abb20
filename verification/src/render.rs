//! How a render is laid out: which cell an index names, which part of the
//! grid a worker owns, and where on the sensor the sub-rays of a cell pass.
use crate::shapes::{Object2, Probe};
use crate::tracer::{nearest, scene_hits, traced, Traced};
use crate::types::{Color, Config};
use vstd::arithmetic::div_mod::{lemma_fundamental_div_mod, lemma_fundamental_div_mod_converse};
use vstd::prelude::*;

verus! {

/// The camera looks from the origin along the negative z axis through a
/// sensor of width and height 1 that stands this far in front of it:
/// `SENSOR_DISTANCE_NUM / SENSOR_DISTANCE_DEN`.
pub const SENSOR_DISTANCE_NUM: i64 = 1;

pub const SENSOR_DISTANCE_DEN: i64 = 2;

/// The column and the row of the cell with the given index in a grid of
/// `width` columns that is laid out row by row.
pub fn get_xy(index: usize, width: usize) -> (r: (usize, usize))
    requires
        width > 0,
    ensures
        r.0 == index % width,
        r.1 == index / width,
        r.0 < width,
        r.1 * width + r.0 == index,
{
    proof {
        lemma_fundamental_div_mod(index as int, width as int);
        assert(width * (index / width) == (index / width) * width) by (nonlinear_arith);
    }
    (index % width, index / width)
}

/// A run of cells that one worker renders: the indices from `start` up to,
/// not including, `end`.
#[derive(Clone, Copy, Debug, PartialEq, Eq, Structural)]
pub struct Block {
    pub start: usize,
    pub end: usize,
}

/// How many blocks of `size` cells it takes to hold `total` cells.
pub open spec fn block_count(total: int, size: int) -> int {
    if total % size == 0 {
        total / size
    } else {
        total / size + 1
    }
}

/// Block `k` of a grid of `total` cells cut into blocks of `size` cells.
pub open spec fn block_of(total: int, size: int, k: int) -> Block {
    Block {
        start: (k * size) as usize,
        end: (if (k + 1) * size < total {
            (k + 1) * size
        } else {
            total
        }) as usize,
    }
}

/// The blocks cut the grid up: every block is a run of cells of the grid
/// that is not empty, every cell lies in the block whose number is the
/// cell's index divided by the block size, and in no other.
pub proof fn lemma_blocks(total: int, size: int, k: int, i: int)
    requires
        0 <= total <= usize::MAX,
        0 < size,
    ensures
        block_count(total, size) >= 0,
        block_count(total, size) * size >= total,
        0 <= k < block_count(total, size) ==> {
            &&& 0 <= k * size < total
            &&& block_of(total, size, k).start == k * size
            &&& block_of(total, size, k).start < block_of(total, size, k).end <= total
            &&& block_of(total, size, k).end - block_of(total, size, k).start <= size
        },
        0 <= i < total ==> {
            &&& 0 <= i / size < block_count(total, size)
            &&& block_of(total, size, i / size).start <= i < block_of(total, size, i / size).end
        },
        0 <= k < block_count(total, size) && block_of(total, size, k).start <= i < block_of(
            total,
            size,
            k,
        ).end ==> k == i / size,
{
    let q = total / size;
    let r = total % size;
    lemma_fundamental_div_mod(total, size);
    assert(size * q == q * size) by (nonlinear_arith);
    assert(0 <= r < size);
    assert(q >= 0) by (nonlinear_arith)
        requires
            total == q * size + r,
            0 <= r < size,
            total >= 0,
            size > 0,
    ;
    let n = block_count(total, size);
    assert(n * size >= total) by (nonlinear_arith)
        requires
            total == q * size + r,
            0 <= r < size,
            n == (if r == 0 {
                q
            } else {
                q + 1
            }),
    ;
    if 0 <= k < n {
        assert(0 <= k * size < total && (k + 1) * size == k * size + size) by (nonlinear_arith)
            requires
                total == q * size + r,
                0 <= r < size,
                0 <= k,
                k < n,
                n == (if r == 0 {
                    q
                } else {
                    q + 1
                }),
        ;
        if block_of(total, size, k).start <= i < block_of(total, size, k).end {
            assert((k + 1) * size == k * size + size) by (nonlinear_arith);
            lemma_fundamental_div_mod_converse(i, size, k, i - k * size);
        }
    }
    if 0 <= i < total {
        let c = i / size;
        lemma_fundamental_div_mod(i, size);
        assert(size * c == c * size) by (nonlinear_arith);
        assert(0 <= i % size < size);
        assert(c >= 0 && c < n && (c + 1) * size == c * size + size) by (nonlinear_arith)
            requires
                i == c * size + i % size,
                0 <= i % size < size,
                0 <= i < total,
                n * size >= total,
                size > 0,
        ;
    }
}

/// The grid of `total` cells cut into blocks of `size` cells, in order; the
/// last block holds what is left. Every cell lies in exactly one block: see
/// [`lemma_blocks`].
pub fn partition(total: usize, size: usize) -> (r: Vec<Block>)
    requires
        size > 0,
    ensures
        r@.len() == block_count(total as int, size as int),
        forall|k: int| 0 <= k < r@.len() ==> r@[k] == #[trigger] block_of(total as int, size as int, k),
{
    let mut blocks: Vec<Block> = Vec::new();
    let mut start: usize = 0;
    proof {
        lemma_blocks(total as int, size as int, 0, 0);
    }
    while start < total
        invariant
            size > 0,
            start <= total,
            start == total || start == blocks@.len() * size,
            start == total ==> blocks@.len() == block_count(total as int, size as int),
            blocks@.len() <= block_count(total as int, size as int),
            forall|k: int|
                0 <= k < blocks@.len() ==> blocks@[k] == #[trigger] block_of(
                    total as int,
                    size as int,
                    k,
                ),
        decreases total - start,
    {
        let ghost k = blocks@.len() as int;
        let ghost n = block_count(total as int, size as int);
        proof {
            lemma_blocks(total as int, size as int, k, start as int);
            lemma_blocks(total as int, size as int, k + 1, 0);
            assert((k + 1) * size == k * size + size) by (nonlinear_arith);
            if k >= n {
                assert(k * size >= n * size) by (nonlinear_arith)
                    requires
                        k >= n,
                        size > 0,
                ;
            }
        }
        let end: usize = if total - start > size {
            start + size
        } else {
            total
        };
        blocks.push(Block { start, end });
        start = end;
    }
    blocks
}

/// One place on the sensor through which a sub-ray passes, as two fractions:
/// `x / x_scale` to the right of the middle of the sensor and `y / y_scale`
/// above it, both strictly between -1/2 and 1/2.
#[derive(Clone, Copy, Debug, PartialEq, Eq, Structural)]
pub struct Sample {
    pub x: i64,
    pub x_scale: i64,
    pub y: i64,
    pub y_scale: i64,
}

impl Sample {
    /// The place lies on the sensor, strictly inside its edges.
    pub open spec fn on_sensor(self) -> bool {
        &&& 0 < self.x_scale
        &&& 0 < self.y_scale
        &&& -self.x_scale < 2 * self.x < self.x_scale
        &&& -self.y_scale < 2 * self.y < self.y_scale
    }
}

/// The numerator of the position of sub-ray `sub` of cell `cell` along an
/// axis with `cells` cells and `n` sub-rays per cell, over the denominator
/// `2 * n * cells`: the sub-ray passes through the middle of its share of the
/// cell, and the middle of the axis is 0.
pub open spec fn sample_numerator(cell: int, sub: int, n: int, cells: int) -> int {
    2 * n * cell + 2 * sub + 1 - n * cells
}

/// Sub-ray `k` of the cell with the given index. The sub-rays of a cell form
/// a grid of `antialiasing` by `antialiasing`, column by column.
pub open spec fn sample_of(index: int, k: int, config: Config) -> Sample {
    let n = config.antialiasing as int;
    Sample {
        x: sample_numerator(index % (config.width as int), k / n, n, config.width as int) as i64,
        x_scale: (2 * n * config.width) as i64,
        y: sample_numerator(index / (config.width as int), k % n, n, config.height as int) as i64,
        y_scale: (2 * n * config.height) as i64,
    }
}

/// A sub-ray passes through its own cell, and so through the sensor: the
/// numerator lies strictly between the two edges of the cell, which lie
/// between the two edges of the sensor.
pub proof fn lemma_sample_in_cell(cell: int, sub: int, n: int, cells: int)
    requires
        0 <= cell < cells,
        0 <= sub < n,
    ensures
        2 * n * cell - n * cells < sample_numerator(cell, sub, n, cells) < 2 * n * (cell + 1) - n
            * cells,
        -(n * cells) <= 2 * n * cell - n * cells,
        2 * n * (cell + 1) - n * cells <= n * cells,
        -(n * cells) < sample_numerator(cell, sub, n, cells) < n * cells,
{
    assert(2 * n * (cell + 1) == 2 * n * cell + 2 * n) by (nonlinear_arith);
    assert(0 <= 2 * n * cell && 2 * n * (cell + 1) <= 2 * (n * cells)) by (nonlinear_arith)
        requires
            0 <= cell,
            cell + 1 <= cells,
            0 < n,
    ;
}

/// Two sub-rays of one axis pass through the same place only if they are the
/// same sub-ray of the same cell.
pub proof fn lemma_samples_differ(cell_a: int, sub_a: int, cell_b: int, sub_b: int, n: int, cells: int)
    requires
        0 <= sub_a < n,
        0 <= sub_b < n,
        sample_numerator(cell_a, sub_a, n, cells) == sample_numerator(cell_b, sub_b, n, cells),
    ensures
        cell_a == cell_b,
        sub_a == sub_b,
{
    assert(n * cell_a + sub_a == n * cell_b + sub_b) by (nonlinear_arith)
        requires
            2 * n * cell_a + 2 * sub_a + 1 - n * cells == 2 * n * cell_b + 2 * sub_b + 1 - n * cells,
    ;
    assert(cell_a == cell_b) by (nonlinear_arith)
        requires
            n * cell_a + sub_a == n * cell_b + sub_b,
            0 <= sub_a < n,
            0 <= sub_b < n,
    ;
}

/// The places on the sensor through which the sub-rays of one cell pass:
/// `antialiasing * antialiasing` of them, each in the middle of its share of
/// the cell. Before it is normalised, the direction of the sub-ray through
/// `s` is `(s.x / s.x_scale, s.y / s.y_scale, -1/2)`.
///
/// Nothing is returned for a configuration that is not valid or an index
/// that names no cell.
pub fn sub_rays(index: usize, config: &Config) -> (r: Option<Vec<Sample>>)
    ensures
        r is Some <==> config.valid() && index < config.width * config.height,
        match r {
            Some(samples) => {
                &&& samples@.len() == config.antialiasing * config.antialiasing
                &&& forall|k: int|
                    0 <= k < samples@.len() ==> samples@[k] == #[trigger] sample_of(
                        index as int,
                        k,
                        *config,
                    )
                &&& forall|k: int| 0 <= k < samples@.len() ==> (#[trigger] samples@[k]).on_sensor()
            },
            None => true,
        },
{
    if !config.is_valid() {
        return None;
    }
    let n: usize = config.antialiasing;
    let width: usize = config.width;
    let height: usize = config.height;
    if index >= width * height {
        return None;
    }
    let (cell_x, cell_y) = get_xy(index, width);
    proof {
        assert(cell_y < height) by (nonlinear_arith)
            requires
                cell_y * width + cell_x == index,
                index < width * height,
                width > 0,
        ;
        assert(2 * n * width == 2 * (n * width) && 2 * n * height == 2 * (n * height))
            by (nonlinear_arith);
        assert(n <= n * width && width <= n * width && height <= n * height) by (nonlinear_arith)
            requires
                0 < n,
                0 < width,
                0 < height,
        ;
    }
    let n64: i64 = n as i64;
    let nw: i64 = n64 * (width as i64);
    let nh: i64 = n64 * (height as i64);
    let x_scale: i64 = 2 * nw;
    let y_scale: i64 = 2 * nh;
    let mut samples: Vec<Sample> = Vec::new();
    let mut x: usize = 0;
    while x < n
        invariant
            config.valid(),
            n == config.antialiasing,
            width == config.width,
            height == config.height,
            cell_x == index % width,
            cell_y == index / width,
            cell_x < width,
            cell_y < height,
            n64 == n,
            nw == n * width,
            nh == n * height,
            x_scale == 2 * n * width,
            y_scale == 2 * n * height,
            x <= n,
            samples@.len() == x * n,
            forall|k: int|
                0 <= k < samples@.len() ==> samples@[k] == #[trigger] sample_of(
                    index as int,
                    k,
                    *config,
                ),
            forall|k: int| 0 <= k < samples@.len() ==> (#[trigger] samples@[k]).on_sensor(),
        decreases n - x,
    {
        let mut y: usize = 0;
        while y < n
            invariant
                config.valid(),
                n == config.antialiasing,
                width == config.width,
                height == config.height,
                cell_x == index % width,
                cell_y == index / width,
                cell_x < width,
                cell_y < height,
                n64 == n,
                nw == n * width,
                nh == n * height,
                x_scale == 2 * n * width,
                y_scale == 2 * n * height,
                x < n,
                y <= n,
                samples@.len() == x * n + y,
                forall|k: int|
                    0 <= k < samples@.len() ==> samples@[k] == #[trigger] sample_of(
                        index as int,
                        k,
                        *config,
                    ),
                forall|k: int| 0 <= k < samples@.len() ==> (#[trigger] samples@[k]).on_sensor(),
            decreases n - y,
        {
            proof {
                lemma_sample_in_cell(cell_x as int, x as int, n as int, width as int);
                lemma_sample_in_cell(cell_y as int, y as int, n as int, height as int);
                assert(0 <= 2 * n * cell_x <= 2 * (n * width) && 0 <= 2 * n * cell_y <= 2 * (n
                    * height)) by (nonlinear_arith)
                    requires
                        cell_x < width,
                        cell_y < height,
                        0 < n,
                ;
                assert(2 * n * cell_x == 2 * (n * cell_x) && 2 * n * cell_y == 2 * (n * cell_y))
                    by (nonlinear_arith);
                assert(0 <= n * cell_x <= n * width && 0 <= n * cell_y <= n * height && width <= n
                    * width && height <= n * height) by (nonlinear_arith)
                    requires
                        cell_x < width,
                        cell_y < height,
                        0 < n,
                ;
                assert(n64 * (cell_x as i64) == n * cell_x && n64 * (cell_y as i64) == n * cell_y);
                assert(2 * (n * width) == 2 * n * width && 2 * (n * height) == 2 * n * height)
                    by (nonlinear_arith);
            }
            let across: i64 = 2 * (n64 * (cell_x as i64)) + 2 * (x as i64) + 1 - nw;
            let up: i64 = 2 * (n64 * (cell_y as i64)) + 2 * (y as i64) + 1 - nh;
            proof {
                let k = (x * n + y) as int;
                assert(k == n * x + y) by (nonlinear_arith)
                    requires
                        k == x * n + y,
                ;
                lemma_fundamental_div_mod_converse(k, n as int, x as int, y as int);
                assert(across == sample_numerator(cell_x as int, k / (n as int), n as int, width as int));
                assert(up == sample_numerator(cell_y as int, k % (n as int), n as int, height as int));
            }
            let sample = Sample { x: across, x_scale, y: up, y_scale };
            assert(sample.on_sensor());
            samples.push(sample);
            y = y + 1;
        }
        proof {
            assert((x + 1) * n == x * n + n) by (nonlinear_arith);
        }
        x = x + 1;
    }
    proof {
        assert(n * n == samples@.len()) by (nonlinear_arith)
            requires
                x == n,
                samples@.len() == x * n,
        ;
    }
    Some(samples)
}

/// All colours of a list are the same colour, bit for bit.
pub open spec fn uniform(colors: Seq<Color>) -> bool {
    colors.len() > 0 && forall|i: int| 0 <= i < colors.len() ==> #[trigger] colors[i] == colors[0]
}

/// The colour of a cell whose sub-rays have the colours `colors`: their
/// mean. Where all sub-rays have one and the same colour, the mean is that
/// colour itself, and it is taken as it is, so that rounding cannot move it;
/// else it is `average`, the component-wise mean as the caller has computed
/// it.
pub open spec fn cell_value(colors: Seq<Color>, average: Color) -> Color {
    if uniform(colors) {
        colors[0]
    } else {
        average
    }
}

/// The colour that is written to a cell; see [`cell_value`].
pub fn cell_color(colors: &Vec<Color>, average: Color) -> (r: Color)
    ensures
        r == cell_value(colors@, average),
{
    if colors.len() == 0 {
        return average;
    }
    let first: Color = colors[0];
    let mut i: usize = 1;
    while i < colors.len()
        invariant
            1 <= i <= colors.len(),
            first == colors@[0],
            forall|k: int| 0 <= k < i ==> #[trigger] colors@[k] == colors@[0],
        decreases colors.len() - i,
    {
        if !(colors[i] == first) {
            return average;
        }
        i = i + 1;
    }
    first
}

/// In a scene without objects every ray has the background colour at every
/// depth, and so has every cell, whatever the caller takes the mean of the
/// sub-rays to be.
pub proof fn lemma_empty_scene(
    probes: Seq<Probe>,
    depth: u32,
    config: Config,
    colors: Seq<Color>,
    average: Color,
)
    requires
        colors.len() > 0,
        forall|i: int| 0 <= i < colors.len() ==> #[trigger] colors[i] == config.background,
    ensures
        traced(
            scene_hits(Seq::<Object2>::empty(), probes, config.epsilon),
            Seq::<Object2>::empty(),
            depth,
            config,
        ) == Traced::Background(config.background),
        cell_value(colors, average) == config.background,
{
    let hits = scene_hits(Seq::<Object2>::empty(), probes, config.epsilon);
    assert(hits.len() == 0);
    assert(nearest(hits) is None);
}

} // verus!
