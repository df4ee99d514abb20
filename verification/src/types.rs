//! Vectors, rays, the tuning values of a render, and the grid of colour cells.
use crate::scalar::Scalar;
use vstd::prelude::*;

verus! {

/// Cells in one row of the standard grid.
pub const CELLS_WIDE: usize = 800;

/// Rows of the standard grid.
pub const CELLS_HIGH: usize = 800;

/// Sub-rays per cell and axis in the standard render.
pub const ANTIALIASING_DIV: usize = 4;

/// Deepest level of reflection that is still traced.
pub const MAX_TRACE_DEPTH: u32 = 12;

/// The pattern of `0.001`: distances up to it count as "at the origin".
pub const EPSILON_BITS: u32 = 0x3a83_126f;

/// The pattern of `0.1`, each component of the background colour.
pub const BACKGROUND_BITS: u32 = 0x3dcc_cccd;

/// The pattern of `0.1`, the share of its own colour that every surface has
/// without any light.
pub const AMBIENT_BITS: u32 = 0x3dcc_cccd;

/// The pattern of `0.01`, the blue of a cell that was never written.
pub const DEFAULT_BLUE_BITS: u32 = 0x3c23_d70a;

/// Three components: a point, a direction, or a colour.
#[derive(Clone, Copy, Debug, PartialEq, Eq, Structural)]
pub struct V3 {
    pub x: Scalar,
    pub y: Scalar,
    pub z: Scalar,
}

/// Two components: a texture coordinate.
#[derive(Clone, Copy, Debug, PartialEq, Eq, Structural)]
pub struct V2 {
    pub x: Scalar,
    pub y: Scalar,
}

/// Red, green and blue, each meant to lie in `[0, 1]`.
pub type Color = V3;

/// A start point and a direction, which callers normalise.
#[derive(Clone, Copy, Debug, PartialEq, Eq, Structural)]
pub struct Ray {
    pub origin: V3,
    pub direction: V3,
}

/// `0.001`.
pub open spec fn epsilon_value() -> Scalar {
    Scalar { bits: EPSILON_BITS }
}

/// `(0.1, 0.1, 0.1)`.
pub open spec fn background_value() -> Color {
    V3 {
        x: Scalar { bits: BACKGROUND_BITS },
        y: Scalar { bits: BACKGROUND_BITS },
        z: Scalar { bits: BACKGROUND_BITS },
    }
}

/// `(0.0, 0.0, 0.01)`.
pub open spec fn default_value() -> Color {
    V3 { x: Scalar { bits: 0 }, y: Scalar { bits: 0 }, z: Scalar { bits: DEFAULT_BLUE_BITS } }
}

/// The threshold under which a distance or a determinant counts as zero.
pub fn epsilon() -> (r: Scalar)
    ensures
        r == epsilon_value(),
{
    Scalar { bits: EPSILON_BITS }
}

/// The ambient term: what a surface shows of its own colour without light.
pub fn ambient() -> (r: Scalar)
    ensures
        r == (Scalar { bits: AMBIENT_BITS }),
{
    Scalar { bits: AMBIENT_BITS }
}

/// The colour of a ray that meets nothing.
pub fn background_color() -> (r: Color)
    ensures
        r == background_value(),
{
    let c = Scalar { bits: BACKGROUND_BITS };
    V3 { x: c, y: c, z: c }
}

/// The colour of a cell before the render reaches it.
pub fn default_color() -> (r: Color)
    ensures
        r == default_value(),
{
    V3 { x: Scalar { bits: 0 }, y: Scalar { bits: 0 }, z: Scalar { bits: DEFAULT_BLUE_BITS } }
}

impl V3 {
    /// `(0.0, 0.0, 0.0)`.
    pub open spec fn origin() -> V3 {
        V3 { x: Scalar { bits: 0 }, y: Scalar { bits: 0 }, z: Scalar { bits: 0 } }
    }

    pub fn new(x: Scalar, y: Scalar, z: Scalar) -> (r: V3)
        ensures
            r == (V3 { x, y, z }),
    {
        V3 { x, y, z }
    }

    /// `(0.0, 0.0, 0.0)`.
    pub fn zero() -> (r: V3)
        ensures
            r == V3::origin(),
    {
        let c = Scalar::zero();
        V3 { x: c, y: c, z: c }
    }
}

impl V2 {
    /// `(0.0, 0.0)`.
    pub open spec fn origin() -> V2 {
        V2 { x: Scalar { bits: 0 }, y: Scalar { bits: 0 } }
    }

    pub fn new(x: Scalar, y: Scalar) -> (r: V2)
        ensures
            r == (V2 { x, y }),
    {
        V2 { x, y }
    }

    /// `(0.0, 0.0)`.
    pub fn zero() -> (r: V2)
        ensures
            r == V2::origin(),
    {
        let c = Scalar::zero();
        V2 { x: c, y: c }
    }
}

/// The values that tune one render. They are passed in, so that two renders
/// with different values can run side by side.
#[derive(Clone, Copy, Debug, PartialEq, Eq, Structural)]
pub struct Config {
    /// Cells in a row.
    pub width: usize,
    /// Rows.
    pub height: usize,
    /// Sub-rays per cell and axis.
    pub antialiasing: usize,
    /// Deepest level of reflection that is still traced.
    pub max_depth: u32,
    /// Threshold for "zero".
    pub epsilon: Scalar,
    /// Colour of a ray that meets nothing.
    pub background: Color,
}

impl Config {
    /// The grid is not empty, its cell count fits the machine, and every
    /// sample position on the sensor fits a signed 64-bit numerator.
    pub open spec fn valid(self) -> bool {
        &&& 0 < self.width
        &&& 0 < self.height
        &&& 0 < self.antialiasing
        &&& self.width * self.height <= usize::MAX
        &&& 2 * self.antialiasing * self.width <= i64::MAX
        &&& 2 * self.antialiasing * self.height <= i64::MAX
        &&& self.antialiasing * self.antialiasing <= usize::MAX
    }

    /// The standard values: 800 by 800 cells, 4 by 4 sub-rays, depth 12.
    pub open spec fn standard_value() -> Config {
        Config {
            width: CELLS_WIDE,
            height: CELLS_HIGH,
            antialiasing: ANTIALIASING_DIV,
            max_depth: MAX_TRACE_DEPTH,
            epsilon: epsilon_value(),
            background: background_value(),
        }
    }

    pub fn standard() -> (r: Config)
        ensures
            r == Config::standard_value(),
            r.valid(),
    {
        Config {
            width: CELLS_WIDE,
            height: CELLS_HIGH,
            antialiasing: ANTIALIASING_DIV,
            max_depth: MAX_TRACE_DEPTH,
            epsilon: epsilon(),
            background: background_color(),
        }
    }

    /// Cells in the grid.
    pub open spec fn cells(self) -> int {
        self.width * self.height
    }

    /// Whether `self` can be rendered; see [`Config::valid`].
    pub fn is_valid(&self) -> (r: bool)
        ensures
            r == self.valid(),
    {
        if self.width == 0 || self.height == 0 || self.antialiasing == 0 {
            return false;
        }
        let w: u128 = self.width as u128;
        let h: u128 = self.height as u128;
        let n: u128 = self.antialiasing as u128;
        assert(w * h <= 0xffff_ffff_ffff_ffff * 0xffff_ffff_ffff_ffff && n * n
            <= 0xffff_ffff_ffff_ffff * 0xffff_ffff_ffff_ffff && n * w <= 0xffff_ffff_ffff_ffff
            * 0xffff_ffff_ffff_ffff && n * h <= 0xffff_ffff_ffff_ffff * 0xffff_ffff_ffff_ffff)
            by (nonlinear_arith)
            requires
                w <= 0xffff_ffff_ffff_ffff,
                h <= 0xffff_ffff_ffff_ffff,
                n <= 0xffff_ffff_ffff_ffff,
        ;
        assert(2 * self.antialiasing * self.width == 2 * (n * w) && 2 * self.antialiasing
            * self.height == 2 * (n * h)) by (nonlinear_arith)
            requires
                n == self.antialiasing,
                w == self.width,
                h == self.height,
        ;
        // An even number is at most 2^63 - 1 exactly when its half is at most 2^62 - 1.
        let half: u128 = 0x3fff_ffff_ffff_ffff;
        w * h <= usize::MAX as u128 && n * w <= half && n * h <= half && n * n
            <= usize::MAX as u128
    }
}

/// One slot of the grid. It holds a whole colour, and a write replaces the
/// whole colour.
#[derive(Clone, Copy, Debug, PartialEq, Eq, Structural)]
pub struct Cell {
    inner: Color,
}

impl Cell {
    /// The colour in the cell.
    pub closed spec fn content(self) -> Color {
        self.inner
    }

    pub fn new(color: Color) -> (r: Cell)
        ensures
            r.content() == color,
    {
        Cell { inner: color }
    }

    pub fn get_content(&self) -> (r: Color)
        ensures
            r == self.content(),
    {
        self.inner
    }

    pub fn set_content(&mut self, color: Color)
        ensures
            final(self).content() == color,
    {
        self.inner = color;
    }
}

/// The grid of cells, row by row.
#[derive(Clone, Debug)]
pub struct Cells {
    pub data: Vec<Cell>,
}

/// Component `k` of a colour: red, green, blue for 0, 1, 2.
pub open spec fn component(color: Color, k: int) -> Scalar {
    if k == 0 {
        color.x
    } else if k == 1 {
        color.y
    } else {
        color.z
    }
}

/// The colours of a grid laid out as samples for a display: three per cell,
/// cell by cell, each brought into `[0, 1]`.
pub open spec fn samples(colors: Seq<Color>) -> Seq<Scalar> {
    Seq::new(3 * colors.len(), |i: int| component(colors[i / 3], i % 3).unit())
}

impl View for Cells {
    type V = Seq<Color>;

    /// The colours of the cells, in order.
    open spec fn view(&self) -> Seq<Color> {
        Seq::new(self.data@.len(), |i: int| self.data@[i].content())
    }
}

impl Cells {
    /// Number of cells.
    pub fn len(&self) -> (r: usize)
        ensures
            r == self@.len(),
    {
        self.data.len()
    }

    /// The colour of cell `index`, if there is one.
    pub fn get(&self, index: usize) -> (r: Option<Color>)
        ensures
            r == (if index < self@.len() {
                Some(self@[index as int])
            } else {
                None
            }),
    {
        if index < self.data.len() {
            Some(self.data[index].get_content())
        } else {
            None
        }
    }

    /// Writes `color` to cell `index` and leaves every other cell as it was.
    /// Returns false, and changes nothing, when there is no such cell.
    pub fn set(&mut self, index: usize, color: Color) -> (r: bool)
        ensures
            r == (index < old(self)@.len()),
            r ==> final(self)@ == old(self)@.update(index as int, color),
            !r ==> final(self)@ == old(self)@,
    {
        if index < self.data.len() {
            self.data.set(index, Cell::new(color));
            assert(self@ =~= old(self)@.update(index as int, color));
            true
        } else {
            false
        }
    }

    /// All cells as one row-major list of samples for a display: red,
    /// green and blue of each cell, each a number in `[0, 1]`. A component
    /// outside that range is shown as the nearest number in it, one that is
    /// no number as 0.
    pub fn to_vec(&self) -> (r: Vec<Scalar>)
        ensures
            r@ == samples(self@),
            r@.len() == 3 * self@.len(),
            forall|k: int|
                0 <= k < r@.len() ==> !(#[trigger] r@[k]).nan() && 0 <= r@[k].key()
                    <= crate::scalar::ONE_BITS,
    {
        let mut v: Vec<Scalar> = Vec::new();
        let n: usize = self.data.len();
        let mut i: usize = 0;
        while i < n
            invariant
                n == self.data@.len(),
                i <= n,
                v@.len() == 3 * i,
                forall|k: int| 0 <= k < 3 * i ==> v@[k] == #[trigger] samples(self@)[k],
            decreases n - i,
        {
            let c: Color = self.data[i].get_content();
            v.push(c.x.clamp_unit());
            v.push(c.y.clamp_unit());
            v.push(c.z.clamp_unit());
            i = i + 1;
        }
        assert(v@ =~= samples(self@));
        v
    }
}

/// A grid of `width * height` cells, each of the default colour.
pub fn make_cells(width: usize, height: usize) -> (r: Cells)
    requires
        width * height <= usize::MAX,
    ensures
        r@.len() == width * height,
        forall|i: int| 0 <= i < r@.len() ==> r@[i] == default_value(),
{
    let total: usize = width * height;
    let mut v: Vec<Cell> = Vec::new();
    let mut i: usize = 0;
    while i < total
        invariant
            i <= total,
            v@.len() == i,
            forall|k: int| 0 <= k < i ==> (#[trigger] v@[k]).content() == default_value(),
        decreases total - i,
    {
        v.push(Cell::new(default_color()));
        i = i + 1;
    }
    Cells { data: v }
}

/// The grid after the given writes, each a cell's index and a colour, made
/// one after the other.
pub open spec fn written(grid: Seq<Color>, writes: Seq<(int, Color)>) -> Seq<Color>
    decreases writes.len(),
{
    if writes.len() == 0 {
        grid
    } else {
        written(grid, writes.drop_last()).update(writes.last().0, writes.last().1)
    }
}

/// Cell `i` is written by one of the writes.
pub open spec fn is_written(writes: Seq<(int, Color)>, i: int) -> bool {
    exists|k: int| 0 <= k < writes.len() && (#[trigger] writes[k]).0 == i
}

/// A pass over the grid comes out the same whatever the order in which the
/// workers write: where every write puts into its cell the colour that
/// belongs to that cell, the grid holds that colour in every cell that was
/// written and is unchanged in every other, and where every cell was written
/// it holds those colours and nothing else.
pub proof fn lemma_pass_is_order_free(
    grid: Seq<Color>,
    writes: Seq<(int, Color)>,
    colors: Seq<Color>,
)
    requires
        colors.len() == grid.len(),
        forall|k: int|
            0 <= k < writes.len() ==> 0 <= (#[trigger] writes[k]).0 < grid.len() && writes[k].1
                == colors[writes[k].0],
    ensures
        written(grid, writes).len() == grid.len(),
        forall|i: int|
            0 <= i < grid.len() ==> #[trigger] written(grid, writes)[i] == (if is_written(
                writes,
                i,
            ) {
                colors[i]
            } else {
                grid[i]
            }),
        (forall|i: int| 0 <= i < grid.len() ==> #[trigger] is_written(writes, i)) ==> written(
            grid,
            writes,
        ) == colors,
    decreases writes.len(),
{
    if writes.len() > 0 {
        let before = writes.drop_last();
        let last = writes.last();
        assert forall|k: int| 0 <= k < before.len() implies 0 <= (#[trigger] before[k]).0
            < grid.len() && before[k].1 == colors[before[k].0] by {
            assert(before[k] == writes[k]);
        }
        lemma_pass_is_order_free(grid, before, colors);
        assert forall|i: int| 0 <= i < grid.len() implies #[trigger] written(grid, writes)[i] == (
        if is_written(writes, i) {
            colors[i]
        } else {
            grid[i]
        }) by {
            if last.0 == i {
                assert(writes[writes.len() - 1].0 == i);
            } else if is_written(before, i) {
                let k = choose|k: int| 0 <= k < before.len() && (#[trigger] before[k]).0 == i;
                assert(writes[k] == before[k]);
            } else {
                if is_written(writes, i) {
                    let k = choose|k: int| 0 <= k < writes.len() && (#[trigger] writes[k]).0 == i;
                    assert(k < before.len());
                    assert(before[k] == writes[k]);
                }
            }
        }
    }
    if forall|i: int| 0 <= i < grid.len() ==> #[trigger] is_written(writes, i) {
        assert forall|i: int| 0 <= i < grid.len() implies written(grid, writes)[i] == colors[i] by {
            assert(is_written(writes, i));
        }
        assert(written(grid, writes) =~= colors);
    }
}

} // verus!
