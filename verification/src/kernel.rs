//! Convolution kernels: a matrix of weights and the source points that each
//! of its cells reads.

use vstd::prelude::*;
use crate::edge::lemma_extend_clamps;
use crate::edge::lemma_valid_index_is_kept;
use crate::edge::lemma_wrap_is_periodic;
use crate::edge::EdgeStrategy;
use crate::geometry::Point;
use crate::geometry::Size;

verus! {

/// Why a matrix of weights is not a kernel, or two kernels do not combine.
#[derive(Debug, Clone, Copy, PartialEq, Eq, Structural)]
pub enum ShapeError {
    /// The matrix has no rows
    Empty,
    /// A row is not as long as the first row
    Ragged,
    /// The two kernels differ in their number of rows or columns
    Mismatch,
}

/// What a kernel is: its weights row by row, and how it treats the edge of
/// an image.
pub struct KernelView<W> {
    /// Number of rows
    pub rows: nat,
    /// Number of columns
    pub cols: nat,
    /// The weights, `rows` rows of `cols` weights
    pub weights: Seq<Seq<W>>,
    /// How coordinates outside the image are remapped
    pub edge_strategy: EdgeStrategy,
}

impl<W> KernelView<W> {
    /// Whether the weights form a `rows` by `cols` matrix.
    pub open spec fn rectangular(self) -> bool {
        &&& self.weights.len() == self.rows
        &&& forall|r: int| 0 <= r < self.rows ==> (#[trigger] self.weights[r]).len() == self.cols
    }

    /// Whether `(r, c)` is a cell of the kernel.
    pub open spec fn has_cell(self, r: int, c: int) -> bool {
        0 <= r < self.rows && 0 <= c < self.cols
    }

    /// Whether two kernels have the same number of rows and columns.
    pub open spec fn same_shape(self, other: KernelView<W>) -> bool {
        self.rows == other.rows && self.cols == other.cols
    }
}

/// What one cell of a kernel contributes at a point: its weight and the
/// source point that it reads, or no source point where the coordinate is
/// not mapped into the image, in which case the border value is read.
#[derive(Debug)]
pub struct Tap<W> {
    /// The weight of the cell
    pub weight: W,
    /// The point of the image that the cell reads
    pub source: Option<Point>,
}

impl<W> KernelView<W> {
    /// The coordinate along one axis that a cell reads before it is
    /// remapped: the cell in the middle reads the point itself.
    pub open spec fn offset(at: int, cell: int, cells: int) -> int {
        at + cell - cells / 2
    }

    /// The source point that cell `(r, c)` reads when the kernel is centred
    /// on `pt` in an image of `size`: both coordinates are remapped
    /// independently by the edge strategy against the largest valid index.
    pub open spec fn source(self, pt: Point, size: Size, r: int, c: int) -> Option<Point> {
        let x = Self::offset(pt.x as int, c, self.cols as int);
        let y = Self::offset(pt.y as int, r, self.rows as int);
        if self.edge_strategy.lands_inside(x, size.width - 1) && self.edge_strategy.lands_inside(
            y,
            size.height - 1,
        ) {
            Some(
                Point {
                    x: self.edge_strategy.remap(x, size.width - 1) as usize,
                    y: self.edge_strategy.remap(y, size.height - 1) as usize,
                },
            )
        } else {
            None
        }
    }

    /// What cell `(r, c)` contributes at `pt`.
    pub open spec fn tap(self, pt: Point, size: Size, r: int, c: int) -> Tap<W> {
        Tap { weight: self.weights[r][c], source: self.source(pt, size, r, c) }
    }
}

/// Under `Extend` and under `Wrap` every cell of a kernel reads a point of
/// the image, wherever the kernel is centred, as long as the image has a
/// pixel at all.
pub proof fn lemma_every_cell_has_a_source<W>(
    kernel: KernelView<W>,
    pt: Point,
    size: Size,
    r: int,
    c: int,
)
    requires
        kernel.edge_strategy == EdgeStrategy::Extend || kernel.edge_strategy == EdgeStrategy::Wrap,
        size.width > 0,
        size.height > 0,
    ensures
        kernel.source(pt, size, r, c).is_some(),
        size.contains(kernel.source(pt, size, r, c).unwrap()),
{
    let x = KernelView::<W>::offset(pt.x as int, c, kernel.cols as int);
    let y = KernelView::<W>::offset(pt.y as int, r, kernel.rows as int);
    lemma_extend_clamps(x, size.width - 1);
    lemma_extend_clamps(y, size.height - 1);
    lemma_wrap_is_periodic(x, size.width - 1);
    lemma_wrap_is_periodic(y, size.height - 1);
}

/// The cell in the middle of a kernel with an odd number of rows and
/// columns reads the point that the kernel is centred on, whatever the edge
/// strategy.
pub proof fn lemma_centre_reads_the_point<W>(kernel: KernelView<W>, pt: Point, size: Size)
    requires
        kernel.rows % 2 == 1,
        kernel.cols % 2 == 1,
        size.contains(pt),
    ensures
        kernel.source(pt, size, kernel.rows as int / 2, kernel.cols as int / 2) == Some(pt),
{
    lemma_valid_index_is_kept(kernel.edge_strategy, pt.x as int, size.width - 1);
    lemma_valid_index_is_kept(kernel.edge_strategy, pt.y as int, size.height - 1);
}

/// The coordinate that cell `cell` of `2 * half` or `2 * half + 1` cells
/// reads along one axis when the kernel is centred on `at`.
fn offset_of(at: usize, cell: usize, half: usize) -> (value: isize)
    requires
        at + half <= isize::MAX,
        cell <= 2 * half,
    ensures
        value == at + cell - half,
{
    if cell >= half {
        (at + (cell - half)) as isize
    } else {
        at as isize - (half - cell) as isize
    }
}

/// The index along one axis that `value` is mapped to, where the axis has
/// `length` indices and `value` is mapped to one of them.
fn index_of(edge_strategy: EdgeStrategy, value: isize, length: usize) -> (index: Option<usize>)
    requires
        length <= isize::MAX,
    ensures
        index.is_some() <==> edge_strategy.lands_inside(value as int, length - 1),
        index.is_some() ==> index.unwrap() == edge_strategy.remap(value as int, length - 1),
{
    if length == 0 {
        None
    } else {
        edge_strategy.resolve(value, (length - 1) as isize)
    }
}

/// 2-dimensional convolution kernel.
#[derive(Debug, Clone)]
pub struct Kernel<W> {
    rows: usize,
    cols: usize,
    data: Vec<Vec<W>>,
    edge_strategy: EdgeStrategy,
}

impl<W> View for Kernel<W> {
    type V = KernelView<W>;

    closed spec fn view(&self) -> KernelView<W> {
        KernelView {
            rows: self.rows as nat,
            cols: self.cols as nat,
            weights: Seq::new(self.data@.len(), |r: int| self.data@[r]@),
            edge_strategy: self.edge_strategy,
        }
    }
}

/// Whether every row of a matrix is as long as its first row.
pub open spec fn rows_agree<W>(data: Seq<Vec<W>>) -> bool {
    forall|r: int| 0 <= r < data.len() ==> (#[trigger] data[r])@.len() == data[0]@.len()
}

impl<W: Copy> Kernel<W> {
    /// The invariant of a kernel: its weights form a `rows` by `cols` matrix.
    pub closed spec fn wf(&self) -> bool {
        &&& self.data@.len() == self.rows
        &&& forall|r: int| 0 <= r < self.rows ==> (#[trigger] self.data@[r])@.len() == self.cols
    }

    /// A well-formed kernel is rectangular.
    pub proof fn lemma_wf(&self)
        requires
            self.wf(),
        ensures
            self@.rectangular(),
            self@.rows <= usize::MAX,
            self@.cols <= usize::MAX,
    {
    }

    /// Create a new kernel with the given number of rows and columns and
    /// every weight set to `zero`.  Coordinates outside the image are passed
    /// through unmapped until another edge strategy is set.
    pub fn new(rows: usize, cols: usize, zero: W) -> (kernel: Kernel<W>)
        ensures
            kernel.wf(),
            kernel@.rows == rows,
            kernel@.cols == cols,
            kernel@.edge_strategy == EdgeStrategy::Constant,
            forall|r: int, c: int|
                kernel@.has_cell(r, c) ==> #[trigger] kernel@.weights[r][c] == zero,
    {
        let mut data: Vec<Vec<W>> = Vec::new();
        let mut j: usize = 0;
        while j < rows
            invariant
                j <= rows,
                data@.len() == j,
                forall|r: int| 0 <= r < j ==> (#[trigger] data@[r])@.len() == cols,
                forall|r: int, c: int|
                    0 <= r < j && 0 <= c < cols ==> #[trigger] data@[r]@[c] == zero,
            decreases rows - j,
        {
            let mut row: Vec<W> = Vec::new();
            let mut i: usize = 0;
            while i < cols
                invariant
                    i <= cols,
                    row@.len() == i,
                    forall|c: int| 0 <= c < i ==> #[trigger] row@[c] == zero,
                decreases cols - i,
            {
                row.push(zero);
                i += 1;
            }
            data.push(row);
            j += 1;
        }
        Kernel { rows, cols, data, edge_strategy: EdgeStrategy::Constant }
    }

    /// Create a new, square kernel.
    pub fn square(x: usize, zero: W) -> (kernel: Kernel<W>)
        ensures
            kernel.wf(),
            kernel@.rows == x,
            kernel@.cols == x,
            kernel@.edge_strategy == EdgeStrategy::Constant,
            forall|r: int, c: int|
                kernel@.has_cell(r, c) ==> #[trigger] kernel@.weights[r][c] == zero,
    {
        Self::new(x, x, zero)
    }

    /// Create a kernel from its rows of weights.  The matrix must have a
    /// first row, and every row must be as long as it.
    pub fn from_rows(data: Vec<Vec<W>>) -> (kernel: Result<Kernel<W>, ShapeError>)
        ensures
            data@.len() == 0 <==> kernel == Err::<Kernel<W>, ShapeError>(ShapeError::Empty),
            data@.len() > 0 && !rows_agree(data@) <==> kernel == Err::<Kernel<W>, ShapeError>(
                ShapeError::Ragged,
            ),
            data@.len() > 0 && rows_agree(data@) <==> kernel.is_ok(),
            kernel.is_ok() ==> {
                &&& kernel.unwrap().wf()
                &&& kernel.unwrap()@.rows == data@.len()
                &&& kernel.unwrap()@.cols == data@[0]@.len()
                &&& kernel.unwrap()@.weights == Seq::new(data@.len(), |r: int| data@[r]@)
                &&& kernel.unwrap()@.edge_strategy == EdgeStrategy::Constant
            },
    {
        let rows: usize = data.len();
        if rows == 0 {
            return Err(ShapeError::Empty);
        }
        let cols: usize = data[0].len();
        let mut j: usize = 0;
        while j < rows
            invariant
                j <= rows,
                rows == data@.len(),
                rows > 0,
                cols == data@[0]@.len(),
                forall|r: int| 0 <= r < j ==> (#[trigger] data@[r])@.len() == cols,
            decreases rows - j,
        {
            if data[j].len() != cols {
                return Err(ShapeError::Ragged);
            }
            j += 1;
        }
        Ok(Kernel { rows, cols, data, edge_strategy: EdgeStrategy::Constant })
    }

    /// Number of rows.
    pub fn rows(&self) -> (rows: usize)
        ensures
            rows == self@.rows,
    {
        self.rows
    }

    /// Number of columns.
    pub fn cols(&self) -> (cols: usize)
        ensures
            cols == self@.cols,
    {
        self.cols
    }

    /// How the kernel treats the edge of an image.
    pub fn edge_strategy(&self) -> (edge_strategy: EdgeStrategy)
        ensures
            edge_strategy == self@.edge_strategy,
    {
        self.edge_strategy
    }

    /// The weight in row `r` and column `c`.
    pub fn weight(&self, r: usize, c: usize) -> (weight: W)
        requires
            self.wf(),
            self@.has_cell(r as int, c as int),
        ensures
            weight == self@.weights[r as int][c as int],
    {
        self.data[r][c]
    }

    /// Changes how the kernel processes images near edges.
    pub fn set_edge_strategy(&mut self, edge_strategy: EdgeStrategy)
        ensures
            final(self).wf() == old(self).wf(),
            final(self)@ == (KernelView { edge_strategy, ..old(self)@ }),
    {
        self.edge_strategy = edge_strategy
    }
    /// Create a new kernel and fill it by executing `f` with each possible
    /// (column, row) pair.
    pub fn create<F: Fn(usize, usize) -> W>(rows: usize, cols: usize, f: F) -> (kernel: Kernel<W>)
        requires
            forall|r: usize, c: usize| r < rows && c < cols ==> f.requires((c, r)),
        ensures
            kernel.wf(),
            kernel@.rows == rows,
            kernel@.cols == cols,
            kernel@.edge_strategy == EdgeStrategy::Constant,
            forall|r: usize, c: usize|
                r < rows && c < cols ==> f.ensures(
                    (c, r),
                    #[trigger] kernel@.weights[r as int][c as int],
                ),
    {
        let mut data: Vec<Vec<W>> = Vec::new();
        let mut j: usize = 0;
        while j < rows
            invariant
                j <= rows,
                data@.len() == j,
                forall|r: usize, c: usize| r < rows && c < cols ==> f.requires((c, r)),
                forall|r: int| 0 <= r < j ==> (#[trigger] data@[r])@.len() == cols,
                forall|r: usize, c: usize|
                    r < j && c < cols ==> f.ensures((c, r), #[trigger] data@[r as int]@[c as int]),
            decreases rows - j,
        {
            let mut row: Vec<W> = Vec::new();
            let mut i: usize = 0;
            while i < cols
                invariant
                    i <= cols,
                    j < rows,
                    row@.len() == i,
                    forall|r: usize, c: usize| r < rows && c < cols ==> f.requires((c, r)),
                    forall|c: usize| c < i ==> f.ensures((c, j), #[trigger] row@[c as int]),
                decreases cols - i,
            {
                let item: W = f(i, j);
                row.push(item);
                i += 1;
            }
            data.push(row);
            j += 1;
        }
        Kernel { rows, cols, data, edge_strategy: EdgeStrategy::Constant }
    }

    /// The kernel of the same shape and edge strategy whose every weight is
    /// what `f` makes of the weight in the same cell.
    pub fn map<V: Copy, F: Fn(W) -> V>(&self, f: F) -> (kernel: Kernel<V>)
        requires
            self.wf(),
            forall|r: int, c: int|
                self@.has_cell(r, c) ==> f.requires((#[trigger] self@.weights[r][c],)),
        ensures
            kernel.wf(),
            kernel@.rows == self@.rows,
            kernel@.cols == self@.cols,
            kernel@.edge_strategy == self@.edge_strategy,
            forall|r: int, c: int|
                self@.has_cell(r, c) ==> f.ensures(
                    (self@.weights[r][c],),
                    #[trigger] kernel@.weights[r][c],
                ),
    {
        let mut data: Vec<Vec<V>> = Vec::new();
        let mut j: usize = 0;
        while j < self.rows
            invariant
                j <= self.rows,
                self.wf(),
                data@.len() == j,
                forall|r: int, c: int|
                    self@.has_cell(r, c) ==> f.requires((#[trigger] self@.weights[r][c],)),
                forall|r: int| 0 <= r < j ==> (#[trigger] data@[r])@.len() == self.cols,
                forall|r: int, c: int|
                    self@.has_cell(r, c) && r < j ==> f.ensures(
                        (self@.weights[r][c],),
                        #[trigger] data@[r]@[c],
                    ),
            decreases self.rows - j,
        {
            let mut row: Vec<V> = Vec::new();
            let mut i: usize = 0;
            while i < self.cols
                invariant
                    i <= self.cols,
                    j < self.rows,
                    self.wf(),
                    row@.len() == i,
                    forall|r: int, c: int|
                        self@.has_cell(r, c) ==> f.requires((#[trigger] self@.weights[r][c],)),
                    forall|c: int|
                        0 <= c < i ==> f.ensures((self@.weights[j as int][c],), #[trigger] row@[c]),
                decreases self.cols - i,
            {
                assert(self@.has_cell(j as int, i as int));
                assert(self@.weights[j as int][i as int] == self.data@[j as int]@[i as int]);
                let item: V = f(self.data[j][i]);
                row.push(item);
                i += 1;
            }
            data.push(row);
            j += 1;
        }
        Kernel { rows: self.rows, cols: self.cols, data, edge_strategy: self.edge_strategy }
    }

    /// Combine two kernels of the same shape weight by weight: the weight of
    /// the result in a cell is what `f` makes of the two weights in that
    /// cell.  The result treats the edge of an image as `self` does.
    pub fn combine<F: Fn(W, W) -> W>(self, other: &Kernel<W>, f: F) -> (kernel: Result<
        Kernel<W>,
        ShapeError,
    >)
        requires
            self.wf(),
            other.wf(),
            forall|r: int, c: int|
                self@.has_cell(r, c) && other@.has_cell(r, c) ==> f.requires(
                    (#[trigger] self@.weights[r][c], #[trigger] other@.weights[r][c]),
                ),
        ensures
            !self@.same_shape(other@) <==> kernel == Err::<Kernel<W>, ShapeError>(
                ShapeError::Mismatch,
            ),
            self@.same_shape(other@) <==> kernel.is_ok(),
            kernel.is_ok() ==> {
                &&& kernel.unwrap().wf()
                &&& kernel.unwrap()@.rows == self@.rows
                &&& kernel.unwrap()@.cols == self@.cols
                &&& kernel.unwrap()@.edge_strategy == self@.edge_strategy
                &&& forall|r: int, c: int|
                    self@.has_cell(r, c) ==> f.ensures(
                        (self@.weights[r][c], other@.weights[r][c]),
                        #[trigger] kernel.unwrap()@.weights[r][c],
                    )
            },
    {
        if self.rows != other.rows || self.cols != other.cols {
            return Err(ShapeError::Mismatch);
        }
        let mut data: Vec<Vec<W>> = Vec::new();
        let mut j: usize = 0;
        while j < self.rows
            invariant
                j <= self.rows,
                self.wf(),
                other.wf(),
                self@.same_shape(other@),
                data@.len() == j,
                forall|r: int, c: int|
                    self@.has_cell(r, c) && other@.has_cell(r, c) ==> f.requires(
                        (#[trigger] self@.weights[r][c], #[trigger] other@.weights[r][c]),
                    ),
                forall|r: int| 0 <= r < j ==> (#[trigger] data@[r])@.len() == self.cols,
                forall|r: int, c: int|
                    self@.has_cell(r, c) && r < j ==> f.ensures(
                        (self@.weights[r][c], other@.weights[r][c]),
                        #[trigger] data@[r]@[c],
                    ),
            decreases self.rows - j,
        {
            let mut row: Vec<W> = Vec::new();
            let mut i: usize = 0;
            while i < self.cols
                invariant
                    i <= self.cols,
                    j < self.rows,
                    self.wf(),
                    other.wf(),
                    self@.same_shape(other@),
                    row@.len() == i,
                    forall|r: int, c: int|
                        self@.has_cell(r, c) && other@.has_cell(r, c) ==> f.requires(
                            (#[trigger] self@.weights[r][c], #[trigger] other@.weights[r][c]),
                        ),
                    forall|c: int|
                        0 <= c < i ==> f.ensures(
                            (self@.weights[j as int][c], other@.weights[j as int][c]),
                            #[trigger] row@[c],
                        ),
                decreases self.cols - i,
            {
                assert(self@.has_cell(j as int, i as int) && other@.has_cell(j as int, i as int));
                assert(self@.weights[j as int][i as int] == self.data@[j as int]@[i as int]);
                assert(other@.weights[j as int][i as int] == other.data@[j as int]@[i as int]);
                let item: W = f(self.data[j][i], other.data[j][i]);
                row.push(item);
                i += 1;
            }
            data.push(row);
            j += 1;
        }
        Ok(Kernel { rows: self.rows, cols: self.cols, data, edge_strategy: self.edge_strategy })
    }
    /// The source point that cell `(r, c)` reads when the kernel is centred
    /// on `pt` in an image of `size`; `None` where the edge strategy does
    /// not map the coordinate into the image.
    pub fn source(&self, pt: Point, size: Size, r: usize, c: usize) -> (source: Option<Point>)
        requires
            self.wf(),
            self@.has_cell(r as int, c as int),
            size.width <= isize::MAX,
            size.height <= isize::MAX,
            pt.x + self@.cols / 2 <= isize::MAX,
            pt.y + self@.rows / 2 <= isize::MAX,
        ensures
            source == self@.source(pt, size, r as int, c as int),
    {
        let x: isize = offset_of(pt.x, c, self.cols / 2);
        let y: isize = offset_of(pt.y, r, self.rows / 2);
        let source_x: Option<usize> = index_of(self.edge_strategy, x, size.width);
        let source_y: Option<usize> = index_of(self.edge_strategy, y, size.height);
        match (source_x, source_y) {
            (Some(x), Some(y)) => Some(Point { x, y }),
            _ => None,
        }
    }

    /// The taps of the kernel centred on `pt` in an image of `size`: for
    /// every cell, row by row, its weight and the source point it reads.
    pub fn taps(&self, pt: Point, size: Size) -> (taps: Vec<Vec<Tap<W>>>)
        requires
            self.wf(),
            size.width <= isize::MAX,
            size.height <= isize::MAX,
            pt.x + self@.cols / 2 <= isize::MAX,
            pt.y + self@.rows / 2 <= isize::MAX,
        ensures
            taps@.len() == self@.rows,
            forall|r: int| 0 <= r < self@.rows ==> (#[trigger] taps@[r])@.len() == self@.cols,
            forall|r: int, c: int|
                self@.has_cell(r, c) ==> #[trigger] taps@[r]@[c] == self@.tap(pt, size, r, c),
    {
        let half_rows: usize = self.rows / 2;
        let half_cols: usize = self.cols / 2;
        let mut taps: Vec<Vec<Tap<W>>> = Vec::new();
        let mut r: usize = 0;
        while r < self.rows
            invariant
                r <= self.rows,
                self.wf(),
                half_rows == self.rows / 2,
                half_cols == self.cols / 2,
                size.width <= isize::MAX,
                size.height <= isize::MAX,
                pt.x + half_cols <= isize::MAX,
                pt.y + half_rows <= isize::MAX,
                taps@.len() == r,
                forall|k: int| 0 <= k < r ==> (#[trigger] taps@[k])@.len() == self.cols,
                forall|k: int, c: int|
                    0 <= k < r && 0 <= c < self.cols ==> #[trigger] taps@[k]@[c] == self@.tap(
                        pt,
                        size,
                        k,
                        c,
                    ),
            decreases self.rows - r,
        {
            let y: isize = offset_of(pt.y, r, half_rows);
            let source_y: Option<usize> = index_of(self.edge_strategy, y, size.height);
            let mut row: Vec<Tap<W>> = Vec::new();
            let mut c: usize = 0;
            while c < self.cols
                invariant
                    c <= self.cols,
                    r < self.rows,
                    self.wf(),
                    half_cols == self.cols / 2,
                    size.width <= isize::MAX,
                    pt.x + half_cols <= isize::MAX,
                    y == KernelView::<W>::offset(pt.y as int, r as int, self.rows as int),
                    source_y.is_some() <==> self.edge_strategy.lands_inside(
                        y as int,
                        size.height - 1,
                    ),
                    source_y.is_some() ==> source_y.unwrap() == self.edge_strategy.remap(
                        y as int,
                        size.height - 1,
                    ),
                    row@.len() == c,
                    forall|k: int|
                        0 <= k < c ==> #[trigger] row@[k] == self@.tap(pt, size, r as int, k),
                decreases self.cols - c,
            {
                let x: isize = offset_of(pt.x, c, half_cols);
                let source_x: Option<usize> = index_of(self.edge_strategy, x, size.width);
                let source: Option<Point> = match (source_x, source_y) {
                    (Some(x), Some(y)) => Some(Point { x, y }),
                    _ => None,
                };
                row.push(Tap { weight: self.data[r][c], source });
                c += 1;
            }
            taps.push(row);
            r += 1;
        }
        taps
    }
}

/// The weights of the horizontal Sobel operator.
pub open spec fn sobel_x_weights() -> Seq<Seq<i32>> {
    seq![seq![1i32, 0i32, -1i32], seq![2i32, 0i32, -2i32], seq![1i32, 0i32, -1i32]]
}

/// The weights of the vertical Sobel operator.
pub open spec fn sobel_y_weights() -> Seq<Seq<i32>> {
    seq![seq![1i32, 2i32, 1i32], seq![0i32, 0i32, 0i32], seq![-1i32, -2i32, -1i32]]
}

/// The weights of the Laplacian operator.
pub open spec fn laplacian_weights() -> Seq<Seq<i32>> {
    seq![seq![0i32, -1i32, 0i32], seq![-1i32, 4i32, -1i32], seq![0i32, -1i32, 0i32]]
}

/// The sum of the horizontal and the vertical Sobel operator, cell by cell.
pub open spec fn sobel_weights() -> Seq<Seq<i32>> {
    seq![seq![2i32, 2i32, 0i32], seq![2i32, 0i32, -2i32], seq![0i32, -2i32, -2i32]]
}

/// The 3 by 3 kernel with the given rows.
fn three_by_three(top: [i32; 3], middle: [i32; 3], bottom: [i32; 3]) -> (kernel: Kernel<i32>)
    ensures
        kernel.wf(),
        kernel@.rows == 3,
        kernel@.cols == 3,
        kernel@.edge_strategy == EdgeStrategy::Constant,
        kernel@.weights == seq![top@, middle@, bottom@],
{
    let mut data: Vec<Vec<i32>> = Vec::new();
    data.push(vec![top[0], top[1], top[2]]);
    data.push(vec![middle[0], middle[1], middle[2]]);
    data.push(vec![bottom[0], bottom[1], bottom[2]]);
    let kernel = Kernel { rows: 3, cols: 3, data, edge_strategy: EdgeStrategy::Constant };
    proof {
        assert(kernel.data@[0]@ =~= top@);
        assert(kernel.data@[1]@ =~= middle@);
        assert(kernel.data@[2]@ =~= bottom@);
        assert(kernel@.weights =~= seq![top@, middle@, bottom@]);
    }
    kernel
}

impl Kernel<i32> {
    /// Sobel X
    pub fn sobel_x() -> (kernel: Kernel<i32>)
        ensures
            kernel.wf(),
            kernel@.rows == 3,
            kernel@.cols == 3,
            kernel@.edge_strategy == EdgeStrategy::Constant,
            kernel@.weights == sobel_x_weights(),
    {
        let kernel = three_by_three([1, 0, -1], [2, 0, -2], [1, 0, -1]);
        proof {
            assert(kernel@.weights[0] =~= sobel_x_weights()[0]);
            assert(kernel@.weights[1] =~= sobel_x_weights()[1]);
            assert(kernel@.weights[2] =~= sobel_x_weights()[2]);
            assert(kernel@.weights =~= sobel_x_weights());
        }
        kernel
    }

    /// Sobel Y
    pub fn sobel_y() -> (kernel: Kernel<i32>)
        ensures
            kernel.wf(),
            kernel@.rows == 3,
            kernel@.cols == 3,
            kernel@.edge_strategy == EdgeStrategy::Constant,
            kernel@.weights == sobel_y_weights(),
    {
        let kernel = three_by_three([1, 2, 1], [0, 0, 0], [-1, -2, -1]);
        proof {
            assert(kernel@.weights[0] =~= sobel_y_weights()[0]);
            assert(kernel@.weights[1] =~= sobel_y_weights()[1]);
            assert(kernel@.weights[2] =~= sobel_y_weights()[2]);
            assert(kernel@.weights =~= sobel_y_weights());
        }
        kernel
    }

    /// Laplacian
    pub fn laplacian() -> (kernel: Kernel<i32>)
        ensures
            kernel.wf(),
            kernel@.rows == 3,
            kernel@.cols == 3,
            kernel@.edge_strategy == EdgeStrategy::Constant,
            kernel@.weights == laplacian_weights(),
    {
        let kernel = three_by_three([0, -1, 0], [-1, 4, -1], [0, -1, 0]);
        proof {
            assert(kernel@.weights[0] =~= laplacian_weights()[0]);
            assert(kernel@.weights[1] =~= laplacian_weights()[1]);
            assert(kernel@.weights[2] =~= laplacian_weights()[2]);
            assert(kernel@.weights =~= laplacian_weights());
        }
        kernel
    }

    /// Sobel X and Y combined
    pub fn sobel() -> (kernel: Kernel<i32>)
        ensures
            kernel.wf(),
            kernel@.rows == 3,
            kernel@.cols == 3,
            kernel@.edge_strategy == EdgeStrategy::Constant,
            kernel@.weights == sobel_weights(),
    {
        let x = Kernel::sobel_x();
        let y = Kernel::sobel_y();
        let sum = |a: i32, b: i32| -> (s: i32)
            requires
                -4 <= a <= 4,
                -4 <= b <= 4,
            ensures
                s == a + b,
            { a + b };
        proof {
            x.lemma_wf();
            y.lemma_wf();
            assert forall|r: int, c: int| x@.has_cell(r, c) && y@.has_cell(r, c) implies sum.requires(
                (#[trigger] x@.weights[r][c], #[trigger] y@.weights[r][c]),
            ) by {
                lemma_small_weights(r, c);
            }
        }
        let ghost xs = x@;
        let kernel = x.combine(&y, sum).unwrap();
        proof {
            kernel.lemma_wf();
            assert forall|r: int| 0 <= r < 3 implies #[trigger] kernel@.weights[r]
                =~= sobel_weights()[r] by {
                assert forall|c: int| 0 <= c < 3 implies kernel@.weights[r][c]
                    == sobel_weights()[r][c] by {
                    assert(xs.has_cell(r, c));
                    assert(sum.ensures((xs.weights[r][c], y@.weights[r][c]), kernel@.weights[r][c]));
                    lemma_small_weights(r, c);
                }
            }
            assert(kernel@.weights =~= sobel_weights());
        }
        kernel
    }
}

/// The weights of the two Sobel operators, cell by cell, and their sums.
proof fn lemma_small_weights(r: int, c: int)
    requires
        0 <= r < 3,
        0 <= c < 3,
    ensures
        -4 <= sobel_x_weights()[r][c] <= 4,
        -4 <= sobel_y_weights()[r][c] <= 4,
        sobel_weights()[r][c] == sobel_x_weights()[r][c] + sobel_y_weights()[r][c],
{
    assert(sobel_x_weights()[0] =~= seq![1i32, 0i32, -1i32]);
    assert(sobel_x_weights()[1] =~= seq![2i32, 0i32, -2i32]);
    assert(sobel_x_weights()[2] =~= seq![1i32, 0i32, -1i32]);
    assert(sobel_y_weights()[0] =~= seq![1i32, 2i32, 1i32]);
    assert(sobel_y_weights()[1] =~= seq![0i32, 0i32, 0i32]);
    assert(sobel_y_weights()[2] =~= seq![-1i32, -2i32, -1i32]);
    assert(sobel_weights()[0] =~= seq![2i32, 2i32, 0i32]);
    assert(sobel_weights()[1] =~= seq![2i32, 0i32, -2i32]);
    assert(sobel_weights()[2] =~= seq![0i32, -2i32, -2i32]);
}

} // verus!
