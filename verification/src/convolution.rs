//! Convolution: a kernel as a filter.

use vstd::prelude::*;
use crate::edge::EdgeStrategy;
use crate::filter::Filter;
use crate::function::Function;
use crate::geometry::Point;
use crate::geometry::Size;
use crate::image::Image;
use crate::input::Input;
use crate::input::InputView;
use crate::kernel::lemma_every_cell_has_a_source;
use crate::kernel::Kernel;
use crate::kernel::KernelView;

verus! {

/// Discrete 2-dimensional convolution with a kernel.
///
/// At a point the filter starts from a new pixel and visits the cells of the
/// kernel row by row.  For each cell it reads the sample at the cell's source
/// point, or the border value where the cell has none, and lets `accumulate`
/// add the sample, weighted by the cell, to what it has so far.  Samples are
/// read from the intermediate image where the input holds one, and from the
/// first source image where it does not.
pub struct Convolution<P, W, M> {
    kernel: Kernel<W>,
    border: P,
    accumulate: M,
}

impl<P: Copy, W: Copy, M: Function<(P, P, W), P>> Convolution<P, W, M> {
    /// A convolution with `kernel`.  `accumulate(acc, sample, weight)` is
    /// the sum so far with one more weighted sample added; `border` is the
    /// sample of a cell whose coordinate is not mapped into the image.
    pub fn new(kernel: Kernel<W>, border: P, accumulate: M) -> (convolution: Convolution<P, W, M>)
        requires
            kernel.wf(),
        ensures
            convolution.wf(),
            convolution.kernel() == kernel@,
            convolution.border() == border,
            convolution.accumulate() == accumulate,
    {
        Convolution { kernel, border, accumulate }
    }

    /// The kernel of the convolution.
    pub fn weights(&self) -> (kernel: &Kernel<W>)
        ensures
            kernel@ == self.kernel(),
            kernel.wf() == self.wf(),
    {
        &self.kernel
    }

    /// The invariant of a convolution: its kernel is well formed.
    pub closed spec fn wf(&self) -> bool {
        self.kernel.wf()
    }

    /// The kernel.
    pub closed spec fn kernel(&self) -> KernelView<W> {
        self.kernel@
    }

    /// The sample of a cell that has no source point.
    pub closed spec fn border(&self) -> P {
        self.border
    }

    /// The function that adds a weighted sample.
    pub closed spec fn accumulate(&self) -> M {
        self.accumulate
    }

    /// The sample that cell `(r, c)` reads when the kernel is centred on `pt`.
    pub open spec fn sample(&self, pt: Point, input: InputView<P>, r: int, c: int) -> P {
        let image = input.sampled();
        let size = Size { width: image.width as usize, height: image.height as usize };
        match self.kernel().source(pt, size, r, c) {
            Some(source) => image.pixel(source),
            None => self.border(),
        }
    }

    /// The sum once the rows before row `r` and, of row `r`, the cells
    /// before column `c` have been added.
    pub open spec fn sum_before(&self, pt: Point, input: InputView<P>, r: nat, c: nat) -> P
        decreases r, c,
    {
        if c > 0 {
            self.accumulate().result(
                (
                    self.sum_before(pt, input, r, (c - 1) as nat),
                    self.sample(pt, input, r as int, c - 1),
                    self.kernel().weights[r as int][c - 1],
                ),
            )
        } else if r > 0 {
            self.sum_before(pt, input, (r - 1) as nat, self.kernel().cols)
        } else {
            input.blank
        }
    }

    /// Whether the coordinates that the kernel reads around `pt` fit the
    /// machine's signed index type.
    pub open spec fn in_reach(&self, pt: Point, input: InputView<P>) -> bool {
        &&& input.sampled().width <= isize::MAX
        &&& input.sampled().height <= isize::MAX
        &&& pt.x + self.kernel().cols / 2 <= isize::MAX
        &&& pt.y + self.kernel().rows / 2 <= isize::MAX
    }
}

impl<P: Copy, W: Copy, M: Function<(P, P, W), P>> Filter<P> for Convolution<P, W, M> {
    open spec fn needs_intermediate(&self) -> bool {
        true
    }

    open spec fn accepts(&self, pt: Point, input: InputView<P>) -> bool {
        &&& self.wf()
        &&& input.can_sample()
        &&& self.in_reach(pt, input)
        &&& forall|r: nat, c: nat|
            self.kernel().has_cell(r as int, c as int) ==> self.accumulate().defined(
                (
                    #[trigger] self.sum_before(pt, input, r, c),
                    self.sample(pt, input, r as int, c as int),
                    self.kernel().weights[r as int][c as int],
                ),
            )
    }

    open spec fn value_at(&self, pt: Point, input: InputView<P>, dest: P) -> P {
        self.sum_before(pt, input, self.kernel().rows, 0)
    }

    open spec fn can_prepare(&self, input: InputView<P>, size: Size) -> bool {
        true
    }

    open spec fn prepared(&self, input: InputView<P>, size: Size) -> InputView<P> {
        input
    }

    fn requires_intermediate_image(&self) -> (needed: bool) {
        true
    }

    fn compute_at(&self, pt: Point, input: &Input<P>, dest: &mut P) {
        let image: &Image<P> = input.sampled_image();
        let size: Size = image.size();
        let rows: usize = self.kernel.rows();
        let cols: usize = self.kernel.cols();
        proof {
            self.kernel.lemma_wf();
            image.lemma_wf();
        }
        let mut sum: P = input.new_pixel();
        let mut r: usize = 0;
        while r < rows
            invariant
                r <= rows,
                rows == self.kernel().rows,
                cols == self.kernel().cols,
                input.wf(),
                image.wf(),
                image@ == input@.sampled(),
                size.width == image@.width,
                size.height == image@.height,
                self.accepts(pt, input@),
                sum == self.sum_before(pt, input@, r as nat, 0),
            decreases rows - r,
        {
            let mut c: usize = 0;
            while c < cols
                invariant
                    c <= cols,
                    r < rows,
                    rows == self.kernel().rows,
                    cols == self.kernel().cols,
                    input.wf(),
                    image.wf(),
                    image@ == input@.sampled(),
                    size.width == image@.width,
                    size.height == image@.height,
                    self.accepts(pt, input@),
                    sum == self.sum_before(pt, input@, r as nat, c as nat),
                decreases cols - c,
            {
                assert(self.kernel().has_cell(r as int, c as int));
                let sample: P = match self.kernel.source(pt, size, r, c) {
                    Some(source) => image.get_pixel(source),
                    None => self.border,
                };
                let weight: W = self.kernel.weight(r, c);
                assert(self.accumulate().defined(
                    (self.sum_before(pt, input@, r as nat, c as nat), sample, weight),
                ));
                sum = self.accumulate.apply((sum, sample, weight));
                c += 1;
            }
            r += 1;
        }
        *dest = sum;
    }

    fn before_compute(&self, input: &mut Input<P>, size: Size) {
    }
}

/// What a convolution is as a filter, whatever its function: it needs an
/// intermediate image where it follows another filter, it has no setup of its
/// own, it writes the sum over all cells, and it can be computed where there
/// is an image to sample, the coordinates are in reach, and the function is
/// defined at every step of the sum.
pub proof fn lemma_convolution<P: Copy, W: Copy, M: Function<(P, P, W), P>>(
    convolution: &Convolution<P, W, M>,
    pt: Point,
    input: InputView<P>,
    size: Size,
    dest: P,
)
    ensures
        convolution.needs_intermediate(),
        convolution.can_prepare(input, size),
        convolution.prepared(input, size) == input,
        convolution.accepts(pt, input) <==> {
            &&& convolution.wf()
            &&& input.can_sample()
            &&& convolution.in_reach(pt, input)
            &&& forall|r: nat, c: nat|
                convolution.kernel().has_cell(r as int, c as int) ==> convolution.accumulate().defined(
                    (
                        #[trigger] convolution.sum_before(pt, input, r, c),
                        convolution.sample(pt, input, r as int, c as int),
                        convolution.kernel().weights[r as int][c as int],
                    ),
                )
        },
        convolution.value_at(pt, input, dest) == convolution.sum_before(
            pt,
            input,
            convolution.kernel().rows,
            0,
        ),
{
}

/// On a uniform image every cell reads the image's one value: under `Extend`
/// and under `Wrap` each cell's coordinate is mapped to a point of the
/// image, so no cell reads the border value, wherever the kernel is centred.
pub proof fn lemma_uniform_image_samples<P: Copy, W: Copy, M: Function<(P, P, W), P>>(
    convolution: &Convolution<P, W, M>,
    pt: Point,
    input: InputView<P>,
    r: int,
    c: int,
    value: P,
)
    requires
        convolution.kernel().edge_strategy == EdgeStrategy::Extend
            || convolution.kernel().edge_strategy == EdgeStrategy::Wrap,
        0 < input.sampled().width <= usize::MAX,
        0 < input.sampled().height <= usize::MAX,
        forall|at: Point|
            input.sampled().contains(at) ==> #[trigger] input.sampled().pixel(at) == value,
    ensures
        convolution.sample(pt, input, r, c) == value,
{
    let image = input.sampled();
    let size = Size { width: image.width as usize, height: image.height as usize };
    lemma_every_cell_has_a_source(convolution.kernel(), pt, size, r, c);
    let source = convolution.kernel().source(pt, size, r, c).unwrap();
    assert(image.contains(source));
}

} // verus!
