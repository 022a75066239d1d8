//! Filters: pure functions from a point and an input to one output pixel,
//! and the combinators that compose them.

use vstd::prelude::*;
use crate::eval::renderable;
use crate::eval::rendered;
use crate::function::Function;
use crate::geometry::Point;
use crate::geometry::Region;
use crate::geometry::Size;
use crate::input::Input;
use crate::input::InputView;

verus! {

/// Filters are used to manipulate images in a generic, composable manner.
///
/// A filter is a pure function: what it writes at a point depends on the
/// point, on what the input holds, and on what the destination pixel held
/// before, and on nothing else.  `value_at` names that function and
/// `compute_at` computes it.
pub trait Filter<P: Copy>: Sized {
    /// Whether the filter reads points other than the one it computes from
    /// what an earlier filter produced, so that an intermediate image must
    /// exist before it runs.
    spec fn needs_intermediate(&self) -> bool;

    /// Whether the filter can be computed at `pt` against `input`.
    spec fn accepts(&self, pt: Point, input: InputView<P>) -> bool;

    /// The pixel that the filter writes at `pt`, where the destination held
    /// `dest` before.
    spec fn value_at(&self, pt: Point, input: InputView<P>, dest: P) -> P;

    /// Whether the filter can set up an evaluation over an output of `size`.
    spec fn can_prepare(&self, input: InputView<P>, size: Size) -> bool;

    /// The input as the filter's setup leaves it.
    spec fn prepared(&self, input: InputView<P>, size: Size) -> InputView<P>;

    /// Set to true when the filter requires an intermediate image buffer.
    fn requires_intermediate_image(&self) -> (needed: bool)
        ensures
            needed == self.needs_intermediate(),
    ;

    /// Compute the value of the filter at a single point.
    fn compute_at(&self, pt: Point, input: &Input<P>, dest: &mut P)
        requires
            input.wf(),
            self.accepts(pt, input@),
        ensures
            *final(dest) == self.value_at(pt, input@, *old(dest)),
    ;

    /// Called once before any point is computed, for an output of `size`.
    /// This is the only place where a filter sets up an intermediate image.
    fn before_compute(&self, input: &mut Input<P>, size: Size)
        requires
            old(input).wf(),
            self.can_prepare(old(input)@, size),
        ensures
            final(input).wf(),
            final(input)@ == self.prepared(old(input)@, size),
    ;
}

/// Crop an image to a region: the output is the window of the region's size,
/// and the pixel at a point of the window is copied from the point that lies
/// the region's corner further right and down.  Points outside the window,
/// and points whose source is not in the image that is read, leave the
/// destination unchanged.
pub struct Crop(pub Region);

impl Crop {
    /// Whether `pt` lies in the window: the grid of the region's size.
    pub open spec fn in_window(&self, pt: Point) -> bool {
        &&& pt.x < self.0.size.width
        &&& pt.y < self.0.size.height
    }

    /// Whether the source of `pt` is a point that `input` can be read at.
    pub open spec fn source_readable<P>(&self, pt: Point, input: InputView<P>) -> bool {
        &&& pt.x + self.0.point.x <= usize::MAX
        &&& pt.y + self.0.point.y <= usize::MAX
        &&& input.readable(self.source(pt), None)
    }

    /// The point that the pixel at `pt` is copied from.
    pub open spec fn source(&self, pt: Point) -> Point {
        Point { x: (pt.x + self.0.point.x) as usize, y: (pt.y + self.0.point.y) as usize }
    }
}

impl<P: Copy> Filter<P> for Crop {
    open spec fn needs_intermediate(&self) -> bool {
        false
    }

    open spec fn accepts(&self, pt: Point, input: InputView<P>) -> bool {
        true
    }

    open spec fn value_at(&self, pt: Point, input: InputView<P>, dest: P) -> P {
        if self.in_window(pt) && self.source_readable(pt, input) {
            input.lookup(self.source(pt), None)
        } else {
            dest
        }
    }

    open spec fn can_prepare(&self, input: InputView<P>, size: Size) -> bool {
        true
    }

    open spec fn prepared(&self, input: InputView<P>, size: Size) -> InputView<P> {
        input
    }

    fn requires_intermediate_image(&self) -> (needed: bool) {
        false
    }

    fn compute_at(&self, pt: Point, input: &Input<P>, dest: &mut P) {
        if pt.x >= self.0.size.width || pt.y >= self.0.size.height {
            return;
        }
        match (pt.x.checked_add(self.0.point.x), pt.y.checked_add(self.0.point.y)) {
            (Some(x), Some(y)) => {
                let source: Point = Point { x, y };
                if input.can_read(source, None) {
                    *dest = input.get_pixel(source, None);
                }
            },
            _ => {},
        }
    }

    fn before_compute(&self, input: &mut Input<P>, size: Size) {
    }
}

/// The input that the second of two fused filters sees at `pt`: the source
/// images, and as cached pixel what `first` writes at `pt` into a new pixel.
pub open spec fn chained<P: Copy, F: Filter<P>>(
    first: &F,
    pt: Point,
    input: InputView<P>,
) -> InputView<P> {
    InputView::fresh(input.images, input.blank).with_pixel(
        first.value_at(pt, input, input.blank),
    )
}

/// Compute the value of `filter` at a single point with the filter `first`
/// pre-applied: `first` writes into a new pixel, and `filter` is computed
/// against the source images with that pixel as cached pixel.
pub fn compute_at_with_filter<P: Copy, A: Filter<P>, B: Filter<P>>(
    filter: &B,
    pt: Point,
    input: &Input<P>,
    dest: &mut P,
    first: &A,
)
    requires
        input.wf(),
        first.accepts(pt, input@),
        filter.accepts(pt, chained(first, pt, input@)),
    ensures
        *final(dest) == filter.value_at(pt, chained(first, pt, input@), *old(dest)),
{
    let mut pixel: P = input.new_pixel();
    first.compute_at(pt, input, &mut pixel);
    let next: Input<P> = Input::new(input.images(), input.new_pixel()).with_pixel(pixel);
    filter.compute_at(pt, &next, dest);
}

/// Executes `a` then `b`.
///
/// Where `b` requires an intermediate image, the setup renders `a` from the
/// source images into one, and `b` is computed against it.  Where it does
/// not, the two are fused: at each point `a` is computed from the source
/// images into a new pixel, and `b` sees that pixel in place of the images.
pub struct Then<A, B> {
    a: A,
    b: B,
}

impl<A, B> Then<A, B> {
    /// Perform `a`, then `b`.
    pub fn new(a: A, b: B) -> (then: Then<A, B>)
        ensures
            then.first() == a,
            then.second() == b,
    {
        Then { a, b }
    }

    /// The two filters, in the order in which they run.
    pub fn parts(&self) -> (parts: (&A, &B))
        ensures
            *parts.0 == self.first(),
            *parts.1 == self.second(),
    {
        (&self.a, &self.b)
    }

    /// The filter that runs first.
    pub closed spec fn first(&self) -> A {
        self.a
    }

    /// The filter that runs second.
    pub closed spec fn second(&self) -> B {
        self.b
    }
}

impl<P: Copy, A: Filter<P>, B: Filter<P>> Filter<P> for Then<A, B> {
    open spec fn needs_intermediate(&self) -> bool {
        false
    }

    open spec fn accepts(&self, pt: Point, input: InputView<P>) -> bool {
        if self.second().needs_intermediate() {
            self.second().accepts(pt, input)
        } else {
            let sources = InputView::fresh(input.images, input.blank);
            &&& self.first().accepts(pt, sources)
            &&& self.second().accepts(pt, chained(&self.first(), pt, sources))
        }
    }

    open spec fn value_at(&self, pt: Point, input: InputView<P>, dest: P) -> P {
        if self.second().needs_intermediate() {
            self.second().value_at(pt, input, dest)
        } else {
            let sources = InputView::fresh(input.images, input.blank);
            self.second().value_at(pt, chained(&self.first(), pt, sources), dest)
        }
    }

    open spec fn can_prepare(&self, input: InputView<P>, size: Size) -> bool {
        self.second().needs_intermediate() ==> {
            &&& size.width * size.height <= usize::MAX
            &&& renderable(&self.first(), input.images, input.blank, size)
        }
    }

    open spec fn prepared(&self, input: InputView<P>, size: Size) -> InputView<P> {
        if self.second().needs_intermediate() {
            input.with_image(rendered(&self.first(), input.images, input.blank, size))
        } else {
            input
        }
    }

    fn requires_intermediate_image(&self) -> (needed: bool) {
        false
    }

    fn compute_at(&self, pt: Point, input: &Input<P>, dest: &mut P) {
        if self.b.requires_intermediate_image() {
            self.b.compute_at(pt, input, dest);
        } else {
            let sources: Input<P> = Input::new(input.images(), input.new_pixel());
            compute_at_with_filter(&self.b, pt, &sources, dest, &self.a);
        }
    }

    fn before_compute(&self, input: &mut Input<P>, size: Size) {
        if self.b.requires_intermediate_image() {
            input.compute_intermediate_image(size, &self.a);
        }
    }
}

/// Join two filters using the function `f`: both are computed at the point,
/// each into a copy of the pixel that the input holds there, and `f` makes
/// one pixel of the point and the two results.
pub struct Join<A, B, F> {
    a: A,
    b: B,
    f: F,
}

impl<A, B, F> Join<A, B, F> {
    /// Join `a` and `b` using `f`.
    pub fn new(a: A, b: B, f: F) -> (join: Join<A, B, F>)
        ensures
            join.left() == a,
            join.right() == b,
            join.merge() == f,
    {
        Join { a, b, f }
    }

    /// The two operands.
    pub fn operands(&self) -> (operands: (&A, &B))
        ensures
            *operands.0 == self.left(),
            *operands.1 == self.right(),
    {
        (&self.a, &self.b)
    }

    /// The first operand.
    pub closed spec fn left(&self) -> A {
        self.a
    }

    /// The second operand.
    pub closed spec fn right(&self) -> B {
        self.b
    }

    /// The function that merges the operands' results.
    pub closed spec fn merge(&self) -> F {
        self.f
    }
}

impl<P: Copy, A: Filter<P>, B: Filter<P>, F: Function<(Point, P, P), P>> Filter<P> for Join<
    A,
    B,
    F,
> {
    open spec fn needs_intermediate(&self) -> bool {
        false
    }

    open spec fn accepts(&self, pt: Point, input: InputView<P>) -> bool {
        &&& input.readable(pt, None)
        &&& self.left().accepts(pt, input)
        &&& self.right().accepts(pt, input)
        &&& self.merge().defined(
            (
                pt,
                self.left().value_at(pt, input, input.lookup(pt, None)),
                self.right().value_at(pt, input, input.lookup(pt, None)),
            ),
        )
    }

    open spec fn value_at(&self, pt: Point, input: InputView<P>, dest: P) -> P {
        self.merge().result(
            (
                pt,
                self.left().value_at(pt, input, input.lookup(pt, None)),
                self.right().value_at(pt, input, input.lookup(pt, None)),
            ),
        )
    }

    open spec fn can_prepare(&self, input: InputView<P>, size: Size) -> bool {
        true
    }

    open spec fn prepared(&self, input: InputView<P>, size: Size) -> InputView<P> {
        input
    }

    fn requires_intermediate_image(&self) -> (needed: bool) {
        false
    }

    fn compute_at(&self, pt: Point, input: &Input<P>, dest: &mut P) {
        let mut a: P = input.get_pixel(pt, None);
        self.a.compute_at(pt, input, &mut a);
        let mut b: P = input.get_pixel(pt, None);
        self.b.compute_at(pt, input, &mut b);
        *dest = self.f.apply((pt, a, b));
    }

    fn before_compute(&self, input: &mut Input<P>, size: Size) {
    }
}

/// A crop leaves every point outside its window as it was, and every point
/// whose source the input cannot be read at.
pub proof fn lemma_crop_keeps_the_rest<P: Copy>(crop: &Crop, pt: Point, input: InputView<P>, dest: P)
    requires
        pt.x >= crop.0.size.width || pt.y >= crop.0.size.height || !crop.source_readable(
            pt,
            input,
        ),
    ensures
        crop.value_at(pt, input, dest) == dest,
{
}

/// What a fused sequence computes: where the second filter needs no
/// intermediate image, `Then` has no setup, and it writes at every point what
/// the second filter writes when the pixel that the first filter computes
/// from the source images is handed to it as its cached pixel.  It can be
/// computed where the first filter can be computed against the source images
/// and the second against that pixel.
pub proof fn lemma_then_fuses<P: Copy, A: Filter<P>, B: Filter<P>>(
    then: &Then<A, B>,
    pt: Point,
    input: InputView<P>,
    size: Size,
    dest: P,
)
    requires
        !then.second().needs_intermediate(),
    ensures
        !then.needs_intermediate(),
        then.can_prepare(input, size),
        then.prepared(input, size) == input,
        then.accepts(pt, input) <==> {
            &&& then.first().accepts(pt, InputView::fresh(input.images, input.blank))
            &&& then.second().accepts(
                pt,
                InputView::fresh(input.images, input.blank).with_pixel(
                    then.first().value_at(
                        pt,
                        InputView::fresh(input.images, input.blank),
                        input.blank,
                    ),
                ),
            )
        },
        then.value_at(pt, input, dest) == then.second().value_at(
            pt,
            InputView::fresh(input.images, input.blank).with_pixel(
                then.first().value_at(
                    pt,
                    InputView::fresh(input.images, input.blank),
                    input.blank,
                ),
            ),
            dest,
        ),
{
}

/// What a materialized sequence computes: where the second filter needs an
/// intermediate image, the setup caches the image that the first filter
/// renders from the source images, which takes that the image fits the
/// machine and that the first filter can render it.  `Then` can then be
/// computed where the second filter can, and writes what the second filter
/// writes against the input it is given.
pub proof fn lemma_then_materializes<P: Copy, A: Filter<P>, B: Filter<P>>(
    then: &Then<A, B>,
    pt: Point,
    input: InputView<P>,
    size: Size,
    dest: P,
)
    requires
        then.second().needs_intermediate(),
    ensures
        !then.needs_intermediate(),
        then.can_prepare(input, size) <==> {
            &&& size.width * size.height <= usize::MAX
            &&& renderable(&then.first(), input.images, input.blank, size)
        },
        then.prepared(input, size) == input.with_image(
            rendered(&then.first(), input.images, input.blank, size),
        ),
        then.accepts(pt, input) <==> then.second().accepts(pt, input),
        then.value_at(pt, input, dest) == then.second().value_at(pt, input, dest),
{
}

/// What a join computes: its function applied to the point and to what the
/// two operands write there, each into a copy of the pixel that the input
/// holds at the point.  It needs no intermediate image and no setup, and can
/// be computed where the input has a pixel, both operands can be computed,
/// and the function is defined on their results.
pub proof fn lemma_join_merges<P: Copy, A: Filter<P>, B: Filter<P>, F: Function<(Point, P, P), P>>(
    join: &Join<A, B, F>,
    pt: Point,
    input: InputView<P>,
    size: Size,
    dest: P,
)
    ensures
        !join.needs_intermediate(),
        join.can_prepare(input, size),
        join.prepared(input, size) == input,
        join.accepts(pt, input) <==> {
            &&& input.readable(pt, None)
            &&& join.left().accepts(pt, input)
            &&& join.right().accepts(pt, input)
            &&& join.merge().defined(
                (
                    pt,
                    join.left().value_at(pt, input, input.lookup(pt, None)),
                    join.right().value_at(pt, input, input.lookup(pt, None)),
                ),
            )
        },
        join.value_at(pt, input, dest) == join.merge().result(
            (
                pt,
                join.left().value_at(pt, input, input.lookup(pt, None)),
                join.right().value_at(pt, input, input.lookup(pt, None)),
            ),
        ),
{
}

} // verus!
