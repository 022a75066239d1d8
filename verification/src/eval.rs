//! Evaluation: running a filter over the points of an output image.

use vstd::prelude::*;
use vstd::arithmetic::div_mod::lemma_fundamental_div_mod;
use vstd::arithmetic::div_mod::lemma_fundamental_div_mod_converse;
use crate::filter::Filter;
use crate::geometry::Point;
use crate::geometry::Region;
use crate::geometry::Size;
use crate::image::lemma_row_major;
use crate::image::Image;
use crate::image::ImageView;
use crate::input::image_views;
use crate::input::images_wf;
use crate::input::Input;
use crate::input::InputView;

verus! {

/// The point whose pixel stands at position `i` of a row-major buffer.
pub open spec fn point_at(width: nat, i: int) -> Point {
    Point { x: (i % (width as int)) as usize, y: (i / (width as int)) as usize }
}

/// The region that covers a whole grid of the given size.
pub open spec fn whole(size: Size) -> Region {
    Region { point: Point { x: 0, y: 0 }, size }
}

/// The extent of an image as a `Size`.
pub open spec fn extent<P>(image: ImageView<P>) -> Size {
    Size { width: image.width as usize, height: image.height as usize }
}

/// Whether `pt` comes before the cursor `(x, y)` in row-major order.
pub open spec fn comes_before(pt: Point, x: int, y: int) -> bool {
    pt.y < y || (pt.y == y && pt.x < x)
}

/// Whether `filter` can be computed against `input` at every point of
/// `region` that an image of `size` has.
pub open spec fn evaluable<P: Copy, F: Filter<P>>(
    filter: &F,
    input: InputView<P>,
    size: Size,
    region: Region,
) -> bool {
    forall|pt: Point|
        size.contains(pt) && region.contains(pt) ==> #[trigger] filter.accepts(pt, input)
}

/// The image that evaluation has produced once the cursor stands at
/// `(x, y)`: the points of `region` before the cursor hold what `filter`
/// writes there, every other point holds what it held in `before`.
pub open spec fn progress<P: Copy, F: Filter<P>>(
    filter: &F,
    input: InputView<P>,
    before: ImageView<P>,
    region: Region,
    x: int,
    y: int,
) -> ImageView<P> {
    ImageView {
        width: before.width,
        height: before.height,
        pixels: Seq::new(
            before.pixels.len(),
            |i: int|
                {
                    let pt = point_at(before.width, i);
                    if region.contains(pt) && comes_before(pt, x, y) {
                        filter.value_at(pt, input, before.pixels[i])
                    } else {
                        before.pixels[i]
                    }
                },
        ),
    }
}

/// The image that evaluating `filter` against `input` over `region` makes of
/// `before`: the points of `region` hold what `filter` writes there, every
/// other point is unchanged.
pub open spec fn applied<P: Copy, F: Filter<P>>(
    filter: &F,
    input: InputView<P>,
    before: ImageView<P>,
    region: Region,
) -> ImageView<P> {
    ImageView {
        width: before.width,
        height: before.height,
        pixels: Seq::new(
            before.pixels.len(),
            |i: int|
                {
                    let pt = point_at(before.width, i);
                    if region.contains(pt) {
                        filter.value_at(pt, input, before.pixels[i])
                    } else {
                        before.pixels[i]
                    }
                },
        ),
    }
}

/// The image of the given size whose every pixel is `fill`.
pub open spec fn filled<P>(size: Size, fill: P) -> ImageView<P> {
    ImageView {
        width: size.width as nat,
        height: size.height as nat,
        pixels: Seq::new((size.width * size.height) as nat, |i: int| fill),
    }
}

/// The image that `filter` renders from the source images alone, into a new
/// image of `size` whose pixels start as `blank`.
pub open spec fn rendered<P: Copy, F: Filter<P>>(
    filter: &F,
    images: Seq<ImageView<P>>,
    blank: P,
    size: Size,
) -> ImageView<P> {
    applied(
        filter,
        filter.prepared(InputView::fresh(images, blank), size),
        filled(size, blank),
        whole(size),
    )
}

/// Whether `filter` can render an image of `size` from the source images.
pub open spec fn renderable<P: Copy, F: Filter<P>>(
    filter: &F,
    images: Seq<ImageView<P>>,
    blank: P,
    size: Size,
) -> bool {
    &&& filter.can_prepare(InputView::fresh(images, blank), size)
    &&& evaluable(
        filter,
        filter.prepared(InputView::fresh(images, blank), size),
        size,
        whole(size),
    )
}

/// Position `y * width + x` of a row-major buffer holds the point `(x, y)`.
pub proof fn lemma_point_at_position(width: nat, pt: Point)
    requires
        pt.x < width,
    ensures
        point_at(width, pt.y * width + pt.x) == pt,
{
    lemma_fundamental_div_mod_converse(pt.y * width + pt.x, width as int, pt.y as int, pt.x as int);
}

/// Every position of a `width * height` buffer holds a point of the image,
/// and that point's position is the position itself.
pub proof fn lemma_position_of_point(width: nat, height: nat, i: int)
    requires
        0 <= i < width * height,
        width <= usize::MAX,
        height <= usize::MAX,
    ensures
        point_at(width, i).x < width,
        point_at(width, i).y < height,
        point_at(width, i).y * width + point_at(width, i).x == i,
        i % (width as int) < width,
        0 <= i / (width as int) < height,
{
    let w: int = width as int;
    assert(w > 0) by (nonlinear_arith)
        requires
            0 <= i < w * height,
            w >= 0,
    ;
    lemma_fundamental_div_mod(i, w);
    let q: int = i / w;
    let r: int = i % w;
    assert(0 <= q < height) by (nonlinear_arith)
        requires
            i == w * q + r,
            0 <= r < w,
            0 <= i < w * height,
    ;
    assert(w * q == q * w) by (nonlinear_arith);
}

/// What the pixel of an evaluated image is, point by point.
pub proof fn lemma_applied_pixel<P: Copy, F: Filter<P>>(
    filter: &F,
    input: InputView<P>,
    before: ImageView<P>,
    region: Region,
    pt: Point,
)
    requires
        before.pixels.len() == before.width * before.height,
        before.contains(pt),
    ensures
        applied(filter, input, before, region).contains(pt),
        applied(filter, input, before, region).pixel(pt) == if region.contains(pt) {
            filter.value_at(pt, input, before.pixel(pt))
        } else {
            before.pixel(pt)
        },
{
    lemma_row_major(before.width, before.height, pt, pt);
    lemma_point_at_position(before.width, pt);
}

/// The smaller of two integers.
pub open spec fn least(a: int, b: int) -> int {
    if a <= b {
        a
    } else {
        b
    }
}

/// Before the first point of the region is reached nothing has changed, and
/// once its last row is passed the region is evaluated.
pub proof fn lemma_progress_ends<P: Copy, F: Filter<P>>(
    filter: &F,
    input: InputView<P>,
    before: ImageView<P>,
    region: Region,
)
    requires
        before.pixels.len() == before.width * before.height,
        before.width <= usize::MAX,
        before.height <= usize::MAX,
    ensures
        progress(
            filter,
            input,
            before,
            region,
            least(region.point.x as int, before.width as int),
            least(region.point.y as int, before.height as int),
        ) == before,
        progress(
            filter,
            input,
            before,
            region,
            least(region.point.x as int, before.width as int),
            least(region.point.y + region.size.height, before.height as int),
        ) == applied(filter, input, before, region),
{
    let x0: int = least(region.point.x as int, before.width as int);
    let y0: int = least(region.point.y as int, before.height as int);
    let y1: int = least(region.point.y + region.size.height, before.height as int);
    let first = progress(filter, input, before, region, x0, y0);
    let last = progress(filter, input, before, region, x0, y1);
    let whole = applied(filter, input, before, region);
    assert forall|i: int| 0 <= i < before.pixels.len() implies first.pixels[i] == before.pixels[i]
        && last.pixels[i] == whole.pixels[i] by {
        lemma_position_of_point(before.width, before.height, i);
    }
    assert(first.pixels =~= before.pixels);
    assert(last.pixels =~= whole.pixels);
}

/// Passing the last column of the region in a row is reaching its first
/// column in the next row.
pub proof fn lemma_progress_next_row<P: Copy, F: Filter<P>>(
    filter: &F,
    input: InputView<P>,
    before: ImageView<P>,
    region: Region,
    y: int,
)
    requires
        before.pixels.len() == before.width * before.height,
        before.width <= usize::MAX,
        before.height <= usize::MAX,
    ensures
        progress(
            filter,
            input,
            before,
            region,
            least(region.point.x + region.size.width, before.width as int),
            y,
        ) == progress(
            filter,
            input,
            before,
            region,
            least(region.point.x as int, before.width as int),
            y + 1,
        ),
{
    let x0: int = least(region.point.x as int, before.width as int);
    let x1: int = least(region.point.x + region.size.width, before.width as int);
    let here = progress(filter, input, before, region, x1, y);
    let next = progress(filter, input, before, region, x0, y + 1);
    assert forall|i: int| 0 <= i < before.pixels.len() implies here.pixels[i] == next.pixels[i] by {
        lemma_position_of_point(before.width, before.height, i);
    }
    assert(here.pixels =~= next.pixels);
}

/// Computing the point under the cursor moves the cursor one column on.
pub proof fn lemma_progress_step<P: Copy, F: Filter<P>>(
    filter: &F,
    input: InputView<P>,
    before: ImageView<P>,
    region: Region,
    pt: Point,
)
    requires
        before.pixels.len() == before.width * before.height,
        before.width <= usize::MAX,
        before.height <= usize::MAX,
        before.contains(pt),
        region.contains(pt),
    ensures
        progress(filter, input, before, region, pt.x as int, pt.y as int).pixel(pt)
            == before.pixel(pt),
        progress(filter, input, before, region, pt.x as int, pt.y as int).with_pixel(
            pt,
            filter.value_at(pt, input, before.pixel(pt)),
        ) == progress(filter, input, before, region, pt.x + 1, pt.y as int),
{
    let here = progress(filter, input, before, region, pt.x as int, pt.y as int);
    let next = progress(filter, input, before, region, pt.x + 1, pt.y as int);
    let stepped = here.with_pixel(
        pt,
        filter.value_at(pt, input, before.pixel(pt)),
    );
    lemma_row_major(before.width, before.height, pt, pt);
    lemma_point_at_position(before.width, pt);
    assert forall|i: int| 0 <= i < before.pixels.len() implies stepped.pixels[i]
        == next.pixels[i] by {
        lemma_position_of_point(before.width, before.height, i);
    }
    assert(stepped.pixels =~= next.pixels);
}

/// What a rendered image holds: at every point what the filter, set up on
/// the source images, writes there into a new pixel.
pub proof fn lemma_rendered_pixel<P: Copy, F: Filter<P>>(
    filter: &F,
    images: Seq<ImageView<P>>,
    blank: P,
    size: Size,
    pt: Point,
)
    requires
        size.contains(pt),
    ensures
        rendered(filter, images, blank, size).width == size.width,
        rendered(filter, images, blank, size).height == size.height,
        rendered(filter, images, blank, size).pixel(pt) == filter.value_at(
            pt,
            filter.prepared(InputView::fresh(images, blank), size),
            blank,
        ),
{
    let before = filled(size, blank);
    lemma_row_major(before.width, before.height, pt, pt);
    lemma_applied_pixel(
        filter,
        filter.prepared(InputView::fresh(images, blank), size),
        before,
        whole(size),
        pt,
    );
}

/// Whether, among the points of an image of `size`, `both` holds exactly the
/// points of `first` and of `second`, and these two share none.
pub open spec fn splits(both: Region, first: Region, second: Region, size: Size) -> bool {
    forall|pt: Point|
        size.contains(pt) ==> {
            &&& #[trigger] both.contains(pt) == (first.contains(pt) || second.contains(pt))
            &&& !(first.contains(pt) && second.contains(pt))
        }
}

/// Evaluation is independent from point to point: evaluating a filter over
/// two regions that share no point, one after the other and in either order,
/// gives the image that evaluating it over both at once gives.  So the points
/// of an output can be divided among workers that each evaluate their own.
pub proof fn lemma_disjoint_regions_compose<P: Copy, F: Filter<P>>(
    filter: &F,
    input: InputView<P>,
    before: ImageView<P>,
    both: Region,
    first: Region,
    second: Region,
)
    requires
        before.pixels.len() == before.width * before.height,
        before.width <= usize::MAX,
        before.height <= usize::MAX,
        splits(both, first, second, extent(before)),
    ensures
        applied(filter, input, applied(filter, input, before, first), second) == applied(
            filter,
            input,
            before,
            both,
        ),
        applied(filter, input, applied(filter, input, before, second), first) == applied(
            filter,
            input,
            before,
            both,
        ),
{
    let one = applied(filter, input, applied(filter, input, before, first), second);
    let other = applied(filter, input, applied(filter, input, before, second), first);
    let whole = applied(filter, input, before, both);
    assert forall|i: int| 0 <= i < before.pixels.len() implies one.pixels[i] == whole.pixels[i]
        && other.pixels[i] == whole.pixels[i] by {
        lemma_position_of_point(before.width, before.height, i);
        let pt = point_at(before.width, i);
        assert(extent(before).contains(pt));
        assert(both.contains(pt) == (first.contains(pt) || second.contains(pt)));
    }
    assert(one.pixels =~= whole.pixels);
    assert(other.pixels =~= whole.pixels);
}

/// The part of `start .. start + len` that lies below `limit`.
fn clip(start: usize, len: usize, limit: usize) -> (range: (usize, usize))
    ensures
        range.0 == least(start as int, limit as int),
        range.1 == least(start + len, limit as int),
        range.0 <= range.1 <= limit,
{
    if start >= limit {
        (limit, limit)
    } else if len >= limit - start {
        (start, limit)
    } else {
        (start, start + len)
    }
}

/// Compute `filter` against an input that is already set up, at every point
/// of `region` that `output` has, row by row, and write each result to its
/// point.  Points of `region` outside the image are skipped.
pub fn eval_region<P: Copy, F: Filter<P>>(
    filter: &F,
    input: &Input<P>,
    output: &mut Image<P>,
    region: Region,
)
    requires
        input.wf(),
        old(output).wf(),
        evaluable(filter, input@, extent(old(output)@), region),
    ensures
        final(output).wf(),
        final(output)@ == applied(filter, input@, old(output)@, region),
{
    let ghost before = output@;
    let width: usize = output.width();
    let height: usize = output.height();
    let (x0, x1) = clip(region.point.x, region.size.width, width);
    let (y0, y1) = clip(region.point.y, region.size.height, height);
    proof {
        output.lemma_wf();
        lemma_progress_ends(filter, input@, before, region);
    }
    let mut y: usize = y0;
    while y < y1
        invariant
            y0 <= y <= y1 <= height,
            x0 <= x1 <= width,
            x0 == least(region.point.x as int, width as int),
            x1 == least(region.point.x + region.size.width, width as int),
            y0 == least(region.point.y as int, height as int),
            y1 == least(region.point.y + region.size.height, height as int),
            input.wf(),
            output.wf(),
            before.width == width,
            before.height == height,
            before.pixels.len() == before.width * before.height,
            evaluable(filter, input@, extent(before), region),
            output@ == progress(filter, input@, before, region, x0 as int, y as int),
        decreases y1 - y,
    {
        let mut x: usize = x0;
        while x < x1
            invariant
                y0 <= y < y1 <= height,
                x0 <= x <= x1 <= width,
                x0 == least(region.point.x as int, width as int),
                x1 == least(region.point.x + region.size.width, width as int),
                y0 == least(region.point.y as int, height as int),
                y1 == least(region.point.y + region.size.height, height as int),
                input.wf(),
                output.wf(),
                before.width == width,
                before.height == height,
                before.pixels.len() == before.width * before.height,
                evaluable(filter, input@, extent(before), region),
                output@ == progress(filter, input@, before, region, x as int, y as int),
            decreases x1 - x,
        {
            let pt: Point = Point { x, y };
            proof {
                lemma_progress_step(filter, input@, before, region, pt);
                assert(extent(before).contains(pt));
            }
            let mut pixel: P = output.get_pixel(pt);
            filter.compute_at(pt, input, &mut pixel);
            output.set_pixel(pt, pixel);
            x += 1;
        }
        proof {
            lemma_progress_next_row(filter, input@, before, region, y as int);
        }
        y += 1;
    }
}

/// Evaluate a filter on part of an image: the filter's setup runs once on
/// the source images, then every point of `roi` that `output` has is
/// computed in row-major order.
pub fn eval_partial<P: Copy, F: Filter<P>>(
    filter: &F,
    roi: Region,
    images: &[Image<P>],
    blank: P,
    output: &mut Image<P>,
)
    requires
        images_wf(images@),
        old(output).wf(),
        filter.can_prepare(
            InputView::fresh(image_views(images@), blank),
            extent(old(output)@),
        ),
        evaluable(
            filter,
            filter.prepared(InputView::fresh(image_views(images@), blank), extent(old(output)@)),
            extent(old(output)@),
            roi,
        ),
    ensures
        final(output).wf(),
        final(output)@ == applied(
            filter,
            filter.prepared(InputView::fresh(image_views(images@), blank), extent(old(output)@)),
            old(output)@,
            roi,
        ),
{
    let mut input: Input<P> = Input::new(images, blank);
    filter.before_compute(&mut input, output.size());
    eval_region(filter, &input, output, roi);
}

/// Evaluate a filter on a whole image.
pub fn eval<P: Copy, F: Filter<P>>(filter: &F, images: &[Image<P>], blank: P, output: &mut Image<P>)
    requires
        images_wf(images@),
        old(output).wf(),
        filter.can_prepare(
            InputView::fresh(image_views(images@), blank),
            extent(old(output)@),
        ),
        evaluable(
            filter,
            filter.prepared(InputView::fresh(image_views(images@), blank), extent(old(output)@)),
            extent(old(output)@),
            whole(extent(old(output)@)),
        ),
    ensures
        final(output).wf(),
        final(output)@ == applied(
            filter,
            filter.prepared(InputView::fresh(image_views(images@), blank), extent(old(output)@)),
            old(output)@,
            whole(extent(old(output)@)),
        ),
{
    let roi: Region = Region { point: Point { x: 0, y: 0 }, size: output.size() };
    eval_partial(filter, roi, images, blank, output);
}

/// Evaluate a filter on part of an image using the same image for input and
/// output.  The filter reads the image as it was before the call, as its one
/// source image, so every pixel is computed from the old values whatever the
/// order in which the points are visited.
pub fn eval_partial_in_place<P: Copy, F: Filter<P>>(
    filter: &F,
    roi: Region,
    blank: P,
    output: &mut Image<P>,
)
    requires
        old(output).wf(),
        filter.can_prepare(InputView::fresh(seq![old(output)@], blank), extent(old(output)@)),
        evaluable(
            filter,
            filter.prepared(InputView::fresh(seq![old(output)@], blank), extent(old(output)@)),
            extent(old(output)@),
            roi,
        ),
    ensures
        final(output).wf(),
        final(output)@ == applied(
            filter,
            filter.prepared(InputView::fresh(seq![old(output)@], blank), extent(old(output)@)),
            old(output)@,
            roi,
        ),
{
    let mut images: Vec<Image<P>> = Vec::new();
    images.push(output.snapshot());
    assert(image_views(images@) =~= seq![output@]);
    eval_partial(filter, roi, images.as_slice(), blank, output);
}

/// Evaluate a filter on a whole image using the same image for input and
/// output.
pub fn eval_in_place<P: Copy, F: Filter<P>>(filter: &F, blank: P, output: &mut Image<P>)
    requires
        old(output).wf(),
        filter.can_prepare(InputView::fresh(seq![old(output)@], blank), extent(old(output)@)),
        evaluable(
            filter,
            filter.prepared(InputView::fresh(seq![old(output)@], blank), extent(old(output)@)),
            extent(old(output)@),
            whole(extent(old(output)@)),
        ),
    ensures
        final(output).wf(),
        final(output)@ == applied(
            filter,
            filter.prepared(InputView::fresh(seq![old(output)@], blank), extent(old(output)@)),
            old(output)@,
            whole(extent(old(output)@)),
        ),
{
    let roi: Region = Region { point: Point { x: 0, y: 0 }, size: output.size() };
    eval_partial_in_place(filter, roi, blank, output);
}

} // verus!
