//! A dense row-major pixel buffer, generic in the pixel value.

use vstd::prelude::*;
use crate::geometry::Point;
use crate::geometry::Size;

verus! {

/// What an image is: its extent and its pixels, row after row.
pub struct ImageView<P> {
    /// Number of columns
    pub width: nat,
    /// Number of rows
    pub height: nat,
    /// The pixels in row-major order
    pub pixels: Seq<P>,
}

impl<P> ImageView<P> {
    /// Whether `pt` is a coordinate of the image.
    pub open spec fn contains(self, pt: Point) -> bool {
        pt.x < self.width && pt.y < self.height
    }

    /// The pixel at `pt`.
    pub open spec fn pixel(self, pt: Point) -> P
        recommends
            self.contains(pt),
    {
        self.pixels[pt.y * self.width + pt.x]
    }

    /// The image with the pixel at `pt` replaced.
    pub open spec fn with_pixel(self, pt: Point, value: P) -> ImageView<P>
        recommends
            self.contains(pt),
    {
        ImageView { pixels: self.pixels.update(pt.y * self.width + pt.x, value), ..self }
    }
}

/// A row-major position is inside the buffer, and two points share one only
/// if they are the same point.
pub proof fn lemma_row_major(width: nat, height: nat, a: Point, b: Point)
    requires
        a.x < width,
        a.y < height,
    ensures
        0 <= a.y * width + a.x < width * height,
        b.x < width && b.y * width + b.x == a.y * width + a.x ==> a == b,
{
    assert(a.y * width + a.x < width * height) by (nonlinear_arith)
        requires
            a.x < width,
            a.y < height,
    ;
    if b.x < width && b.y * width + b.x == a.y * width + a.x {
        assert(a.y == b.y) by (nonlinear_arith)
            requires
                a.x < width,
                b.x < width,
                b.y * width + b.x == a.y * width + a.x,
        ;
    }
}

/// An image: `width * height` pixels in row-major order.
#[derive(Debug, Clone)]
pub struct Image<P> {
    width: usize,
    height: usize,
    data: Vec<P>,
}

impl<P> View for Image<P> {
    type V = ImageView<P>;

    closed spec fn view(&self) -> ImageView<P> {
        ImageView { width: self.width as nat, height: self.height as nat, pixels: self.data@ }
    }
}

impl<P: Copy> Image<P> {
    /// The invariant of an image: it holds exactly `width * height` pixels.
    pub closed spec fn wf(&self) -> bool {
        &&& self.data@.len() == self.width * self.height
        &&& self.data@.len() <= usize::MAX
    }

    /// A well-formed image has one pixel per coordinate, and its extent fits
    /// the machine's index type.
    pub proof fn lemma_wf(&self)
        requires
            self.wf(),
        ensures
            self@.pixels.len() == self@.width * self@.height,
            self@.width <= usize::MAX,
            self@.height <= usize::MAX,
    {
    }

    /// Create an image of the given size with every pixel set to `fill`.
    pub fn new(size: Size, fill: P) -> (image: Image<P>)
        requires
            size.width * size.height <= usize::MAX,
        ensures
            image.wf(),
            image@.width == size.width,
            image@.height == size.height,
            image@.pixels == Seq::new((size.width * size.height) as nat, |i: int| fill),
            forall|pt: Point| image@.contains(pt) ==> #[trigger] image@.pixel(pt) == fill,
    {
        let total: usize = size.width * size.height;
        let mut data: Vec<P> = Vec::new();
        let mut i: usize = 0;
        while i < total
            invariant
                i <= total,
                data@ == Seq::new(i as nat, |k: int| fill),
            decreases total - i,
        {
            data.push(fill);
            i += 1;
            assert(data@ =~= Seq::new(i as nat, |k: int| fill));
        }
        let image = Image { width: size.width, height: size.height, data };
        proof {
            assert forall|pt: Point| image@.contains(pt) implies #[trigger] image@.pixel(pt)
                == fill by {
                lemma_row_major(size.width as nat, size.height as nat, pt, pt);
            }
        }
        image
    }

    /// Create an image from its pixels in row-major order; `None` where their
    /// number is not `width * height`.
    pub fn from_pixels(width: usize, height: usize, pixels: Vec<P>) -> (image: Option<Image<P>>)
        ensures
            image.is_some() <==> pixels@.len() == width * height,
            image.is_some() ==> {
                &&& image.unwrap().wf()
                &&& image.unwrap()@ == (ImageView {
                    width: width as nat,
                    height: height as nat,
                    pixels: pixels@,
                })
            },
    {
        let count: usize = pixels.len();
        let fits: bool = match width.checked_mul(height) {
            Some(total) => total == count,
            None => false,
        };
        if fits {
            Some(Image { width, height, data: pixels })
        } else {
            None
        }
    }

    /// Number of columns.
    pub fn width(&self) -> (width: usize)
        ensures
            width == self@.width,
    {
        self.width
    }

    /// Number of rows.
    pub fn height(&self) -> (height: usize)
        ensures
            height == self@.height,
    {
        self.height
    }

    /// The extent of the image.
    pub fn size(&self) -> (size: Size)
        ensures
            size.width == self@.width,
            size.height == self@.height,
    {
        Size { width: self.width, height: self.height }
    }

    /// The pixel at `pt`.
    pub fn get_pixel(&self, pt: Point) -> (pixel: P)
        requires
            self.wf(),
            self@.contains(pt),
        ensures
            pixel == self@.pixel(pt),
    {
        proof {
            lemma_row_major(self.width as nat, self.height as nat, pt, pt);
            assert(pt.y * self.width >= 0) by (nonlinear_arith);
        }
        self.data[pt.y * self.width + pt.x]
    }

    /// Replace the pixel at `pt`.
    pub fn set_pixel(&mut self, pt: Point, value: P)
        requires
            old(self).wf(),
            old(self)@.contains(pt),
        ensures
            final(self).wf(),
            final(self)@ == old(self)@.with_pixel(pt, value),
    {
        proof {
            lemma_row_major(self.width as nat, self.height as nat, pt, pt);
            assert(pt.y * self.width >= 0) by (nonlinear_arith);
        }
        let at: usize = pt.y * self.width + pt.x;
        self.data.set(at, value);
    }

    /// A copy of the image as it stands.
    pub fn snapshot(&self) -> (copy: Image<P>)
        requires
            self.wf(),
        ensures
            copy.wf(),
            copy@ == self@,
    {
        let count: usize = self.data.len();
        let mut data: Vec<P> = Vec::new();
        let mut i: usize = 0;
        while i < count
            invariant
                i <= count,
                count == self.data@.len(),
                data@ == self.data@.subrange(0, i as int),
            decreases count - i,
        {
            data.push(self.data[i]);
            i += 1;
            assert(data@ =~= self.data@.subrange(0, i as int));
        }
        assert(data@ =~= self.data@);
        Image { width: self.width, height: self.height, data }
    }

    /// The pixels in row-major order.
    pub fn pixels(&self) -> (pixels: &Vec<P>)
        ensures
            pixels@ == self@.pixels,
    {
        &self.data
    }
}

} // verus!
