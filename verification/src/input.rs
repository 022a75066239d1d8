//! The read-only bundle that a filter evaluates against.

use vstd::prelude::*;
use crate::eval::eval;
use crate::eval::renderable;
use crate::eval::rendered;
use crate::filter::Filter;
use crate::geometry::Point;
use crate::geometry::Size;
use crate::image::Image;
use crate::image::ImageView;

verus! {

/// What an evaluation has already produced for the filter that runs next:
/// nothing, a single pixel, or a whole intermediate image.  At most one of
/// the two is present at a time.
pub enum Cache<P> {
    /// Nothing has been produced
    Empty,
    /// The pixel that an earlier filter produced at the point being evaluated
    Pixel(P),
    /// The image that an earlier filter produced
    Image(Image<P>),
}

/// What a `Cache` is.
pub enum CacheView<P> {
    /// Nothing has been produced
    Empty,
    /// A single pixel
    Pixel(P),
    /// An intermediate image
    Image(ImageView<P>),
}

impl<P> View for Cache<P> {
    type V = CacheView<P>;

    open spec fn view(&self) -> CacheView<P> {
        match self {
            Cache::Empty => CacheView::Empty,
            Cache::Pixel(p) => CacheView::Pixel(*p),
            Cache::Image(image) => CacheView::Image(image@),
        }
    }
}

/// What an `Input` is: the source images, the cached state, and the pixel
/// that new pixels start from.
pub struct InputView<P> {
    /// The source images
    pub images: Seq<ImageView<P>>,
    /// The cached pixel or intermediate image
    pub cache: CacheView<P>,
    /// The value of a new pixel
    pub blank: P,
}

impl<P> InputView<P> {
    /// The input that holds the source images and nothing else.
    pub open spec fn fresh(images: Seq<ImageView<P>>, blank: P) -> InputView<P> {
        InputView { images, cache: CacheView::Empty, blank }
    }

    /// The input that holds no image and exposes `pixel` alone.
    pub open spec fn of_pixel(pixel: P, blank: P) -> InputView<P> {
        InputView { images: Seq::empty(), cache: CacheView::Pixel(pixel), blank }
    }

    /// This input with `pixel` as its cached state.
    pub open spec fn with_pixel(self, pixel: P) -> InputView<P> {
        InputView { cache: CacheView::Pixel(pixel), ..self }
    }

    /// This input with `image` as its cached state.
    pub open spec fn with_image(self, image: ImageView<P>) -> InputView<P> {
        InputView { cache: CacheView::Image(image), ..self }
    }

    /// The source image that an explicit or defaulted index names.
    pub open spec fn source_index(image_index: Option<usize>) -> int {
        match image_index {
            Some(index) => index as int,
            None => 0,
        }
    }

    /// Whether a lookup at `pt` finds a pixel.  Without an index the cached
    /// image is asked first, then the cached pixel; with one, or with nothing
    /// cached, the source image of that index (index 0 by default).
    pub open spec fn readable(self, pt: Point, image_index: Option<usize>) -> bool {
        match (image_index, self.cache) {
            (None, CacheView::Image(image)) => image.contains(pt),
            (None, CacheView::Pixel(_)) => true,
            _ => {
                &&& Self::source_index(image_index) < self.images.len()
                &&& self.images[Self::source_index(image_index)].contains(pt)
            },
        }
    }

    /// Whether there is an image to sample neighbouring points from: the
    /// cached image, or else a first source image.
    pub open spec fn can_sample(self) -> bool {
        self.cache is Image || self.images.len() > 0
    }

    /// The image that neighbouring points are sampled from: the cached
    /// image where there is one, the first source image where there is none.
    pub open spec fn sampled(self) -> ImageView<P>
        recommends
            self.can_sample(),
    {
        match self.cache {
            CacheView::Image(image) => image,
            _ => self.images[0],
        }
    }

    /// The pixel that a lookup at `pt` finds, in the order that `readable`
    /// describes.
    pub open spec fn lookup(self, pt: Point, image_index: Option<usize>) -> P
        recommends
            self.readable(pt, image_index),
    {
        match (image_index, self.cache) {
            (None, CacheView::Image(image)) => image.pixel(pt),
            (None, CacheView::Pixel(pixel)) => pixel,
            _ => self.images[Self::source_index(image_index)].pixel(pt),
        }
    }
}

/// Filter input: the source images of one evaluation together with what the
/// evaluation has cached.
pub struct Input<'a, P> {
    images: &'a [Image<P>],
    cache: Cache<P>,
    blank: P,
}

impl<'a, P> View for Input<'a, P> {
    type V = InputView<P>;

    closed spec fn view(&self) -> InputView<P> {
        InputView {
            images: Seq::new(self.images@.len(), |i: int| self.images@[i]@),
            cache: self.cache@,
            blank: self.blank,
        }
    }
}

/// The views of a slice of images.
pub open spec fn image_views<P>(images: Seq<Image<P>>) -> Seq<ImageView<P>> {
    Seq::new(images.len(), |i: int| images[i]@)
}

/// Whether every image of a slice is well formed.
pub open spec fn images_wf<P: Copy>(images: Seq<Image<P>>) -> bool {
    forall|i: int| 0 <= i < images.len() ==> (#[trigger] images[i]).wf()
}

impl<'a, P: Copy> Input<'a, P> {
    /// The invariant of an input: its images are well formed.
    pub closed spec fn wf(&self) -> bool {
        &&& images_wf(self.images@)
        &&& match self.cache {
            Cache::Image(image) => image.wf(),
            _ => true,
        }
    }

    /// Create a new `Input` over the source images; `blank` is the value that
    /// new pixels start from.
    pub fn new(images: &'a [Image<P>], blank: P) -> (input: Input<'a, P>)
        requires
            images_wf(images@),
        ensures
            input.wf(),
            input@ == InputView::fresh(image_views(images@), blank),
    {
        Input { images, cache: Cache::Empty, blank }
    }

    /// Add chained pixel data, in place of whatever was cached.
    pub fn with_pixel(self, pixel: P) -> (input: Input<'a, P>)
        requires
            self.wf(),
        ensures
            input.wf(),
            input@ == self@.with_pixel(pixel),
    {
        Input { images: self.images, cache: Cache::Pixel(pixel), blank: self.blank }
    }

    /// Add an intermediate image, in place of whatever was cached.
    pub fn with_image(self, image: Image<P>) -> (input: Input<'a, P>)
        requires
            self.wf(),
            image.wf(),
        ensures
            input.wf(),
            input@ == self@.with_image(image@),
    {
        Input { images: self.images, cache: Cache::Image(image), blank: self.blank }
    }

    /// Create a new pixel.
    pub fn new_pixel(&self) -> (pixel: P)
        ensures
            pixel == self@.blank,
    {
        self.blank
    }

    /// Get number of images.
    pub fn len(&self) -> (len: usize)
        ensures
            len == self@.images.len(),
    {
        self.images.len()
    }

    /// Returns true when there are no inputs.
    pub fn is_empty(&self) -> (empty: bool)
        ensures
            empty == (self@.images.len() == 0),
    {
        self.len() == 0
    }

    /// Get input images.
    pub fn images(&self) -> (images: &'a [Image<P>])
        ensures
            self.wf() ==> images_wf(images@),
            image_views(images@) == self@.images,
    {
        self.images
    }

    /// Whether a lookup at `pt` finds a pixel.
    pub fn can_read(&self, pt: Point, image_index: Option<usize>) -> (found: bool)
        requires
            self.wf(),
        ensures
            found == self@.readable(pt, image_index),
    {
        if image_index.is_none() {
            match &self.cache {
                Cache::Image(image) => {
                    return pt.x < image.width() && pt.y < image.height();
                },
                Cache::Pixel(_) => {
                    return true;
                },
                Cache::Empty => {},
            }
        }
        let index: usize = match image_index {
            Some(index) => index,
            None => 0,
        };
        if index < self.images.len() {
            let image: &Image<P> = &self.images[index];
            pt.x < image.width() && pt.y < image.height()
        } else {
            false
        }
    }

    /// Get input pixel.
    ///
    /// The `image_index` parameter forces access to a source image when
    /// cached data is also available; without it the cached image is read
    /// first, then the cached pixel, then source image 0.
    pub fn get_pixel(&self, pt: Point, image_index: Option<usize>) -> (pixel: P)
        requires
            self.wf(),
            self@.readable(pt, image_index),
        ensures
            pixel == self@.lookup(pt, image_index),
    {
        if image_index.is_none() {
            match &self.cache {
                Cache::Image(image) => {
                    return image.get_pixel(pt);
                },
                Cache::Pixel(pixel) => {
                    return *pixel;
                },
                Cache::Empty => {},
            }
        }
        let index: usize = match image_index {
            Some(index) => index,
            None => 0,
        };
        self.images[index].get_pixel(pt)
    }

    /// Whether there is an image to sample neighbouring points from.
    pub fn has_sampled(&self) -> (found: bool)
        ensures
            found == self@.can_sample(),
    {
        match &self.cache {
            Cache::Image(_) => true,
            _ => self.images.len() > 0,
        }
    }

    /// The image that neighbouring points are sampled from: the cached
    /// image where there is one, the first source image where there is none.
    pub fn sampled_image(&self) -> (image: &Image<P>)
        requires
            self.wf(),
            self@.can_sample(),
        ensures
            image.wf(),
            image@ == self@.sampled(),
    {
        match &self.cache {
            Cache::Image(image) => image,
            _ => &self.images[0],
        }
    }

    /// Render `f` from the source images into a new image of `size` and
    /// cache that image, in place of whatever was cached.
    pub fn compute_intermediate_image<F: Filter<P>>(&mut self, size: Size, f: &F)
        requires
            old(self).wf(),
            size.width * size.height <= usize::MAX,
            renderable(f, old(self)@.images, old(self)@.blank, size),
        ensures
            final(self).wf(),
            final(self)@ == old(self)@.with_image(
                rendered(f, old(self)@.images, old(self)@.blank, size),
            ),
    {
        let mut dest: Image<P> = Image::new(size, self.blank);
        eval(f, self.images, self.blank, &mut dest);
        self.cache = Cache::Image(dest);
    }
}

} // verus!
