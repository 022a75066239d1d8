//! Point-wise filters: filters that read nothing but the point they write.

use vstd::prelude::*;
use crate::filter::Filter;
use crate::filter::Then;
use crate::function::Function;
use crate::geometry::Point;
use crate::geometry::Size;
use crate::input::Input;
use crate::input::InputView;

verus! {

/// The filter that writes at a point what a function makes of the pixel that
/// the input holds there.  Inverting, gamma correction, brightness, contrast
/// and saturation are filters of this kind.
pub struct PointMap<M> {
    map: M,
}

impl<M> PointMap<M> {
    /// The point-wise filter of the function `map`.
    pub fn new(map: M) -> (filter: PointMap<M>)
        ensures
            filter.map() == map,
    {
        PointMap { map }
    }

    /// The function that is applied to each pixel.
    pub closed spec fn map(&self) -> M {
        self.map
    }
}

impl<P: Copy, M: Function<P, P>> Filter<P> for PointMap<M> {
    open spec fn needs_intermediate(&self) -> bool {
        false
    }

    open spec fn accepts(&self, pt: Point, input: InputView<P>) -> bool {
        &&& input.readable(pt, None)
        &&& self.map().defined(input.lookup(pt, None))
    }

    open spec fn value_at(&self, pt: Point, input: InputView<P>, dest: P) -> P {
        self.map().result(input.lookup(pt, None))
    }

    open spec fn can_prepare(&self, input: InputView<P>, size: Size) -> bool {
        true
    }

    open spec fn prepared(&self, input: InputView<P>, size: Size) -> InputView<P> {
        input
    }

    fn requires_intermediate_image(&self) -> (needed: bool) {
        false
    }

    fn compute_at(&self, pt: Point, input: &Input<P>, dest: &mut P) {
        let pixel: P = input.get_pixel(pt, None);
        *dest = self.map.apply(pixel);
    }

    fn before_compute(&self, input: &mut Input<P>, size: Size) {
    }
}

/// Blend two images: the filter writes at a point what a function makes of
/// the pixel that the input holds there and the pixel that the second source
/// image holds there.
pub struct Blend<M> {
    mix: M,
}

impl<M> Blend<M> {
    /// The blend of two images by the function `mix`.
    pub fn new(mix: M) -> (filter: Blend<M>)
        ensures
            filter.mix() == mix,
    {
        Blend { mix }
    }

    /// The function that merges the two pixels.
    pub closed spec fn mix(&self) -> M {
        self.mix
    }
}

impl<P: Copy, M: Function<(P, P), P>> Filter<P> for Blend<M> {
    open spec fn needs_intermediate(&self) -> bool {
        false
    }

    open spec fn accepts(&self, pt: Point, input: InputView<P>) -> bool {
        &&& input.readable(pt, None)
        &&& input.readable(pt, Some(1usize))
        &&& self.mix().defined((input.lookup(pt, None), input.lookup(pt, Some(1usize))))
    }

    open spec fn value_at(&self, pt: Point, input: InputView<P>, dest: P) -> P {
        self.mix().result((input.lookup(pt, None), input.lookup(pt, Some(1usize))))
    }

    open spec fn can_prepare(&self, input: InputView<P>, size: Size) -> bool {
        true
    }

    open spec fn prepared(&self, input: InputView<P>, size: Size) -> InputView<P> {
        input
    }

    fn requires_intermediate_image(&self) -> (needed: bool) {
        false
    }

    fn compute_at(&self, pt: Point, input: &Input<P>, dest: &mut P) {
        let a: P = input.get_pixel(pt, None);
        let b: P = input.get_pixel(pt, Some(1));
        *dest = self.mix.apply((a, b));
    }

    fn before_compute(&self, input: &mut Input<P>, size: Size) {
    }
}

/// What a point map is as a filter, whatever its function: it needs no
/// intermediate image and no setup, it can be computed where the input has a
/// pixel on which the function is defined, and it writes what the function
/// makes of that pixel.
pub proof fn lemma_point_map<P: Copy, M: Function<P, P>>(
    filter: &PointMap<M>,
    pt: Point,
    input: InputView<P>,
    size: Size,
    dest: P,
)
    ensures
        !filter.needs_intermediate(),
        filter.can_prepare(input, size),
        filter.prepared(input, size) == input,
        filter.accepts(pt, input) <==> input.readable(pt, None) && filter.map().defined(
            input.lookup(pt, None),
        ),
        filter.value_at(pt, input, dest) == filter.map().result(input.lookup(pt, None)),
{
}

/// What a blend is as a filter, whatever its function: it needs no
/// intermediate image and no setup, it can be computed where the input and
/// the second source image have a pixel and the function is defined on the
/// two, and it writes what the function makes of them.
pub proof fn lemma_blend<P: Copy, M: Function<(P, P), P>>(
    filter: &Blend<M>,
    pt: Point,
    input: InputView<P>,
    size: Size,
    dest: P,
)
    ensures
        !filter.needs_intermediate(),
        filter.can_prepare(input, size),
        filter.prepared(input, size) == input,
        filter.accepts(pt, input) <==> {
            &&& input.readable(pt, None)
            &&& input.readable(pt, Some(1usize))
            &&& filter.mix().defined((input.lookup(pt, None), input.lookup(pt, Some(1usize))))
        },
        filter.value_at(pt, input, dest) == filter.mix().result(
            (input.lookup(pt, None), input.lookup(pt, Some(1usize))),
        ),
{
}

/// A point-wise filter followed by its inverse reproduces the source pixel:
/// where the second function takes what the first makes of the pixel back to
/// the pixel, the sequence of the two writes the pixel itself.  Inverting
/// twice, and linear gamma followed by log gamma, are such sequences.
pub proof fn lemma_inverse_maps_cancel<P: Copy, G: Function<P, P>, H: Function<P, P>>(
    then: &Then<PointMap<G>, PointMap<H>>,
    pt: Point,
    input: InputView<P>,
    dest: P,
)
    requires
        input.images.len() > 0,
        input.images[0].contains(pt),
        then.second().map().result(then.first().map().result(input.images[0].pixel(pt)))
            == input.images[0].pixel(pt),
    ensures
        then.value_at(pt, input, dest) == input.images[0].pixel(pt),
{
}

} // verus!
