use image2::Binary;
use image2::Blend;
use image2::compute_at_with_filter;
use image2::Convolution;
use image2::Crop;
use image2::EdgeStrategy;
use image2::eval;
use image2::Filter;
use image2::Function;
use image2::Image;
use image2::Input;
use image2::Join;
use image2::Kernel;
use image2::Point;
use image2::PointMap;
use image2::Region;
use image2::Size;
use image2::Ternary;
use image2::Then;
use image2::Unary;

fn point_map<P: Copy, F: Fn(P) -> P>(f: F) -> PointMap<Unary<F>> {
    PointMap::new(Unary(f))
}

fn convolve<P: Copy, W: Copy, F: Fn(P, P, W) -> P>(
    kernel: Kernel<W>,
    border: P,
    accumulate: F,
) -> Convolution<P, W, Ternary<F>> {
    Convolution::new(kernel, border, Ternary(accumulate))
}

fn ramp(width: usize, height: usize, start: f64) -> Image<f64> {
    let pixels: Vec<f64> = (0..width * height).map(|i| start + i as f64).collect();
    Image::from_pixels(width, height, pixels).unwrap()
}

fn close(a: f64, b: f64) -> bool {
    (a - b).abs() < 1e-12
}

fn box_blur(edge_strategy: EdgeStrategy) -> Kernel<f64> {
    let mut kernel = Kernel::create(3, 3, |_: usize, _: usize| 1.0 / 9.0);
    kernel.set_edge_strategy(edge_strategy);
    kernel
}

fn weighted_sum(acc: f64, sample: f64, weight: f64) -> f64 {
    acc + sample * weight
}

#[test]
fn point_map_applies_the_function_to_the_input_pixel() {
    let images = [ramp(2, 2, 1.0)];
    let input = Input::new(&images, 0.0);
    let negate = point_map(|x: f64| -x);
    assert!(!Filter::<f64>::requires_intermediate_image(&negate));
    let mut dest = 99.0;
    negate.compute_at(Point::new(1, 1), &input, &mut dest);
    assert_eq!(dest, -4.0);
}

#[test]
fn point_map_reads_the_cached_pixel_first() {
    let images = [ramp(2, 2, 1.0)];
    let input = Input::new(&images, 0.0).with_pixel(10.0);
    let negate = point_map(|x: f64| -x);
    let mut dest = 0.0;
    negate.compute_at(Point::new(1, 1), &input, &mut dest);
    assert_eq!(dest, -10.0);
}

#[test]
fn blend_merges_the_first_two_images() {
    let images = [ramp(2, 2, 0.0), ramp(2, 2, 10.0)];
    let input = Input::new(&images, 0.0);
    let average = Blend::new(Binary(|a: f64, b: f64| (a + b) / 2.0));
    let mut dest = 0.0;
    average.compute_at(Point::new(1, 0), &input, &mut dest);
    assert_eq!(dest, 6.0);
    let mut output = Image::new(Size::new(2, 2), 0.0);
    eval(&average, &images, 0.0, &mut output);
    assert_eq!(output.pixels(), &vec![5.0, 6.0, 7.0, 8.0]);
}

#[test]
fn crop_copies_from_the_offset_point() {
    let images = [ramp(4, 4, 0.0)];
    let input = Input::new(&images, 0.0);
    let crop = Crop(Region::new(Point::new(1, 2), Size::new(3, 2)));
    let mut dest = -1.0;
    crop.compute_at(Point::new(0, 0), &input, &mut dest);
    assert_eq!(dest, 9.0);
    crop.compute_at(Point::new(2, 1), &input, &mut dest);
    assert_eq!(dest, 15.0);
}

#[test]
fn crop_leaves_the_destination_outside_the_window() {
    let images = [ramp(8, 8, 0.0)];
    let input = Input::new(&images, 0.0);
    let crop = Crop(Region::new(Point::new(1, 1), Size::new(2, 2)));
    // The last point of the window.
    let mut dest = -1.0;
    crop.compute_at(Point::new(1, 1), &input, &mut dest);
    assert_eq!(dest, 18.0);
    // One step beyond the window in either direction, though the source is in the image.
    for outside in [Point::new(2, 0), Point::new(0, 2), Point::new(2, 2), Point::new(3, 3)] {
        let mut dest = -1.0;
        crop.compute_at(outside, &input, &mut dest);
        assert_eq!(dest, -1.0);
    }
}

#[test]
fn crop_window_of_one_pixel() {
    let images = [ramp(2, 1, 5.0)];
    let crop = Crop(Region::new(Point::new(0, 0), Size::new(1, 1)));
    let mut output = Image::new(Size::new(2, 1), -1.0);
    eval(&crop, &images, 0.0, &mut output);
    assert_eq!(output.pixels(), &vec![5.0, -1.0]);
}

#[test]
fn crop_with_an_empty_window_changes_nothing() {
    let images = [ramp(2, 2, 5.0)];
    let crop = Crop(Region::new(Point::new(0, 0), Size::new(0, 2)));
    let mut output = Image::new(Size::new(2, 2), -1.0);
    eval(&crop, &images, 0.0, &mut output);
    assert_eq!(output.pixels(), &vec![-1.0; 4]);
}

#[test]
fn crop_skips_sources_outside_the_image() {
    let images = [ramp(2, 2, 0.0)];
    let input = Input::new(&images, 0.0);
    let crop = Crop(Region::new(Point::new(1, 1), Size::new(5, 5)));
    let mut dest = -1.0;
    crop.compute_at(Point::new(0, 0), &input, &mut dest);
    assert_eq!(dest, 3.0);
    let mut dest = -1.0;
    crop.compute_at(Point::new(1, 0), &input, &mut dest);
    assert_eq!(dest, -1.0);
    let far = Crop(Region::new(Point::new(usize::MAX, usize::MAX), Size::new(4, 4)));
    far.compute_at(Point::new(0, 0), &input, &mut dest);
    assert_eq!(dest, -1.0);
    far.compute_at(Point::new(1, 1), &input, &mut dest);
    assert_eq!(dest, -1.0);
}

#[test]
fn crop_over_an_image() {
    let images = [ramp(4, 4, 0.0)];
    let crop = Crop(Region::new(Point::new(2, 2), Size::new(2, 2)));
    let mut output = Image::new(Size::new(2, 2), -1.0);
    eval(&crop, &images, 0.0, &mut output);
    assert_eq!(output.pixels(), &vec![10.0, 11.0, 14.0, 15.0]);
}

#[test]
fn then_fuses_point_wise_filters() {
    let images = [ramp(3, 2, 1.0)];
    let input = Input::new(&images, 0.0);
    let add_one = point_map(|x: f64| x + 1.0);
    let double = point_map(|x: f64| 2.0 * x);
    let then = Then::new(add_one, double);
    assert!(!Filter::<f64>::requires_intermediate_image(&then));
    for y in 0..2 {
        for x in 0..3 {
            let pt = Point::new(x, y);
            let mut fused = -1.0;
            then.compute_at(pt, &input, &mut fused);

            // By hand: the first filter's pixel is the sole input pixel of the second.
            let mut first = input.new_pixel();
            point_map(|x: f64| x + 1.0).compute_at(pt, &input, &mut first);
            let handed = Input::new(&images, 0.0).with_pixel(first);
            let mut second = -1.0;
            point_map(|x: f64| 2.0 * x).compute_at(pt, &handed, &mut second);

            assert_eq!(fused, second);
            assert_eq!(fused, 2.0 * (images[0].get_pixel(pt) + 1.0));
        }
    }
}

#[test]
fn then_is_applied_in_order() {
    let images = [ramp(2, 1, 3.0)];
    let mut output = Image::new(Size::new(2, 1), 0.0);
    let then = Then::new(point_map(|x: f64| x + 1.0), point_map(|x: f64| 2.0 * x));
    eval(&then, &images, 0.0, &mut output);
    assert_eq!(output.pixels(), &vec![8.0, 10.0]);
    let other = Then::new(point_map(|x: f64| 2.0 * x), point_map(|x: f64| x + 1.0));
    eval(&other, &images, 0.0, &mut output);
    assert_eq!(output.pixels(), &vec![7.0, 9.0]);
}

#[test]
fn fused_then_does_not_set_up_an_intermediate_image() {
    let images = [ramp(2, 2, 0.0)];
    let then = Then::new(point_map(|x: f64| x + 1.0), point_map(|x: f64| 2.0 * x));
    let mut input = Input::new(&images, 0.0);
    then.before_compute(&mut input, Size::new(2, 2));
    // Still the source image: nothing was cached.
    assert_eq!(input.sampled_image().pixels(), &vec![0.0, 1.0, 2.0, 3.0]);
}

#[test]
fn compute_at_with_filter_hands_the_pixel_on() {
    let images = [ramp(2, 2, 1.0)];
    let input = Input::new(&images, 0.0);
    let first = point_map(|x: f64| x * 10.0);
    let second = point_map(|x: f64| x + 0.5);
    let mut dest = 0.0;
    compute_at_with_filter(&second, Point::new(0, 1), &input, &mut dest, &first);
    assert_eq!(dest, 30.5);
}

#[test]
fn then_materializes_for_a_convolution() {
    let images = [ramp(3, 3, 0.0)];
    let double = point_map(|x: f64| 2.0 * x);
    let blur = convolve(box_blur(EdgeStrategy::Extend), 0.0, weighted_sum);
    assert!(blur.requires_intermediate_image());
    let then = Then::new(double, blur);

    let mut input = Input::new(&images, 0.0);
    then.before_compute(&mut input, Size::new(3, 3));
    let doubled: Vec<f64> = (0..9).map(|i| 2.0 * i as f64).collect();
    assert_eq!(input.sampled_image().pixels(), &doubled);

    let mut output = Image::new(Size::new(3, 3), 0.0);
    eval(&then, &images, 0.0, &mut output);
    // The centre sees all nine doubled pixels: 2 * (0 + ... + 8) / 9 = 8.
    assert!(close(output.get_pixel(Point::new(1, 1)), 8.0));
    // The corner sees (0, 0) four times, (1, 0) and (0, 1) twice, (1, 1) once, doubled.
    let corner = 2.0 * (4.0 * 0.0 + 2.0 * 1.0 + 2.0 * 3.0 + 4.0) / 9.0;
    assert!(close(output.get_pixel(Point::new(0, 0)), corner));
}

#[test]
fn join_merges_both_results_with_the_point() {
    let images = [ramp(3, 2, 1.0)];
    let input = Input::new(&images, 0.0);
    let join = Join::new(
        point_map(|x: f64| x + 100.0),
        point_map(|x: f64| x * 2.0),
        Ternary(|pt: Point, a: f64, b: f64| {
            a - b + (pt.x as f64) * 1000.0 + (pt.y as f64) * 10000.0
        }),
    );
    for y in 0..2 {
        for x in 0..3 {
            let pt = Point::new(x, y);
            let pixel = images[0].get_pixel(pt);
            let mut dest = -1.0;
            join.compute_at(pt, &input, &mut dest);
            let expected =
                (pixel + 100.0) - (pixel * 2.0) + (x as f64) * 1000.0 + (y as f64) * 10000.0;
            assert_eq!(dest, expected);
        }
    }
}

#[test]
fn join_starts_each_operand_from_the_input_pixel() {
    let images = [ramp(2, 2, 5.0)];
    let input = Input::new(&images, 0.0);
    // A crop whose source lies outside the image leaves its destination as it was.
    let outside = Crop(Region::new(Point::new(10, 10), Size::new(20, 20)));
    let join = Join::new(
        outside,
        point_map(|x: f64| -x),
        Ternary(|_: Point, a: f64, b: f64| a + b),
    );
    let mut dest = -1.0;
    join.compute_at(Point::new(1, 1), &input, &mut dest);
    assert_eq!(dest, 8.0 + -8.0);
    let only_first = Join::new(
        Crop(Region::new(Point::new(10, 10), Size::new(20, 20))),
        point_map(|x: f64| -x),
        Ternary(|_: Point, a: f64, _: f64| a),
    );
    only_first.compute_at(Point::new(1, 1), &input, &mut dest);
    assert_eq!(dest, 8.0);
}

#[test]
fn inverting_twice_reproduces_the_image() {
    let pixels = vec![0.0, 0.25, 0.5, 0.75, 1.0, 0.1];
    let images = [Image::from_pixels(3, 2, pixels.clone()).unwrap()];
    let twice = Then::new(point_map(|x: f64| 1.0 - x), point_map(|x: f64| 1.0 - x));
    let mut output = Image::new(Size::new(3, 2), 0.0);
    eval(&twice, &images, 0.0, &mut output);
    for (got, want) in output.pixels().iter().zip(pixels.iter()) {
        assert!(close(*got, *want));
    }
}

#[test]
fn inverting_reproduces_each_channel() {
    let pixels = vec![[0.0, 0.5, 1.0], [0.2, 0.4, 0.6]];
    let images = [Image::from_pixels(2, 1, pixels.clone()).unwrap()];
    let invert = |px: [f64; 3]| [1.0 - px[0], 1.0 - px[1], 1.0 - px[2]];
    let mut once = Image::new(Size::new(2, 1), [0.0; 3]);
    eval(&point_map(invert), &images, [0.0; 3], &mut once);
    assert_eq!(once.get_pixel(Point::new(0, 0)), [1.0, 0.5, 0.0]);
    let twice = Then::new(point_map(invert), point_map(invert));
    let mut output = Image::new(Size::new(2, 1), [0.0; 3]);
    eval(&twice, &images, [0.0; 3], &mut output);
    for (got, want) in output.pixels().iter().zip(pixels.iter()) {
        for channel in 0..3 {
            assert!(close(got[channel], want[channel]));
        }
    }
}

#[test]
fn linear_gamma_then_log_gamma_is_the_identity() {
    let images = [Image::from_pixels(1, 1, vec![0.3]).unwrap()];
    let gamma = 2.2f64;
    let lin = point_map(move |x: f64| x.powf(gamma));
    let log = point_map(move |x: f64| x.powf(1.0 / gamma));
    let mut output = Image::new(Size::new(1, 1), 0.0);
    eval(&Then::new(lin, log), &images, 0.0, &mut output);
    assert!((output.get_pixel(Point::new(0, 0)) - 0.3).abs() < 1e-9);
}

#[test]
fn linear_gamma_value() {
    let images = [Image::from_pixels(1, 1, vec![0.5]).unwrap()];
    let mut output = Image::new(Size::new(1, 1), 0.0);
    eval(&point_map(|x: f64| x.powf(2.0)), &images, 0.0, &mut output);
    assert_eq!(output.get_pixel(Point::new(0, 0)), 0.25);
}

#[test]
fn contrast_and_brightness_values() {
    let images = [Image::from_pixels(2, 1, vec![0.25, 0.75]).unwrap()];
    let mut output = Image::new(Size::new(2, 1), 0.0);
    eval(&point_map(|x: f64| (2.0 * (x - 0.5)) + 0.5), &images, 0.0, &mut output);
    assert_eq!(output.pixels(), &vec![0.0, 1.0]);
    eval(&point_map(|x: f64| x * 2.0), &images, 0.0, &mut output);
    assert_eq!(output.pixels(), &vec![0.5, 1.5]);
}

#[test]
fn convolution_of_a_uniform_image_is_uniform() {
    let value = 0.37;
    let images = [Image::new(Size::new(3, 3), value)];
    let blur = convolve(box_blur(EdgeStrategy::Extend), 0.0, weighted_sum);
    let mut output = Image::new(Size::new(3, 3), 0.0);
    eval(&blur, &images, 0.0, &mut output);
    for pixel in output.pixels() {
        assert!(close(*pixel, value));
    }
}

#[test]
fn convolution_of_a_uniform_image_under_wrap_and_mirror() {
    let value = 0.6;
    let images = [Image::new(Size::new(3, 3), value)];
    for strategy in [EdgeStrategy::Wrap, EdgeStrategy::Mirror] {
        let blur = convolve(box_blur(strategy), 0.0, weighted_sum);
        let mut output = Image::new(Size::new(3, 3), 0.0);
        eval(&blur, &images, 0.0, &mut output);
        for pixel in output.pixels() {
            assert!(close(*pixel, value));
        }
    }
}

#[test]
fn convolution_reads_the_border_value_under_constant() {
    let images = [Image::new(Size::new(3, 3), 1i32)];
    let count = Kernel::square(3, 1i32);
    let sum = convolve(count, 100, |acc: i32, sample: i32, weight: i32| {
        acc + sample * weight
    });
    let mut output = Image::new(Size::new(3, 3), 0);
    eval(&sum, &images, 0, &mut output);
    // Corner: 4 cells inside, 5 on the border.  Edge: 6 and 3.  Centre: 9 and 0.
    assert_eq!(output.pixels(), &vec![504, 306, 504, 306, 9, 306, 504, 306, 504]);
}

#[test]
fn convolution_visits_the_cells_row_by_row() {
    let images = [Image::from_pixels(3, 3, (0..9).collect::<Vec<i32>>()).unwrap()];
    let mut kernel = Kernel::create(3, 3, |column: usize, row: usize| (3 * row + column) as i32);
    kernel.set_edge_strategy(EdgeStrategy::Extend);
    // Each step shifts what was gathered by a digit, so the result spells the order.
    let trace = convolve(kernel, 0i64, |acc: i64, sample: i64, weight: i32| {
        acc * 10 + (sample - weight as i64)
    });
    let images64 = [Image::from_pixels(
        3,
        3,
        images[0].pixels().iter().map(|p| *p as i64).collect::<Vec<i64>>(),
    )
    .unwrap()];
    let mut dest = -1i64;
    let input = Input::new(&images64, 0i64);
    trace.compute_at(Point::new(1, 1), &input, &mut dest);
    // At the centre every cell (r, c) reads pixel 3r + c, which is its own weight.
    assert_eq!(dest, 0);
    let sobel = convolve(Kernel::sobel_x(), 0i64, |acc: i64, sample: i64, weight: i32| {
        acc + sample * weight as i64
    });
    sobel.compute_at(Point::new(1, 1), &input, &mut dest);
    // Rows (0 1 2), (3 4 5), (6 7 8) against (1 0 -1), (2 0 -2), (1 0 -1).
    assert_eq!(dest, (0 - 2) + 2 * (3 - 5) + (6 - 8));
}

#[test]
fn convolution_starts_from_a_new_pixel() {
    let images = [Image::new(Size::new(2, 2), 1i32)];
    let mut kernel = Kernel::square(1, 3i32);
    kernel.set_edge_strategy(EdgeStrategy::Extend);
    let scale = convolve(kernel, 0, |acc: i32, sample: i32, weight: i32| {
        acc + sample * weight
    });
    let input = Input::new(&images, 1000);
    let mut dest = 7;
    scale.compute_at(Point::new(0, 0), &input, &mut dest);
    assert_eq!(dest, 1003);
}

#[test]
fn laplacian_of_a_uniform_image_is_zero() {
    let images = [Image::new(Size::new(4, 4), 9i32)];
    let mut kernel = Kernel::laplacian();
    kernel.set_edge_strategy(EdgeStrategy::Extend);
    let filter = convolve(kernel, 0, |acc: i32, sample: i32, weight: i32| {
        acc + sample * weight
    });
    let mut output = Image::new(Size::new(4, 4), -1);
    eval(&filter, &images, 0, &mut output);
    assert_eq!(output.pixels(), &vec![0; 16]);
}

struct Scale(f64);

impl Function<f64, f64> for Scale {
    fn defined(&self, args: f64) -> bool {
        args.is_finite()
    }

    fn result(&self, args: f64) -> f64 {
        self.0 * args
    }

    fn apply(&self, args: f64) -> f64 {
        self.0 * args
    }
}

#[test]
fn a_function_of_the_callers_own_type() {
    let images = [ramp(2, 1, 1.0)];
    let mut output = Image::new(Size::new(2, 1), 0.0);
    eval(&PointMap::new(Scale(3.0)), &images, 0.0, &mut output);
    assert_eq!(output.pixels(), &vec![3.0, 6.0]);
}

#[test]
fn adaptors_apply_the_function_they_hold() {
    assert_eq!(Unary(|x: i32| x + 1).apply(4), 5);
    assert_eq!(Binary(|x: i32, y: i32| x - y).apply((4, 1)), 3);
    assert_eq!(Ternary(|x: i32, y: i32, z: i32| x * y + z).apply((4, 5, 6)), 26);
}

#[test]
fn convolution_ignores_a_cached_pixel() {
    let images = [Image::new(Size::new(2, 2), 1i32)];
    let mut kernel = Kernel::square(3, 1i32);
    kernel.set_edge_strategy(EdgeStrategy::Wrap);
    let sum = convolve(kernel, 0, |acc: i32, sample: i32, weight: i32| acc + sample * weight);
    let input = Input::new(&images, 0).with_pixel(1000);
    let mut dest = -1;
    sum.compute_at(Point::new(0, 0), &input, &mut dest);
    assert_eq!(dest, 9);
    assert_eq!(sum.weights().rows(), 3);
}

#[test]
fn convolution_reads_the_intermediate_image_where_there_is_one() {
    let images = [Image::new(Size::new(2, 2), 1i32)];
    let mut kernel = Kernel::square(1, 1i32);
    kernel.set_edge_strategy(EdgeStrategy::Extend);
    let copy = convolve(kernel, 0, |acc: i32, sample: i32, weight: i32| acc + sample * weight);
    let input = Input::new(&images, 0).with_image(Image::new(Size::new(2, 2), 50));
    let mut dest = -1;
    copy.compute_at(Point::new(1, 1), &input, &mut dest);
    assert_eq!(dest, 50);
}

#[test]
fn then_and_join_hand_out_their_parts() {
    let then = Then::new(point_map(|x: f64| x + 1.0), point_map(|x: f64| 2.0 * x));
    let (first, second) = then.parts();
    let images = [ramp(1, 1, 3.0)];
    let input = Input::new(&images, 0.0);
    let mut dest = 0.0;
    first.compute_at(Point::new(0, 0), &input, &mut dest);
    assert_eq!(dest, 4.0);
    second.compute_at(Point::new(0, 0), &input, &mut dest);
    assert_eq!(dest, 6.0);
    let join = Join::new(
        point_map(|x: f64| x + 1.0),
        point_map(|x: f64| 2.0 * x),
        Ternary(|_: Point, a: f64, b: f64| a * b),
    );
    let (left, right) = join.operands();
    left.compute_at(Point::new(0, 0), &input, &mut dest);
    assert_eq!(dest, 4.0);
    right.compute_at(Point::new(0, 0), &input, &mut dest);
    assert_eq!(dest, 6.0);
}
