use image2::AsyncMode;
use image2::Convolution;
use image2::EdgeStrategy;
use image2::eval;
use image2::eval_async;
use image2::Image;
use image2::Input;
use image2::Kernel;
use image2::PointMap;
use image2::Progress;
use image2::Size;
use image2::Ternary;
use image2::Then;
use image2::to_async;
use image2::Unary;

fn point_map<P: Copy, F: Fn(P) -> P>(f: F) -> PointMap<Unary<F>> {
    PointMap::new(Unary(f))
}

fn ramp(width: usize, height: usize, start: i32) -> Image<i32> {
    let pixels: Vec<i32> = (0..(width * height) as i32).map(|i| start + i).collect();
    Image::from_pixels(width, height, pixels).unwrap()
}

fn steps(mode: AsyncMode, width: usize, height: usize) -> usize {
    let images = [ramp(width, height, 0)];
    let filter = point_map(|x: i32| x + 1);
    let output = Image::new(Size::new(width, height), -1);
    let mut task = to_async(&filter, mode, Input::new(&images, 0), output);
    let mut count = 0;
    while !task.done() {
        let progress = task.poll();
        count += 1;
        // Completion is reported with the step that finishes the image, and only then.
        assert_eq!(progress == Progress::Ready, task.done());
    }
    count
}

#[test]
fn default_mode_is_row() {
    assert_eq!(AsyncMode::default(), AsyncMode::Row);
}

#[test]
fn pixel_mode_takes_one_step_per_pixel() {
    assert_eq!(steps(AsyncMode::Pixel, 4, 3), 12);
    assert_eq!(steps(AsyncMode::Pixel, 1, 1), 1);
    assert_eq!(steps(AsyncMode::Pixel, 1, 5), 5);
    assert_eq!(steps(AsyncMode::Pixel, 5, 1), 5);
    assert_eq!(steps(AsyncMode::Pixel, 7, 0), 0);
    assert_eq!(steps(AsyncMode::Pixel, 0, 0), 0);
}

#[test]
fn row_mode_takes_one_step_per_row() {
    assert_eq!(steps(AsyncMode::Row, 4, 3), 3);
    assert_eq!(steps(AsyncMode::Row, 1, 1), 1);
    assert_eq!(steps(AsyncMode::Row, 9, 2), 2);
    assert_eq!(steps(AsyncMode::Row, 0, 6), 6);
    assert_eq!(steps(AsyncMode::Row, 6, 0), 0);
}

#[test]
fn pixel_mode_without_columns_steps_once_per_row() {
    assert_eq!(steps(AsyncMode::Pixel, 0, 4), 4);
}

#[test]
fn completion_is_reported_once_by_the_last_step() {
    let images = [ramp(2, 2, 0)];
    let filter = point_map(|x: i32| x + 1);
    let output = Image::new(Size::new(2, 2), -1);
    let mut task = to_async(&filter, AsyncMode::Pixel, Input::new(&images, 0), output);
    assert!(!task.done());
    assert_eq!(task.poll(), Progress::Pending);
    assert_eq!(task.poll(), Progress::Pending);
    assert_eq!(task.poll(), Progress::Pending);
    assert!(!task.done());
    assert_eq!(task.poll(), Progress::Ready);
    assert!(task.done());
}

#[test]
fn a_task_over_no_rows_is_complete_at_once() {
    let images = [ramp(2, 2, 0)];
    let filter = point_map(|x: i32| x + 1);
    let output = Image::new(Size::new(3, 0), -1);
    let task = to_async(&filter, AsyncMode::Row, Input::new(&images, 0), output);
    assert!(task.done());
    assert!(task.eval().pixels().is_empty());
}

#[test]
fn pixel_steps_fill_the_output_in_row_major_order() {
    let images = [ramp(3, 2, 0)];
    let filter = point_map(|x: i32| x + 100);
    let output = Image::new(Size::new(3, 2), -1);
    let mut task = to_async(&filter, AsyncMode::Pixel, Input::new(&images, 0), output);
    task.poll();
    task.poll();
    task.poll();
    task.poll();
    // Abandoned after four steps: the rest is as it was.
    assert_eq!(task.into_output().pixels(), &vec![100, 101, 102, 103, -1, -1]);
}

#[test]
fn row_steps_fill_the_output_row_by_row() {
    let images = [ramp(3, 3, 0)];
    let filter = point_map(|x: i32| x + 100);
    let output = Image::new(Size::new(3, 3), -1);
    let mut task = to_async(&filter, AsyncMode::Row, Input::new(&images, 0), output);
    assert_eq!(task.poll(), Progress::Pending);
    assert_eq!(task.poll(), Progress::Pending);
    assert_eq!(task.into_output().pixels(), &vec![100, 101, 102, 103, 104, 105, -1, -1, -1]);
}

#[test]
fn a_task_evaluates_what_eval_evaluates() {
    let images = [ramp(5, 4, 3)];
    let filter = point_map(|x: i32| 2 * x - 1);
    let mut direct = Image::new(Size::new(5, 4), -1);
    eval(&filter, &images, 0, &mut direct);
    for mode in [AsyncMode::Pixel, AsyncMode::Row] {
        let output = Image::new(Size::new(5, 4), -1);
        let stepped = to_async(&filter, mode, Input::new(&images, 0), output).eval();
        assert_eq!(stepped.pixels(), direct.pixels());
        let output = Image::new(Size::new(5, 4), -1);
        let whole = eval_async(&filter, mode, Input::new(&images, 0), output);
        assert_eq!(whole.pixels(), direct.pixels());
    }
}

#[test]
fn a_task_uses_the_input_it_is_given() {
    let images = [ramp(2, 2, 0)];
    let filter = point_map(|x: i32| x + 1);
    let input = Input::new(&images, 0).with_image(ramp(2, 2, 50));
    let output = Image::new(Size::new(2, 2), -1);
    let result = eval_async(&filter, AsyncMode::default(), input, output);
    assert_eq!(result.pixels(), &vec![51, 52, 53, 54]);
}

#[test]
fn the_output_can_be_read_between_steps() {
    let images = [ramp(2, 2, 0)];
    let filter = point_map(|x: i32| x + 10);
    let output = Image::new(Size::new(2, 2), -1);
    let mut task = to_async(&filter, AsyncMode::Row, Input::new(&images, 0), output);
    assert_eq!(task.image().pixels(), &vec![-1, -1, -1, -1]);
    task.poll();
    assert_eq!(task.image().pixels(), &vec![10, 11, -1, -1]);
    task.poll();
    assert_eq!(task.image().pixels(), &vec![10, 11, 12, 13]);
}

fn weighted(acc: i32, sample: i32, weight: i32) -> i32 {
    acc + sample * weight
}

fn box_sum() -> Convolution<i32, i32, Ternary<fn(i32, i32, i32) -> i32>> {
    let mut kernel = Kernel::square(3, 1i32);
    kernel.set_edge_strategy(EdgeStrategy::Extend);
    Convolution::new(kernel, 0, Ternary(weighted as fn(i32, i32, i32) -> i32))
}

#[test]
fn a_task_runs_the_setup_once_before_its_first_step() {
    let images = [ramp(3, 3, 0)];
    let calls = std::cell::Cell::new(0);
    let double = point_map(|x: i32| {
        calls.set(calls.get() + 1);
        2 * x
    });
    let then = Then::new(double, box_sum());
    let output = Image::new(Size::new(3, 3), -1);
    let mut task = to_async(&then, AsyncMode::Pixel, Input::new(&images, 0), output);
    // The intermediate image is rendered when the task is made: nine pixels, once.
    assert_eq!(calls.get(), 9);
    while !task.done() {
        task.poll();
    }
    assert_eq!(calls.get(), 9);
    assert_eq!(task.into_output().get_pixel(image2::Point::new(1, 1)), 72);
}

#[test]
fn a_task_gives_what_eval_gives_for_a_filter_with_setup() {
    let images = [ramp(4, 3, 1)];
    let mut direct = Image::new(Size::new(4, 3), -1);
    eval(&Then::new(point_map(|x: i32| x * x), box_sum()), &images, 0, &mut direct);
    for mode in [AsyncMode::Pixel, AsyncMode::Row] {
        let then = Then::new(point_map(|x: i32| x * x), box_sum());
        let output = Image::new(Size::new(4, 3), -1);
        let stepped = eval_async(&then, mode, Input::new(&images, 0), output);
        assert_eq!(stepped.pixels(), direct.pixels());
    }
}
