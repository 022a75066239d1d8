//! Cooperative evaluation: a filter evaluation cut into units of work that a
//! scheduler runs one at a time.

use vstd::prelude::*;
use vstd::arithmetic::div_mod::lemma_fundamental_div_mod;
use vstd::arithmetic::div_mod::lemma_fundamental_div_mod_converse;
use crate::eval::applied;
use crate::eval::evaluable;
use crate::eval::extent;
use crate::eval::lemma_progress_ends;
use crate::eval::lemma_progress_next_row;
use crate::eval::lemma_position_of_point;
use crate::eval::lemma_progress_step;
use crate::eval::progress;
use crate::eval::whole;
use crate::filter::Filter;
use crate::geometry::Point;
use crate::image::Image;
use crate::image::ImageView;
use crate::input::Input;
use crate::input::InputView;

verus! {

/// `AsyncMode` is used to schedule the type of iteration for an `AsyncFilter`.
#[derive(Debug, Clone, Copy, PartialEq, Eq, Structural)]
pub enum AsyncMode {
    /// Apply to one pixel at a time
    Pixel,
    /// Apply to a row at a time
    Row,
}

impl Default for AsyncMode {
    fn default() -> (mode: AsyncMode)
        ensures
            mode == AsyncMode::Row,
    {
        AsyncMode::Row
    }
}

/// What a scheduling step reports.
#[derive(Debug, Clone, Copy, PartialEq, Eq, Structural)]
pub enum Progress {
    /// Work remains: schedule the task again
    Pending,
    /// The last unit of work is done
    Ready,
}

/// Where a task stands: the next point to compute.
#[derive(Debug, Clone, Copy, PartialEq, Eq, Structural)]
pub struct Cursor {
    /// Column
    pub x: usize,
    /// Row
    pub y: usize,
}

/// The cursor after one scheduling step over an image `width` pixels wide.
/// A row step moves to the start of the next row.  A pixel step moves one
/// column on, and to the start of the next row where that reaches `width`.
pub open spec fn advance(mode: AsyncMode, width: nat, cursor: Cursor) -> Cursor {
    match mode {
        AsyncMode::Row => Cursor { x: 0, y: (cursor.y + 1) as usize },
        AsyncMode::Pixel => if cursor.x + 1 >= width {
            Cursor { x: 0, y: (cursor.y + 1) as usize }
        } else {
            Cursor { x: (cursor.x + 1) as usize, y: cursor.y }
        },
    }
}

/// The cursor after `steps` scheduling steps.
pub open spec fn advance_by(mode: AsyncMode, width: nat, cursor: Cursor, steps: nat) -> Cursor
    decreases steps,
{
    if steps == 0 {
        cursor
    } else {
        advance_by(mode, width, advance(mode, width, cursor), (steps - 1) as nat)
    }
}

/// The number of scheduling steps that evaluate a whole image: one per row,
/// or one per pixel.
pub open spec fn total_steps(mode: AsyncMode, width: nat, height: nat) -> nat {
    match mode {
        AsyncMode::Row => height,
        AsyncMode::Pixel => width * height,
    }
}

/// The number of scheduling steps between `cursor` and the end of an image.
pub open spec fn steps_left(mode: AsyncMode, width: nat, height: nat, cursor: Cursor) -> int {
    match mode {
        AsyncMode::Row => height - cursor.y,
        AsyncMode::Pixel => if width == 0 {
            height - cursor.y
        } else {
            (height - cursor.y) * width - cursor.x
        },
    }
}

/// The cursor that `steps` scheduling steps reach from the first point, in
/// closed form.
pub open spec fn cursor_after(mode: AsyncMode, width: nat, steps: nat) -> Cursor {
    match mode {
        AsyncMode::Row => Cursor { x: 0, y: steps as usize },
        AsyncMode::Pixel => if width == 0 {
            Cursor { x: 0, y: steps as usize }
        } else {
            Cursor { x: (steps % width) as usize, y: (steps / width) as usize }
        },
    }
}

/// Scheduling steps add up: `more` steps from where `steps` steps lead are
/// `steps + more` steps from the first point.
pub proof fn lemma_advance_by(mode: AsyncMode, width: nat, steps: nat, more: nat)
    requires
        steps + more <= usize::MAX,
        width <= usize::MAX,
    ensures
        advance_by(mode, width, cursor_after(mode, width, steps), more) == cursor_after(
            mode,
            width,
            steps + more,
        ),
    decreases more,
{
    if more > 0 {
        let here = cursor_after(mode, width, steps);
        if mode == AsyncMode::Pixel && width > 0 {
            let w: int = width as int;
            lemma_fundamental_div_mod(steps as int, w);
            let q: int = steps as int / w;
            let r: int = steps as int % w;
            assert(0 <= q <= steps) by (nonlinear_arith)
                requires
                    steps == w * q + r,
                    0 <= r < w,
            ;
            if r + 1 >= w {
                assert(steps + 1 == (q + 1) * w + 0) by (nonlinear_arith)
                    requires
                        steps == w * q + r,
                        r + 1 == w,
                ;
                lemma_fundamental_div_mod_converse((steps + 1) as int, w, q + 1, 0);
            } else {
                assert(steps + 1 == q * w + (r + 1)) by (nonlinear_arith)
                    requires
                        steps == w * q + r,
                ;
                lemma_fundamental_div_mod_converse((steps + 1) as int, w, q, r + 1);
            }
        }
        assert(advance(mode, width, here) == cursor_after(mode, width, steps + 1));
        lemma_advance_by(mode, width, steps + 1, (more - 1) as nat);
    }
}

/// The number of scheduling steps of a task: the cursor passes the last row
/// after exactly one step per row in `Row` mode and one step per pixel in
/// `Pixel` mode, and after no fewer.  (A pixel task over an image that has
/// rows but no columns steps once per row.)
pub proof fn lemma_step_count(mode: AsyncMode, width: nat, height: nat)
    requires
        width * height <= usize::MAX,
        width <= usize::MAX,
        height <= usize::MAX,
        !(mode == AsyncMode::Pixel && width == 0 && height > 0),
    ensures
        advance_by(mode, width, Cursor { x: 0, y: 0 }, total_steps(mode, width, height)).y
            == height,
        forall|steps: nat|
            steps < total_steps(mode, width, height) ==> (#[trigger] advance_by(
                mode,
                width,
                Cursor { x: 0, y: 0 },
                steps,
            )).y < height,
{
    let total: nat = total_steps(mode, width, height);
    let first = Cursor { x: 0, y: 0 };
    assert(cursor_after(mode, width, 0) == first);
    lemma_advance_by(mode, width, 0, total);
    if mode == AsyncMode::Pixel && width > 0 {
        assert(width * height == height * width + 0) by (nonlinear_arith);
        lemma_fundamental_div_mod_converse((width * height) as int, width as int, height as int, 0);
    }
    assert forall|steps: nat| steps < total implies (#[trigger] advance_by(
        mode,
        width,
        first,
        steps,
    )).y < height by {
        lemma_advance_by(mode, width, 0, steps);
        if mode == AsyncMode::Pixel {
            lemma_position_of_point(width, height, steps as int);
        }
    }
}

/// A `Filter` whose evaluation over an image can be scheduled step by step.
pub struct AsyncFilter<'a, F, P> {
    filter: &'a F,
    output: Image<P>,
    input: Input<'a, P>,
    x: usize,
    y: usize,
    mode: AsyncMode,
    start: Ghost<ImageView<P>>,
}

impl<'a, P: Copy, F: Filter<P>> AsyncFilter<'a, F, P> {
    /// The filter being evaluated.
    pub closed spec fn filter(&self) -> &F {
        self.filter
    }

    /// The input that the filter is evaluated against.
    pub closed spec fn input(&self) -> InputView<P> {
        self.input@
    }

    /// The output image as it stands.
    pub closed spec fn output(&self) -> ImageView<P> {
        self.output@
    }

    /// The output image as it was when the task was created.
    pub closed spec fn start(&self) -> ImageView<P> {
        self.start@
    }

    /// The granularity of a scheduling step.
    pub closed spec fn mode(&self) -> AsyncMode {
        self.mode
    }

    /// The next point to compute.
    pub closed spec fn cursor(&self) -> Cursor {
        Cursor { x: self.x, y: self.y }
    }

    /// Whether the cursor has passed the last row.
    pub open spec fn is_done(&self) -> bool {
        self.cursor().y >= self.start().height
    }

    /// The invariant of a task: the cursor is in the image or just past its
    /// last row, and the output holds what the filter writes at every point
    /// before the cursor and what it held at the start everywhere else.
    pub closed spec fn wf(&self) -> bool {
        &&& self.input.wf()
        &&& self.output.wf()
        &&& self.start@.pixels.len() == self.start@.width * self.start@.height
        &&& self.y <= self.start@.height
        &&& self.x == 0 || self.x < self.start@.width
        &&& self.mode == AsyncMode::Row ==> self.x == 0
        &&& self.y == self.start@.height ==> self.x == 0
        &&& evaluable(self.filter, self.input@, extent(self.start@), whole(extent(self.start@)))
        &&& self.output@ == progress(
            self.filter,
            self.input@,
            self.start@,
            whole(extent(self.start@)),
            self.x as int,
            self.y as int,
        )
    }

    /// What the invariant says of the output and the cursor.
    pub proof fn lemma_wf(&self)
        requires
            self.wf(),
        ensures
            self.cursor().y <= self.start().height,
            self.cursor().x == 0 || self.cursor().x < self.start().width,
            self.mode() == AsyncMode::Row ==> self.cursor().x == 0,
            self.output() == progress(
                self.filter(),
                self.input(),
                self.start(),
                whole(extent(self.start())),
                self.cursor().x as int,
                self.cursor().y as int,
            ),
            self.is_done() ==> self.output() == applied(
                self.filter(),
                self.input(),
                self.start(),
                whole(extent(self.start())),
            ),
            self.is_done() <==> steps_left(
                self.mode(),
                self.start().width,
                self.start().height,
                self.cursor(),
            ) == 0,
            steps_left(self.mode(), self.start().width, self.start().height, self.cursor()) >= 0,
    {
        self.output.lemma_wf();
        lemma_progress_ends(
            self.filter,
            self.input@,
            self.start@,
            whole(extent(self.start@)),
        );
        let w: int = self.start@.width as int;
        let rows: int = self.start@.height - self.y;
        if w > 0 && rows > 0 {
            assert(rows * w - self.x > 0) by (nonlinear_arith)
                requires
                    rows >= 1,
                    w > self.x,
            ;
        }
        if rows == 0 {
            assert(rows * w == 0) by (nonlinear_arith)
                requires
                    rows == 0,
            ;
        }
    }

    /// The output image as it stands.
    pub fn image(&self) -> (image: &Image<P>)
        requires
            self.wf(),
        ensures
            image.wf(),
            image@ == self.output(),
    {
        &self.output
    }

    /// Whether the task is complete.
    pub fn done(&self) -> (done: bool)
        requires
            self.wf(),
        ensures
            done == self.is_done(),
    {
        proof {
            self.output.lemma_wf();
        }
        self.y >= self.output.height()
    }

    /// Run one scheduling step: compute the row or the pixel under the
    /// cursor, move the cursor on, and report whether work remains.
    pub fn poll(&mut self) -> (report: Progress)
        requires
            old(self).wf(),
            !old(self).is_done(),
        ensures
            final(self).wf(),
            final(self).filter() == old(self).filter(),
            final(self).input() == old(self).input(),
            final(self).start() == old(self).start(),
            final(self).mode() == old(self).mode(),
            final(self).cursor() == advance(
                old(self).mode(),
                old(self).start().width,
                old(self).cursor(),
            ),
            steps_left(
                final(self).mode(),
                final(self).start().width,
                final(self).start().height,
                final(self).cursor(),
            ) == steps_left(
                old(self).mode(),
                old(self).start().width,
                old(self).start().height,
                old(self).cursor(),
            ) - 1,
            final(self).output() == progress(
                old(self).filter(),
                old(self).input(),
                old(self).start(),
                whole(extent(old(self).start())),
                final(self).cursor().x as int,
                final(self).cursor().y as int,
            ),
            (report == Progress::Ready) <==> final(self).is_done(),
    {
        proof {
            self.output.lemma_wf();
        }
        let width: usize = self.output.width();
        let height: usize = self.output.height();
        let ghost region = whole(extent(self.start@));
        let ghost prev = *self;
        match self.mode {
            AsyncMode::Row => {
                let mut i: usize = 0;
                while i < width
                    invariant
                        i <= width,
                        self.y < height,
                        self.x == 0,
                        self.y == prev.y,
                        self.mode == AsyncMode::Row,
                        self.filter == prev.filter,
                        self.input == prev.input,
                        self.start == prev.start,
                        width == self.start@.width,
                        height == self.start@.height,
                        region == whole(extent(self.start@)),
                        self.input.wf(),
                        self.output.wf(),
                        self.start@.pixels.len() == self.start@.width * self.start@.height,
                        evaluable(self.filter, self.input@, extent(self.start@), region),
                        self.output@ == progress(
                            self.filter,
                            self.input@,
                            self.start@,
                            region,
                            i as int,
                            self.y as int,
                        ),
                    decreases width - i,
                {
                    let pt: Point = Point { x: i, y: self.y };
                    proof {
                        lemma_progress_step(self.filter, self.input@, self.start@, region, pt);
                        assert(extent(self.start@).contains(pt));
                    }
                    let mut data: P = self.output.get_pixel(pt);
                    self.filter.compute_at(pt, &self.input, &mut data);
                    self.output.set_pixel(pt, data);
                    i += 1;
                }
                proof {
                    lemma_progress_next_row(
                        self.filter,
                        self.input@,
                        self.start@,
                        region,
                        self.y as int,
                    );
                }
                self.y += 1;
            },
            AsyncMode::Pixel => {
                if self.x < width {
                    let pt: Point = Point { x: self.x, y: self.y };
                    proof {
                        lemma_progress_step(self.filter, self.input@, self.start@, region, pt);
                        assert(extent(self.start@).contains(pt));
                    }
                    let mut data: P = self.output.get_pixel(pt);
                    self.filter.compute_at(pt, &self.input, &mut data);
                    self.output.set_pixel(pt, data);
                }
                if self.x + 1 >= width {
                    proof {
                        lemma_progress_next_row(
                            self.filter,
                            self.input@,
                            self.start@,
                            region,
                            self.y as int,
                        );
                        let rows: int = height - self.y;
                        if width > 0 {
                            assert(rows * width - self.x - 1 == (rows - 1) * width)
                                by (nonlinear_arith)
                                requires
                                    self.x + 1 == width,
                            ;
                        }
                    }
                    self.x = 0;
                    self.y += 1;
                } else {
                    self.x += 1;
                }
            },
        }
        if self.y < height {
            Progress::Pending
        } else {
            Progress::Ready
        }
    }
    /// Evaluate the filter: run scheduling steps until the task is complete
    /// and hand back the output image.
    pub fn eval(self) -> (output: Image<P>)
        requires
            self.wf(),
        ensures
            output.wf(),
            output@ == applied(
                self.filter(),
                self.input(),
                self.start(),
                whole(extent(self.start())),
            ),
    {
        let mut task = self;
        proof {
            task.lemma_wf();
        }
        while !task.done()
            invariant
                task.wf(),
                task.filter() == self.filter(),
                task.input() == self.input(),
                task.start() == self.start(),
                task.mode() == self.mode(),
                steps_left(task.mode(), task.start().width, task.start().height, task.cursor())
                    >= 0,
            decreases
                    steps_left(task.mode(), task.start().width, task.start().height, task.cursor()),
        {
            task.poll();
            proof {
                task.lemma_wf();
            }
        }
        proof {
            task.lemma_wf();
        }
        task.output
    }

    /// Give up the task and hand back the output image as it stands: the
    /// points before the cursor are computed, the others are as they were.
    pub fn into_output(self) -> (output: Image<P>)
        requires
            self.wf(),
        ensures
            output.wf(),
            output@ == self.output(),
    {
        self.output
    }
}

/// Convert a filter to an `AsyncFilter` that evaluates it against `input`
/// over the whole of `output`, starting at the first point.  The filter's
/// setup runs here, once, before any point is computed, so that a run of the
/// task to completion gives what `eval` gives.
pub fn to_async<'a, P: Copy, F: Filter<P>>(
    filter: &'a F,
    mode: AsyncMode,
    input: Input<'a, P>,
    output: Image<P>,
) -> (task: AsyncFilter<'a, F, P>)
    requires
        input.wf(),
        output.wf(),
        filter.can_prepare(input@, extent(output@)),
        evaluable(
            filter,
            filter.prepared(input@, extent(output@)),
            extent(output@),
            whole(extent(output@)),
        ),
    ensures
        task.wf(),
        task.filter() == filter,
        task.input() == filter.prepared(input@, extent(output@)),
        task.start() == output@,
        task.output() == output@,
        task.mode() == mode,
        task.cursor() == (Cursor { x: 0, y: 0 }),
        !(mode == AsyncMode::Pixel && output@.width == 0 && output@.height > 0) ==> steps_left(
            mode,
            output@.width,
            output@.height,
            task.cursor(),
        ) == total_steps(mode, output@.width, output@.height),
{
    let mut input = input;
    filter.before_compute(&mut input, output.size());
    proof {
        output.lemma_wf();
        lemma_progress_ends(filter, input@, output@, whole(extent(output@)));
        let w: int = output@.width as int;
        let h: int = output@.height as int;
        assert((h - 0) * w - 0 == w * h) by (nonlinear_arith);
        if w == 0 {
            assert(w * h == 0) by (nonlinear_arith)
                requires
                    w == 0,
            ;
        }
        assert(steps_left(AsyncMode::Row, output@.width, output@.height, Cursor { x: 0, y: 0 })
            == h);
        assert(w > 0 ==> steps_left(
            AsyncMode::Pixel,
            output@.width,
            output@.height,
            Cursor { x: 0, y: 0 },
        ) == w * h);
    }
    AsyncFilter { filter, output, input, x: 0, y: 0, mode, start: Ghost(output@) }
}

/// Evaluate a `Filter` as an async filter, to completion: the setup runs
/// once, then one scheduling step after another.  The result is the one that
/// evaluating the filter against the same input in one sweep gives.
pub fn eval_async<'a, P: Copy, F: Filter<P>>(
    filter: &'a F,
    mode: AsyncMode,
    input: Input<'a, P>,
    output: Image<P>,
) -> (result: Image<P>)
    requires
        input.wf(),
        output.wf(),
        filter.can_prepare(input@, extent(output@)),
        evaluable(
            filter,
            filter.prepared(input@, extent(output@)),
            extent(output@),
            whole(extent(output@)),
        ),
    ensures
        result.wf(),
        result@ == applied(
            filter,
            filter.prepared(input@, extent(output@)),
            output@,
            whole(extent(output@)),
        ),
{
    to_async(filter, mode, input, output).eval()
}

} // verus!
