//! The bookkeeping of the frame loop: pacing, the rolling window of frame
//! times with the statistics published from it, and the throttle on error
//! reports. All times are microseconds on a monotonic clock that the caller
//! reads.

use vstd::prelude::*;

verus! {

/// Number of frames that the rolling window remembers.
pub const WINDOW_CAPACITY: usize = 60;

/// Time between two publications of statistics.
pub const STATS_INTERVAL_US: u64 = 100_000;

/// Shortest time between two reports of frame errors.
pub const ERROR_REPORT_INTERVAL_US: u64 = 1_000_000;

/// The times of one frame: rendering alone, and the whole frame from the end
/// of the previous one.
#[derive(Clone, Copy, Debug, PartialEq, Eq, Structural)]
pub struct FrameSample {
    pub render_us: u64,
    pub total_us: u64,
}

/// Published statistics: frames per second in thousandths, and the mean
/// render time of a frame in microseconds.
#[derive(Clone, Copy, Debug, PartialEq, Eq, Structural)]
pub struct FrameStats {
    pub fps_milli: u64,
    pub frame_time_us: u64,
}

/// Sum of the render times of `samples`.
pub open spec fn sum_render(samples: Seq<FrameSample>) -> int
    decreases samples.len(),
{
    if samples.len() == 0 {
        0
    } else {
        sum_render(samples.drop_last()) + samples.last().render_us
    }
}

/// Sum of the whole-frame times of `samples`.
pub open spec fn sum_total(samples: Seq<FrameSample>) -> int
    decreases samples.len(),
{
    if samples.len() == 0 {
        0
    } else {
        sum_total(samples.drop_last()) + samples.last().total_us
    }
}

/// Frames per second, in thousandths, of `count` frames that took
/// `total_us` together; zero where no time has passed.
pub open spec fn fps_milli_of(count: int, total_us: int) -> int {
    if total_us > 0 {
        (count * 1_000_000_000) / total_us
    } else {
        0
    }
}

/// The statistics of a non-empty window: the rate that its mean frame time
/// amounts to, and its mean render time.
pub open spec fn stats_of(samples: Seq<FrameSample>) -> FrameStats {
    FrameStats {
        fps_milli: fps_milli_of(samples.len() as int, sum_total(samples)) as u64,
        frame_time_us: (sum_render(samples) / (samples.len() as int)) as u64,
    }
}

/// The window after one more sample: the sample is appended, and the oldest
/// one leaves once the capacity is reached.
pub open spec fn window_push(samples: Seq<FrameSample>, sample: FrameSample) -> Seq<FrameSample> {
    if samples.len() < WINDOW_CAPACITY {
        samples.push(sample)
    } else {
        samples.skip(1).push(sample)
    }
}

/// A window never outgrows its capacity: after a sample is added it holds
/// one sample more while there is room, and the capacity from then on.
pub proof fn lemma_window_push_len(samples: Seq<FrameSample>, sample: FrameSample)
    requires
        samples.len() <= WINDOW_CAPACITY,
    ensures
        window_push(samples, sample).len() == if samples.len() < WINDOW_CAPACITY {
            samples.len() + 1
        } else {
            WINDOW_CAPACITY as nat
        },
        window_push(samples, sample).len() <= WINDOW_CAPACITY,
        window_push(samples, sample).last() == sample,
{
}

/// Both sums of a sequence are those of its tail plus the first sample.
pub proof fn lemma_sum_first(samples: Seq<FrameSample>)
    requires
        samples.len() > 0,
    ensures
        sum_render(samples) == samples[0].render_us + sum_render(samples.skip(1)),
        sum_total(samples) == samples[0].total_us + sum_total(samples.skip(1)),
    decreases samples.len(),
{
    if samples.len() == 1 {
        assert(samples.drop_last().len() == 0);
        assert(samples.skip(1).len() == 0);
        assert(sum_render(samples.drop_last()) == 0);
        assert(sum_total(samples.drop_last()) == 0);
        assert(sum_render(samples.skip(1)) == 0);
        assert(sum_total(samples.skip(1)) == 0);
        assert(samples.last() == samples[0]);
    } else {
        lemma_sum_first(samples.drop_last());
        assert(samples.drop_last().skip(1) =~= samples.skip(1).drop_last());
        assert(samples.skip(1).last() == samples.last());
        assert(samples.drop_last()[0] == samples[0]);
    }
}

/// Both sums stay within what so many 64-bit samples can amount to.
pub proof fn lemma_sum_bounds(samples: Seq<FrameSample>)
    ensures
        0 <= sum_render(samples) <= samples.len() * u64::MAX,
        0 <= sum_total(samples) <= samples.len() * u64::MAX,
    decreases samples.len(),
{
    if samples.len() > 0 {
        lemma_sum_bounds(samples.drop_last());
        assert((samples.len() - 1) * u64::MAX + u64::MAX == samples.len() * u64::MAX)
            by (nonlinear_arith);
    }
}

/// The statistics of a window of at most `WINDOW_CAPACITY` samples fit
/// their fields.
pub proof fn lemma_stats_fit(samples: Seq<FrameSample>)
    requires
        0 < samples.len() <= WINDOW_CAPACITY,
    ensures
        0 <= fps_milli_of(samples.len() as int, sum_total(samples)) <= 60_000_000_000,
        0 <= sum_render(samples) / (samples.len() as int) <= u64::MAX,
{
    lemma_sum_bounds(samples);
    let n = samples.len() as int;
    let total = sum_total(samples);
    let render = sum_render(samples);
    if total > 0 {
        assert(0 <= (n * 1_000_000_000) / total <= 60_000_000_000) by (nonlinear_arith)
            requires
                0 < n <= 60,
                0 < total,
        ;
    }
    assert(0 <= render / n <= u64::MAX) by (nonlinear_arith)
        requires
            0 < n,
            0 <= render <= n * u64::MAX,
    ;
}

/// The rolling window of frame times: a ring of `WINDOW_CAPACITY` slots that
/// keeps the newest samples and their sums.
pub struct FrameWindow {
    slots: Vec<FrameSample>,
    head: usize,
    render_sum: u128,
    total_sum: u128,
}

impl View for FrameWindow {
    type V = Seq<FrameSample>;

    /// The samples in the window, oldest first.
    closed spec fn view(&self) -> Seq<FrameSample> {
        self.slots@.subrange(self.head as int, self.slots@.len() as int) + self.slots@.subrange(
            0,
            self.head as int,
        )
    }
}

impl FrameWindow {
    /// The ring is consistent: at most `WINDOW_CAPACITY` slots, the oldest
    /// sample at the head, and both sums those of the samples.
    #[verifier::type_invariant]
    spec fn inv(self) -> bool {
        &&& self.slots@.len() <= WINDOW_CAPACITY
        &&& self.head <= self.slots@.len()
        &&& self.head < WINDOW_CAPACITY
        &&& self.slots@.len() < WINDOW_CAPACITY ==> self.head == 0
        &&& self.render_sum == sum_render(self@)
        &&& self.total_sum == sum_total(self@)
    }

    /// An empty window.
    pub fn new() -> (window: Self)
        ensures
            window@ == Seq::<FrameSample>::empty(),
    {
        let slots: Vec<FrameSample> = Vec::new();
        assert(slots@.subrange(0, 0) + slots@.subrange(0, 0) =~= Seq::<FrameSample>::empty());
        FrameWindow { slots, head: 0, render_sum: 0, total_sum: 0 }
    }

    /// Number of samples in the window.
    pub fn len(&self) -> (n: usize)
        ensures
            n == self@.len(),
            n <= WINDOW_CAPACITY,
    {
        proof {
            use_type_invariant(self);
        }
        self.slots.len()
    }

    /// Adds a sample; the oldest one leaves if the window is full.
    pub fn push(&mut self, sample: FrameSample)
        ensures
            final(self)@ == window_push(old(self)@, sample),
            old(self)@.len() <= WINDOW_CAPACITY,
            final(self)@.len() <= WINDOW_CAPACITY,
    {
        let mut taken = FrameWindow::new();
        core::mem::swap(self, &mut taken);
        proof {
            use_type_invariant(&taken);
            lemma_sum_bounds(taken@);
        }
        let ghost before = taken@;
        let FrameWindow { mut slots, head, render_sum, total_sum } = taken;
        if slots.len() < WINDOW_CAPACITY {
            slots.push(sample);
            proof {
                assert(slots@.subrange(0, slots@.len() as int) + slots@.subrange(0, 0)
                    =~= before.push(sample));
                assert(before.push(sample).drop_last() =~= before);
            }
            *self = FrameWindow {
                slots,
                head,
                render_sum: render_sum + sample.render_us as u128,
                total_sum: total_sum + sample.total_us as u128,
            };
        } else {
            let oldest = slots[head];
            proof {
                lemma_sum_first(before);
                lemma_sum_bounds(before.skip(1));
                assert(before[0] == oldest);
            }
            slots.set(head, sample);
            let next: usize = if head + 1 == WINDOW_CAPACITY {
                0
            } else {
                head + 1
            };
            proof {
                let after = before.skip(1).push(sample);
                assert(slots@.subrange(next as int, slots@.len() as int) + slots@.subrange(
                    0,
                    next as int,
                ) =~= after);
                assert(after.drop_last() =~= before.skip(1));
            }
            *self = FrameWindow {
                slots,
                head: next,
                render_sum: render_sum - oldest.render_us as u128 + sample.render_us as u128,
                total_sum: total_sum - oldest.total_us as u128 + sample.total_us as u128,
            };
        }
    }

    /// The statistics of the window, or `None` while it is empty.
    pub fn stats(&self) -> (stats: Option<FrameStats>)
        ensures
            self@.len() <= WINDOW_CAPACITY,
            self@.len() == 0 ==> stats is None,
            self@.len() > 0 ==> stats == Some(stats_of(self@)),
    {
        proof {
            use_type_invariant(self);
        }
        let n: usize = self.slots.len();
        if n == 0 {
            return None;
        }
        proof {
            lemma_stats_fit(self@);
            lemma_sum_bounds(self@);
        }
        let fps: u128 = if self.total_sum > 0 {
            (n as u128 * 1_000_000_000u128) / self.total_sum
        } else {
            0
        };
        let mean: u128 = self.render_sum / (n as u128);
        Some(FrameStats { fps_milli: fps as u64, frame_time_us: mean as u64 })
    }
}

/// How the loop keeps its pace: by the display's blanking interval, or by
/// the frame signal of the presentation surface; and an optional cap on the
/// frame rate, in thousandths of a frame per second.
#[derive(Clone, Copy, Debug, PartialEq, Eq, Structural)]
pub struct FramePacing {
    pub vsync_enabled: bool,
    pub target_fps: Option<u32>,
}

/// The three ways of pacing a session.
#[derive(Clone, Copy, Debug, PartialEq, Eq, Structural)]
pub enum PacingMode {
    /// Presentation blocks until the display's next refresh.
    DisplaySync,
    /// The loop waits for the surface's frame signal, then presents at once.
    FrameSignal,
    /// The loop sleeps out the rest of a fixed frame budget.
    FrameCap,
}

/// The time that one frame may take under a cap of `fps_milli` thousandths
/// of a frame per second, in microseconds. A cap of zero is no cap.
pub open spec fn frame_budget_us(target_fps: Option<u32>) -> Option<int> {
    match target_fps {
        Some(fps) if fps > 0 => Some(1_000_000_000int / (fps as int)),
        _ => None,
    }
}

/// How long to sleep once `elapsed_us` of a budget has gone by.
pub open spec fn budget_left_us(budget: Option<int>, elapsed_us: int) -> int {
    match budget {
        Some(b) if elapsed_us < b => b - elapsed_us,
        _ => 0,
    }
}

/// The later time minus the earlier, and zero where the clock went back.
pub open spec fn elapsed_us(earlier: int, later: int) -> int {
    if later >= earlier {
        later - earlier
    } else {
        0
    }
}

impl FramePacing {
    /// The mode that governs the session: a positive cap where one is set,
    /// else the display's refresh or the frame signal.
    pub open spec fn spec_mode(&self) -> PacingMode {
        if frame_budget_us(self.target_fps) is Some {
            PacingMode::FrameCap
        } else if self.vsync_enabled {
            PacingMode::DisplaySync
        } else {
            PacingMode::FrameSignal
        }
    }

    /// The pacing mode of the session.
    pub fn mode(&self) -> (mode: PacingMode)
        ensures
            mode == self.spec_mode(),
    {
        match self.frame_budget() {
            Some(_) => PacingMode::FrameCap,
            None => if self.vsync_enabled {
                PacingMode::DisplaySync
            } else {
                PacingMode::FrameSignal
            },
        }
    }

    /// The number of display refreshes that a presentation waits for: one
    /// with vertical sync, none without.
    pub fn sync_interval(&self) -> (interval: u32)
        ensures
            interval == if self.vsync_enabled {
                1u32
            } else {
                0u32
            },
    {
        if self.vsync_enabled {
            1
        } else {
            0
        }
    }

    /// Whether the loop waits for the surface's frame signal before it
    /// renders: exactly when vertical sync is off.
    pub fn waits_for_frame_signal(&self) -> (waits: bool)
        ensures
            waits == !self.vsync_enabled,
    {
        !self.vsync_enabled
    }

    /// The frame budget of the cap in microseconds, if a cap is set.
    pub fn frame_budget(&self) -> (budget: Option<u64>)
        ensures
            match frame_budget_us(self.target_fps) {
                Some(b) => budget == Some(b as u64) && 0 <= b <= 1_000_000_000,
                None => budget is None,
            },
    {
        match self.target_fps {
            Some(fps) => if fps > 0 {
                Some(1_000_000_000u64 / (fps as u64))
            } else {
                None
            },
            None => None,
        }
    }
}

/// Where the loop stands within an iteration: what its caller is doing for
/// it at the moment.
#[derive(Clone, Copy, Debug, PartialEq, Eq, Structural)]
pub enum LoopPhase {
    /// Between two iterations.
    Idle,
    /// The caller waits for the frame signal.
    Waiting,
    /// The caller handles the platform's pending events.
    Draining,
    /// The caller acquires and draws a frame.
    Rendering,
    /// The caller presents the frame.
    Presenting,
    /// The caller sleeps out the frame budget.
    Sleeping,
    /// The loop has ended.
    Ended,
}

/// What the caller reports when it asks for the next step: the time, whether
/// the session is cancelled, whether the platform asked to quit while its
/// events were handled, and whether the frame failed to render. The loop
/// reads of it what belongs to the step that was just done.
#[derive(Clone, Copy, Debug, PartialEq, Eq, Structural)]
pub struct LoopInput {
    pub now_us: u64,
    pub cancelled: bool,
    pub quit: bool,
    pub failed: bool,
}

/// What the caller does next.
#[derive(Clone, Copy, Debug, PartialEq, Eq, Structural)]
pub enum LoopAction {
    /// Leave the loop.
    Exit,
    /// Wait until the presentation surface can take a frame.
    WaitFrameSignal,
    /// Handle the platform's pending events without blocking.
    DrainEvents,
    /// Acquire a frame and draw it.
    RenderFrame,
    /// The frame failed: report the running number of errors if one is
    /// given, and go on with the next iteration.
    SkipFrame { report: Option<u32> },
    /// Present the frame, waiting for so many refreshes of the display.
    Present { sync_interval: u32 },
    /// Sleep for so many microseconds.
    Sleep { us: u64 },
    /// The frame is done: publish the statistics if some are given.
    FrameDone { publish: Option<FrameStats> },
}

/// The mathematical value of a `FrameLoop`.
pub struct LoopView {
    pub phase: LoopPhase,
    pub frame_start_us: int,
    pub render_us: int,
    pub pacing: FramePacing,
    pub samples: Seq<FrameSample>,
    pub error_count: int,
    pub last_error_report_us: int,
    pub last_stats_us: int,
    pub last_frame_us: int,
}

/// Whether a frame error at `now_us` is reported: not before a full report
/// interval has passed since the last report (or since the loop began).
pub open spec fn error_is_reported(v: LoopView, now_us: int) -> bool {
    elapsed_us(v.last_error_report_us, now_us) >= ERROR_REPORT_INTERVAL_US
}

/// The number of errors after one more: it stops at the largest count.
pub open spec fn next_error_count(count: int) -> int {
    if count < u32::MAX {
        count + 1
    } else {
        count
    }
}

/// The loop after a frame error at `now_us`.
pub open spec fn after_frame_error(v: LoopView, now_us: int) -> LoopView {
    LoopView {
        error_count: next_error_count(v.error_count),
        last_error_report_us: if error_is_reported(v, now_us) {
            now_us
        } else {
            v.last_error_report_us
        },
        ..v
    }
}

/// Whether statistics are published at `now_us`: a full interval after the
/// last publication (or the loop's begin).
pub open spec fn stats_are_due(v: LoopView, now_us: int) -> bool {
    elapsed_us(v.last_stats_us, now_us) >= STATS_INTERVAL_US
}

/// The sample of a frame that was presented at `now_us` after rendering for
/// `render_us`.
pub open spec fn presented_sample(v: LoopView, render_us: u64, now_us: int) -> FrameSample {
    FrameSample { render_us, total_us: elapsed_us(v.last_frame_us, now_us) as u64 }
}

/// The loop after a frame was presented at `now_us`.
pub open spec fn after_frame_presented(v: LoopView, render_us: u64, now_us: int) -> LoopView {
    LoopView {
        samples: window_push(v.samples, presented_sample(v, render_us, now_us)),
        last_frame_us: now_us,
        last_stats_us: if stats_are_due(v, now_us) {
            now_us
        } else {
            v.last_stats_us
        },
        ..v
    }
}

/// The loop as its caller first asks for a step, between two iterations: a
/// cancelled loop ends; else the iteration begins with the wait for the
/// frame signal, where the pacing has one, or with the platform's events.
pub open spec fn step_from_idle(v: LoopView, input: LoopInput) -> (LoopView, LoopAction) {
    if input.cancelled {
        (LoopView { phase: LoopPhase::Ended, ..v }, LoopAction::Exit)
    } else if !v.pacing.vsync_enabled {
        (LoopView { phase: LoopPhase::Waiting, ..v }, LoopAction::WaitFrameSignal)
    } else {
        (LoopView { phase: LoopPhase::Draining, ..v }, LoopAction::DrainEvents)
    }
}

/// The loop after the platform's events were handled: it ends where the
/// platform asked to quit, and else renders a frame, whose time starts now.
pub open spec fn step_from_draining(v: LoopView, input: LoopInput) -> (LoopView, LoopAction) {
    if input.quit {
        (LoopView { phase: LoopPhase::Ended, ..v }, LoopAction::Exit)
    } else {
        (
            LoopView { phase: LoopPhase::Rendering, frame_start_us: input.now_us as int, ..v },
            LoopAction::RenderFrame,
        )
    }
}

/// The loop after a frame was rendered. A failed frame is counted, reported
/// at most once per report interval, and neither presented nor measured: the
/// next iteration begins. A good frame is presented; its render time is
/// what has passed since its start.
pub open spec fn step_from_rendering(v: LoopView, input: LoopInput) -> (LoopView, LoopAction) {
    if input.failed {
        (
            LoopView { phase: LoopPhase::Idle, ..after_frame_error(v, input.now_us as int) },
            LoopAction::SkipFrame {
                report: if error_is_reported(v, input.now_us as int) {
                    Some(next_error_count(v.error_count) as u32)
                } else {
                    None
                },
            },
        )
    } else {
        (
            LoopView {
                phase: LoopPhase::Presenting,
                render_us: elapsed_us(v.frame_start_us, input.now_us as int),
                ..v
            },
            LoopAction::Present {
                sync_interval: if v.pacing.vsync_enabled {
                    1u32
                } else {
                    0u32
                },
            },
        )
    }
}

/// The loop once a frame is presented and slept for: the frame is measured
/// and the iteration is over.
pub open spec fn step_to_done(v: LoopView, input: LoopInput) -> (LoopView, LoopAction) {
    let done = after_frame_presented(v, v.render_us as u64, input.now_us as int);
    (
        LoopView { phase: LoopPhase::Idle, ..done },
        LoopAction::FrameDone {
            publish: if stats_are_due(v, input.now_us as int) {
                Some(stats_of(done.samples))
            } else {
                None
            },
        },
    )
}

/// The loop after a frame was presented: it sleeps for what is left of the
/// frame budget, if anything is, and else the frame is done.
pub open spec fn step_from_presenting(v: LoopView, input: LoopInput) -> (LoopView, LoopAction) {
    let left = budget_left_us(
        frame_budget_us(v.pacing.target_fps),
        elapsed_us(v.last_frame_us, input.now_us as int),
    );
    if left > 0 {
        (LoopView { phase: LoopPhase::Sleeping, ..v }, LoopAction::Sleep { us: left as u64 })
    } else {
        step_to_done(v, input)
    }
}

/// One step of the loop: its state and what the caller reports make the
/// next state and what the caller does next. An iteration goes from the
/// wait for the frame signal through the platform's events, the rendering
/// and the presentation to the sleep that keeps the cap.
pub open spec fn loop_step(v: LoopView, input: LoopInput) -> (LoopView, LoopAction) {
    match v.phase {
        LoopPhase::Idle => step_from_idle(v, input),
        LoopPhase::Waiting => (LoopView { phase: LoopPhase::Draining, ..v }, LoopAction::DrainEvents),
        LoopPhase::Draining => step_from_draining(v, input),
        LoopPhase::Rendering => step_from_rendering(v, input),
        LoopPhase::Presenting => step_from_presenting(v, input),
        LoopPhase::Sleeping => step_to_done(v, input),
        LoopPhase::Ended => (v, LoopAction::Exit),
    }
}

/// The loop ends only where it is cancelled between two iterations or the
/// platform asks to quit; once ended it stays so.
pub proof fn lemma_exit_only_on_request(v: LoopView, input: LoopInput)
    ensures
        loop_step(v, input).1 == LoopAction::Exit <==> (v.phase == LoopPhase::Ended || (v.phase
            == LoopPhase::Idle && input.cancelled) || (v.phase == LoopPhase::Draining
            && input.quit)),
        loop_step(v, input).1 == LoopAction::Exit <==> loop_step(v, input).0.phase
            == LoopPhase::Ended,
{
}

/// A frame that failed is neither presented nor measured: the window of
/// samples stays as it is, the error is counted, and the loop goes on with
/// the next iteration.
pub proof fn lemma_failed_frame_is_skipped(v: LoopView, input: LoopInput)
    requires
        v.phase == LoopPhase::Rendering,
        input.failed,
    ensures
        loop_step(v, input).1 is SkipFrame,
        loop_step(v, input).0.phase == LoopPhase::Idle,
        loop_step(v, input).0.samples == v.samples,
        loop_step(v, input).0.last_frame_us == v.last_frame_us,
        loop_step(v, input).0.error_count == next_error_count(v.error_count),
{
}

/// Every frame that is presented is measured exactly once, when it is done:
/// only that step adds a sample.
pub proof fn lemma_sample_per_frame(v: LoopView, input: LoopInput)
    ensures
        loop_step(v, input).1 is FrameDone ==> loop_step(v, input).0.samples == window_push(
            v.samples,
            presented_sample(v, v.render_us as u64, input.now_us as int),
        ),
        !(loop_step(v, input).1 is FrameDone) ==> loop_step(v, input).0.samples == v.samples,
{
}

/// The state of one run of the frame loop.
pub struct FrameLoop {
    phase: LoopPhase,
    frame_start_us: u64,
    render_us: u64,
    pacing: FramePacing,
    window: FrameWindow,
    error_count: u32,
    last_error_report_us: u64,
    last_stats_us: u64,
    last_frame_us: u64,
}

impl View for FrameLoop {
    type V = LoopView;

    closed spec fn view(&self) -> LoopView {
        LoopView {
            phase: self.phase,
            frame_start_us: self.frame_start_us as int,
            render_us: self.render_us as int,
            pacing: self.pacing,
            samples: self.window@,
            error_count: self.error_count as int,
            last_error_report_us: self.last_error_report_us as int,
            last_stats_us: self.last_stats_us as int,
            last_frame_us: self.last_frame_us as int,
        }
    }
}

/// The later time minus the earlier, and zero where the clock went back.
pub fn elapsed(earlier: u64, later: u64) -> (e: u64)
    ensures
        e == elapsed_us(earlier as int, later as int),
{
    if later >= earlier {
        later - earlier
    } else {
        0
    }
}

impl FrameLoop {
    /// A loop that begins at `now_us`: no sample, no error, and every
    /// interval counted from now.
    pub fn new(pacing: FramePacing, now_us: u64) -> (frame_loop: Self)
        ensures
            frame_loop@ == (LoopView {
                phase: LoopPhase::Idle,
                frame_start_us: now_us as int,
                render_us: 0,
                pacing,
                samples: Seq::<FrameSample>::empty(),
                error_count: 0,
                last_error_report_us: now_us as int,
                last_stats_us: now_us as int,
                last_frame_us: now_us as int,
            }),
            frame_loop@.samples.len() <= WINDOW_CAPACITY,
    {
        FrameLoop {
            phase: LoopPhase::Idle,
            frame_start_us: now_us,
            render_us: 0,
            pacing,
            window: FrameWindow::new(),
            error_count: 0,
            last_error_report_us: now_us,
            last_stats_us: now_us,
            last_frame_us: now_us,
        }
    }

    /// Where the loop stands within an iteration.
    pub fn phase(&self) -> (phase: LoopPhase)
        ensures
            phase == self@.phase,
    {
        self.phase
    }

    /// Takes what the caller reports of the step that it has done and says
    /// what it does next, as `loop_step` states it.
    pub fn advance(&mut self, input: LoopInput) -> (action: LoopAction)
        ensures
            (final(self)@, action) == loop_step(old(self)@, input),
            old(self)@.samples.len() <= WINDOW_CAPACITY,
            final(self)@.samples.len() <= WINDOW_CAPACITY,
    {
        proof {
            use_type_invariant(&self.window);
        }
        match self.phase {
            LoopPhase::Idle => {
                if input.cancelled {
                    self.phase = LoopPhase::Ended;
                    LoopAction::Exit
                } else if self.pacing.waits_for_frame_signal() {
                    self.phase = LoopPhase::Waiting;
                    LoopAction::WaitFrameSignal
                } else {
                    self.phase = LoopPhase::Draining;
                    LoopAction::DrainEvents
                }
            },
            LoopPhase::Waiting => {
                self.phase = LoopPhase::Draining;
                LoopAction::DrainEvents
            },
            LoopPhase::Draining => {
                if input.quit {
                    self.phase = LoopPhase::Ended;
                    LoopAction::Exit
                } else {
                    self.phase = LoopPhase::Rendering;
                    self.frame_start_us = input.now_us;
                    LoopAction::RenderFrame
                }
            },
            LoopPhase::Rendering => {
                if input.failed {
                    let report = self.on_frame_error(input.now_us);
                    self.phase = LoopPhase::Idle;
                    LoopAction::SkipFrame { report }
                } else {
                    self.render_us = elapsed(self.frame_start_us, input.now_us);
                    self.phase = LoopPhase::Presenting;
                    LoopAction::Present { sync_interval: self.pacing.sync_interval() }
                }
            },
            LoopPhase::Presenting => {
                let us = self.cap_sleep_us(input.now_us);
                if us > 0 {
                    self.phase = LoopPhase::Sleeping;
                    LoopAction::Sleep { us }
                } else {
                    let publish = self.on_frame_presented(self.render_us, input.now_us);
                    self.phase = LoopPhase::Idle;
                    LoopAction::FrameDone { publish }
                }
            },
            LoopPhase::Sleeping => {
                let publish = self.on_frame_presented(self.render_us, input.now_us);
                self.phase = LoopPhase::Idle;
                LoopAction::FrameDone { publish }
            },
            LoopPhase::Ended => LoopAction::Exit,
        }
    }

    /// The pacing that the loop was started with.
    pub fn pacing(&self) -> (pacing: FramePacing)
        ensures
            pacing == self@.pacing,
    {
        self.pacing
    }

    /// The number of samples in the window: never more than its capacity.
    pub fn sample_count(&self) -> (count: usize)
        ensures
            count == self@.samples.len(),
            count <= WINDOW_CAPACITY,
    {
        self.window.len()
    }

    /// The number of frame errors so far.
    pub fn error_count(&self) -> (count: u32)
        ensures
            count == self@.error_count,
    {
        self.error_count
    }

    /// Records a frame error at `now_us`. The error is counted; the running
    /// count is returned for a report at most once per report interval, and
    /// `None` in between. The loop goes on either way.
    pub fn on_frame_error(&mut self, now_us: u64) -> (report: Option<u32>)
        ensures
            final(self)@ == after_frame_error(old(self)@, now_us as int),
            report == if error_is_reported(old(self)@, now_us as int) {
                Some(next_error_count(old(self)@.error_count) as u32)
            } else {
                None
            },
            final(self)@.samples.len() <= WINDOW_CAPACITY,
    {
        proof {
            use_type_invariant(&self.window);
        }
        if self.error_count < u32::MAX {
            self.error_count = self.error_count + 1;
        }
        if elapsed(self.last_error_report_us, now_us) >= ERROR_REPORT_INTERVAL_US {
            self.last_error_report_us = now_us;
            Some(self.error_count)
        } else {
            None
        }
    }

    /// How long the loop sleeps at `now_us` to keep the cap on the frame
    /// rate: what is left of the frame budget, counted from the end of the
    /// previous frame; nothing without a cap.
    pub fn cap_sleep_us(&self, now_us: u64) -> (sleep_us: u64)
        ensures
            sleep_us == budget_left_us(
                frame_budget_us(self@.pacing.target_fps),
                elapsed_us(self@.last_frame_us, now_us as int),
            ),
    {
        match self.pacing.frame_budget() {
            Some(budget) => {
                let gone: u64 = elapsed(self.last_frame_us, now_us);
                if gone < budget {
                    budget - gone
                } else {
                    0
                }
            },
            None => 0,
        }
    }

    /// Records a frame that was presented at `now_us` after rendering for
    /// `render_us`. Its sample enters the window. Once per statistics
    /// interval the statistics of the window are returned for publication.
    pub fn on_frame_presented(&mut self, render_us: u64, now_us: u64) -> (publish: Option<
        FrameStats,
    >)
        ensures
            final(self)@ == after_frame_presented(old(self)@, render_us, now_us as int),
            publish == if stats_are_due(old(self)@, now_us as int) {
                Some(stats_of(final(self)@.samples))
            } else {
                None
            },
            old(self)@.samples.len() <= WINDOW_CAPACITY,
            0 < final(self)@.samples.len() <= WINDOW_CAPACITY,
    {
        let total_us: u64 = elapsed(self.last_frame_us, now_us);
        self.last_frame_us = now_us;
        self.window.push(FrameSample { render_us, total_us });
        if elapsed(self.last_stats_us, now_us) >= STATS_INTERVAL_US {
            self.last_stats_us = now_us;
            self.window.stats()
        } else {
            None
        }
    }
}

} // verus!
