//! The capture source: the protocol of acquiring and releasing frames of one
//! display, and the copy of a mapped frame into a packed buffer.
//!
//! The platform calls are the caller's. The source decides what each answer
//! of the platform means, keeps track of the one frame that may be held, and
//! says when the staging texture has to be made anew.

use vstd::prelude::*;
use vstd::arithmetic::div_mod::lemma_fundamental_div_mod_converse;
use crate::monitor::MonitorRect;

verus! {

/// Bytes of one pixel of a captured frame (blue, green, red, alpha).
pub const BYTES_PER_PIXEL: usize = 4;

/// How long an acquisition waits for a new frame, in milliseconds: short
/// enough for displays of a high refresh rate.
pub const ACQUIRE_TIMEOUT_MS: u32 = 5;

/// Why the capture source fails.
#[derive(Clone, Copy, Debug, PartialEq, Eq, Structural)]
pub enum CaptureError {
    /// The monitor index is not below the number of displays.
    MonitorOutOfRange,
    /// The platform denies the capture, as when another process holds it.
    CaptureUnavailable,
    /// A frame is still held; it has to be released first.
    FrameNotReleased,
    /// Access to the display was lost, as after a change of monitors.
    AccessLost,
    /// The platform failed with this code.
    Platform(i32),
}

/// What the platform answered to an acquisition.
#[derive(Clone, Copy, Debug, PartialEq, Eq, Structural)]
pub enum AcquireEvent {
    /// A new frame of this size is ready.
    Frame { width: u32, height: u32 },
    /// The call succeeded without a frame.
    Empty,
    /// No new frame came within the timeout.
    Timeout,
    /// Access to the display was lost.
    AccessLost,
    /// The call failed with this code.
    Failed(i32),
}

/// A frame that was acquired: its size, and whether the staging texture has
/// to be made anew for it.
#[derive(Clone, Copy, Debug, PartialEq, Eq, Structural)]
pub struct FrameInfo {
    pub width: u32,
    pub height: u32,
    pub recreate_staging: bool,
}

/// The mathematical value of a capture source.
pub struct CaptureView {
    pub width: u32,
    pub height: u32,
    pub monitor_index: usize,
    pub staging_ready: bool,
    pub frame_held: bool,
}

/// The source after the platform's answer `event`. A frame that arrives
/// while none is held is then held, the source takes its size, and a staging
/// texture exists from then on. Every other answer changes nothing.
pub open spec fn after_acquire(v: CaptureView, event: AcquireEvent) -> CaptureView {
    match event {
        AcquireEvent::Frame { width, height } if !v.frame_held => CaptureView {
            width,
            height,
            staging_ready: true,
            frame_held: true,
            ..v
        },
        _ => v,
    }
}

/// What the caller is told about the platform's answer `event`: a frame, no
/// frame yet, or an error that the caller may retry after.
pub open spec fn acquire_result(v: CaptureView, event: AcquireEvent) -> Result<
    Option<FrameInfo>,
    CaptureError,
> {
    if v.frame_held {
        Err(CaptureError::FrameNotReleased)
    } else {
        match event {
            AcquireEvent::Frame { width, height } => Ok(
                Some(
                    FrameInfo {
                        width,
                        height,
                        recreate_staging: !v.staging_ready || width != v.width || height
                            != v.height,
                    },
                ),
            ),
            AcquireEvent::Empty => Ok(None),
            AcquireEvent::Timeout => Ok(None),
            AcquireEvent::AccessLost => Err(CaptureError::AccessLost),
            AcquireEvent::Failed(code) => Err(CaptureError::Platform(code)),
        }
    }
}

/// The capture source of one display.
pub struct DesktopDuplication {
    width: u32,
    height: u32,
    monitor_index: usize,
    staging_ready: bool,
    frame_held: bool,
}

impl View for DesktopDuplication {
    type V = CaptureView;

    closed spec fn view(&self) -> CaptureView {
        CaptureView {
            width: self.width,
            height: self.height,
            monitor_index: self.monitor_index,
            staging_ready: self.staging_ready,
            frame_held: self.frame_held,
        }
    }
}

impl DesktopDuplication {
    /// Binds a source to the display at `monitor_index`. `output` is that
    /// display as the platform enumerated it, `None` where the index is past
    /// the last display; `granted` says whether the platform gave the
    /// capture to this process.
    pub fn new(monitor_index: usize, output: Option<MonitorRect>, granted: bool) -> (res: Result<
        DesktopDuplication,
        CaptureError,
    >)
        ensures
            match output {
                None => res == Err::<DesktopDuplication, CaptureError>(
                    CaptureError::MonitorOutOfRange,
                ),
                Some(rect) => if granted {
                    res matches Ok(source) && source@ == (CaptureView {
                        width: rect.spec_width(),
                        height: rect.spec_height(),
                        monitor_index,
                        staging_ready: false,
                        frame_held: false,
                    })
                } else {
                    res == Err::<DesktopDuplication, CaptureError>(CaptureError::CaptureUnavailable)
                },
            },
    {
        match output {
            None => Err(CaptureError::MonitorOutOfRange),
            Some(rect) => {
                if granted {
                    Ok(
                        DesktopDuplication {
                            width: rect.width(),
                            height: rect.height(),
                            monitor_index,
                            staging_ready: false,
                            frame_held: false,
                        },
                    )
                } else {
                    Err(CaptureError::CaptureUnavailable)
                }
            },
        }
    }

    /// Width and height of the frames, as last seen.
    pub fn dimensions(&self) -> (size: (u32, u32))
        ensures
            size == (self@.width, self@.height),
    {
        (self.width, self.height)
    }

    /// The display that the source is bound to.
    pub fn monitor_index(&self) -> (index: usize)
        ensures
            index == self@.monitor_index,
    {
        self.monitor_index
    }

    /// Whether a frame is held and has to be released before the next
    /// acquisition.
    pub fn frame_held(&self) -> (held: bool)
        ensures
            held == self@.frame_held,
    {
        self.frame_held
    }

    /// Takes the platform's answer to an acquisition. A timeout is no error:
    /// there is no new frame yet. Lost access and other failures are
    /// reported and leave the source as it was, ready for the next attempt.
    pub fn capture_frame(&mut self, event: AcquireEvent) -> (res: Result<
        Option<FrameInfo>,
        CaptureError,
    >)
        ensures
            res == acquire_result(old(self)@, event),
            final(self)@ == after_acquire(old(self)@, event),
    {
        if self.frame_held {
            return Err(CaptureError::FrameNotReleased);
        }
        match event {
            AcquireEvent::Frame { width, height } => {
                let recreate_staging = !self.staging_ready || width != self.width || height
                    != self.height;
                self.width = width;
                self.height = height;
                self.staging_ready = true;
                self.frame_held = true;
                Ok(Some(FrameInfo { width, height, recreate_staging }))
            },
            AcquireEvent::Empty => Ok(None),
            AcquireEvent::Timeout => Ok(None),
            AcquireEvent::AccessLost => Err(CaptureError::AccessLost),
            AcquireEvent::Failed(code) => Err(CaptureError::Platform(code)),
        }
    }

    /// Releases the frame. Returns whether one was held, that is whether the
    /// platform has a frame to take back; without one nothing happens.
    pub fn release(&mut self) -> (was_held: bool)
        ensures
            was_held == old(self)@.frame_held,
            final(self)@ == (CaptureView { frame_held: false, ..old(self)@ }),
    {
        let was_held = self.frame_held;
        self.frame_held = false;
        was_held
    }
}

/// The pixels of a mapped frame without the padding of its rows: byte `k` of
/// the result is byte `k % row` of row `k / row` of the mapped memory, whose
/// rows lie `pitch` bytes apart.
pub open spec fn packed_rows(mapped: Seq<u8>, pitch: int, row: int, height: int) -> Seq<u8> {
    Seq::new((row * height) as nat, |k: int| mapped[(k / row) * pitch + k % row])
}

/// Whether mapped memory of `len` bytes holds `height` rows of `row` bytes
/// that lie `pitch` bytes apart.
pub open spec fn rows_fit(len: int, pitch: int, row: int, height: int) -> bool {
    row <= pitch && (height > 0 ==> (height - 1) * pitch + row <= len)
}

/// Copies the pixels of a mapped frame of `width` by `height` pixels into a
/// packed buffer. `None` exactly where the mapped memory is too short for
/// such a frame, or the frame too large for this machine's memory.
pub fn pack_rows(mapped: &[u8], pitch: usize, width: u32, height: u32) -> (packed: Option<Vec<u8>>)
    ensures
        match packed {
            Some(pixels) => rows_fit(
                mapped@.len() as int,
                pitch as int,
                width * BYTES_PER_PIXEL,
                height as int,
            ) && pixels@ == packed_rows(
                mapped@,
                pitch as int,
                width * BYTES_PER_PIXEL,
                height as int,
            ),
            None => !rows_fit(
                mapped@.len() as int,
                pitch as int,
                width * BYTES_PER_PIXEL,
                height as int,
            ) || width * BYTES_PER_PIXEL * height > usize::MAX,
        },
{
    let row: u64 = width as u64 * 4;
    let len: usize = mapped.len();
    if row > pitch as u64 {
        return None;
    }
    assert(row * height <= 0x4_0000_0000u64 * 0x1_0000_0000u64) by (nonlinear_arith)
        requires
            row <= 0x4_0000_0000u64,
            height <= 0xFFFF_FFFFu32,
    ;
    let total: u128 = row as u128 * height as u128;
    if total > usize::MAX as u128 {
        return None;
    }
    if height > 0 {
        assert((height - 1) * pitch <= 0xFFFF_FFFFu64 * 0xFFFF_FFFF_FFFF_FFFFu64)
            by (nonlinear_arith)
            requires
                height <= 0xFFFF_FFFFu32,
                pitch <= 0xFFFF_FFFF_FFFF_FFFFu64,
        ;
        let last: u128 = (height as u128 - 1) * pitch as u128 + row as u128;
        if last > len as u128 {
            return None;
        }
    }
    let row: usize = row as usize;
    let rows: usize = height as usize;
    let mut pixels: Vec<u8> = Vec::new();
    let mut y: usize = 0;
    while y < rows
        invariant
            y <= rows,
            rows == height,
            row == width * BYTES_PER_PIXEL,
            row <= pitch,
            len == mapped@.len(),
            rows > 0 ==> (rows - 1) * pitch + row <= len,
            row * rows <= usize::MAX,
            pixels@.len() == y * row,
            forall|k: int|
                0 <= k < pixels@.len() ==> pixels@[k] == mapped@[(k / (row as int)) * pitch + k % (
                row as int)],
        decreases rows - y,
    {
        proof {
            lemma_row_start(y as int, rows as int, pitch as int, row as int);
        }
        let base: usize = y * pitch;
        let mut i: usize = 0;
        while i < row
            invariant
                i <= row,
                y < rows,
                row <= pitch,
                len == mapped@.len(),
                base == y * pitch,
                base + row <= len,
                row * rows <= usize::MAX,
                (y + 1) * row <= row * rows,
                pixels@.len() == y * row + i,
                forall|k: int|
                    0 <= k < pixels@.len() ==> pixels@[k] == mapped@[(k / (row as int)) * pitch + k
                        % (row as int)],
            decreases row - i,
        {
            proof {
                lemma_fundamental_div_mod_converse(y * row + i, row as int, y as int, i as int);
            }
            pixels.push(mapped[base + i]);
            i = i + 1;
        }
        assert(y * row + row == (y + 1) * row) by (nonlinear_arith);
        y = y + 1;
    }
    assert(pixels@.len() == row * rows) by (nonlinear_arith)
        requires
            pixels@.len() == y * row,
            y == rows,
    ;
    assert(pixels@ =~= packed_rows(mapped@, pitch as int, row as int, height as int));
    Some(pixels)
}

/// Row `y` of a frame that fits its mapped memory starts and ends within
/// that memory, and the rows up to it within the packed buffer.
proof fn lemma_row_start(y: int, rows: int, pitch: int, row: int)
    requires
        0 <= y < rows,
        0 <= row <= pitch,
    ensures
        0 <= y * pitch <= (rows - 1) * pitch,
        (y + 1) * row <= row * rows,
        0 <= y * row,
{
    assert(0 <= y * pitch <= (rows - 1) * pitch) by (nonlinear_arith)
        requires
            0 <= y <= rows - 1,
            0 <= pitch,
    ;
    assert((y + 1) * row <= row * rows) by (nonlinear_arith)
        requires
            0 <= y + 1 <= rows,
            0 <= row,
    ;
    assert(0 <= y * row) by (nonlinear_arith)
        requires
            0 <= y,
            0 <= row,
    ;
}

} // verus!
