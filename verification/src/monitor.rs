//! The displays that the host enumerated: position, size and refresh rate.

use vstd::prelude::*;

verus! {

/// The refresh rate assumed for a display whose rate is unknown, in hertz.
pub const DEFAULT_REFRESH_RATE: u32 = 60;

/// Position, size and refresh rate of one display.
#[derive(Clone, Copy, Debug)]
pub struct MonitorRect {
    pub pos: (i32, i32),
    pub size: (i32, i32),
    pub refresh_rate: u32,
}

/// Why a display could not be chosen.
#[derive(Clone, Copy, Debug, PartialEq, Eq, Structural)]
pub enum MonitorError {
    /// The index is not below the number of displays.
    OutOfRange { index: usize, count: usize },
}

/// An extent that fits an `i32`: `x` itself, or the nearest bound.
pub open spec fn clamp_i32(x: int) -> int {
    if x < i32::MIN {
        i32::MIN as int
    } else if x > i32::MAX {
        i32::MAX as int
    } else {
        x
    }
}

/// The difference of two coordinates, kept within `i32`.
pub fn extent(low: i32, high: i32) -> (e: i32)
    ensures
        e == clamp_i32(high - low),
{
    let d: i64 = high as i64 - low as i64;
    if d < i32::MIN as i64 {
        i32::MIN
    } else if d > i32::MAX as i64 {
        i32::MAX
    } else {
        d as i32
    }
}

impl MonitorRect {
    /// The display with the given bounds. Its refresh rate is `frequency`,
    /// or the default where the host could not tell.
    pub fn from_bounds(left: i32, top: i32, right: i32, bottom: i32, frequency: Option<u32>) -> (rect:
        MonitorRect)
        ensures
            rect.pos == (left, top),
            rect.size.0 == clamp_i32(right - left),
            rect.size.1 == clamp_i32(bottom - top),
            rect.refresh_rate == match frequency {
                Some(hz) => hz,
                None => DEFAULT_REFRESH_RATE,
            },
    {
        MonitorRect {
            pos: (left, top),
            size: (extent(left, right), extent(top, bottom)),
            refresh_rate: match frequency {
                Some(hz) => hz,
                None => DEFAULT_REFRESH_RATE,
            },
        }
    }

    /// Width of the display in pixels; zero for a negative extent.
    pub open spec fn spec_width(&self) -> u32 {
        if self.size.0 > 0 {
            self.size.0 as u32
        } else {
            0
        }
    }

    /// Height of the display in pixels; zero for a negative extent.
    pub open spec fn spec_height(&self) -> u32 {
        if self.size.1 > 0 {
            self.size.1 as u32
        } else {
            0
        }
    }

    /// Width of the display in pixels; zero for a negative extent.
    pub fn width(&self) -> (w: u32)
        ensures
            w == self.spec_width(),
    {
        if self.size.0 > 0 {
            self.size.0 as u32
        } else {
            0
        }
    }

    /// Height of the display in pixels; zero for a negative extent.
    pub fn height(&self) -> (h: u32)
        ensures
            h == self.spec_height(),
    {
        if self.size.1 > 0 {
            self.size.1 as u32
        } else {
            0
        }
    }
}

/// The display at `monitor_index` of the enumerated displays; an index past
/// the last display is refused.
pub fn get_monitor_info(monitors: &Vec<MonitorRect>, monitor_index: usize) -> (res: Result<
    MonitorRect,
    MonitorError,
>)
    ensures
        monitor_index < monitors@.len() ==> res == Ok::<MonitorRect, MonitorError>(
            monitors@[monitor_index as int],
        ),
        monitor_index >= monitors@.len() ==> res == Err::<MonitorRect, MonitorError>(
            MonitorError::OutOfRange { index: monitor_index, count: monitors@.len() as usize },
        ),
{
    if monitor_index < monitors.len() {
        Ok(monitors[monitor_index])
    } else {
        Err(MonitorError::OutOfRange { index: monitor_index, count: monitors.len() })
    }
}

/// Position and size of the display at `monitor_index`.
pub fn get_monitor_rect(monitors: &Vec<MonitorRect>, monitor_index: usize) -> (res: Result<
    ((i32, i32), (i32, i32)),
    MonitorError,
>)
    ensures
        monitor_index < monitors@.len() ==> res == Ok::<((i32, i32), (i32, i32)), MonitorError>(
            (monitors@[monitor_index as int].pos, monitors@[monitor_index as int].size),
        ),
        monitor_index >= monitors@.len() ==> res == Err::<((i32, i32), (i32, i32)), MonitorError>(
            MonitorError::OutOfRange { index: monitor_index, count: monitors@.len() as usize },
        ),
{
    match get_monitor_info(monitors, monitor_index) {
        Ok(info) => Ok((info.pos, info.size)),
        Err(e) => Err(e),
    }
}

} // verus!
