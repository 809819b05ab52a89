//! Monitors and the plain geometry that is computed from them.

use crate::error::DomainError;
use crate::ratio::Ratio;
use vstd::prelude::*;

verus! {

/// A width and a height, in pixels.
#[derive(Clone, Copy, Debug, PartialEq, Eq, Structural)]
pub struct Size {
    pub width: u32,
    pub height: u32,
}

/// A rectangle of pixels: its top left corner and its extent.
#[derive(Clone, Copy, Debug, PartialEq, Eq, Structural)]
pub struct Rect {
    pub x: u32,
    pub y: u32,
    pub width: u32,
    pub height: u32,
}

impl Rect {
    /// The rectangle lies inside a picture of the given extent.
    pub open spec fn fits(self, width: int, height: int) -> bool {
        self.x + self.width <= width && self.y + self.height <= height
    }

    /// Whether the rectangle lies inside a picture of the given extent.
    pub fn fits_within(&self, width: u32, height: u32) -> (inside: bool)
        ensures
            inside == self.fits(width as int, height as int),
    {
        self.x as u64 + self.width as u64 <= width as u64 && self.y as u64 + self.height as u64
            <= height as u64
    }
}

/// One physical display.
#[derive(Clone, Debug, PartialEq, Eq)]
pub struct Monitor {
    /// The name by which the display server knows the output.
    pub name: String,
    /// Active resolution, in pixels.
    pub pixel_width: u32,
    pub pixel_height: u32,
    /// Physical size, in millimetres.
    pub physical_width: u32,
    pub physical_height: u32,
    /// Origin within the virtual screen.
    pub x: u32,
    pub y: u32,
    /// The gap to compensate at this monitor, in pixels of the canvas.
    pub bezel_x: u32,
    pub bezel_y: u32,
}

/// What a monitor holds, with its name as a sequence of characters.
pub struct MonitorModel {
    pub name: Seq<char>,
    pub pixel_width: u32,
    pub pixel_height: u32,
    pub physical_width: u32,
    pub physical_height: u32,
    pub x: u32,
    pub y: u32,
    pub bezel_x: u32,
    pub bezel_y: u32,
}

impl MonitorModel {
    /// The monitor has a resolution and a physical height.
    pub open spec fn valid(self) -> bool {
        self.pixel_width > 0 && self.pixel_height > 0 && self.physical_height > 0
    }
}

impl View for Monitor {
    type V = MonitorModel;

    open spec fn view(&self) -> MonitorModel {
        MonitorModel {
            name: self.name@,
            pixel_width: self.pixel_width,
            pixel_height: self.pixel_height,
            physical_width: self.physical_width,
            physical_height: self.physical_height,
            x: self.x,
            y: self.y,
            bezel_x: self.bezel_x,
            bezel_y: self.bezel_y,
        }
    }
}

/// The models of a list of monitors, in order.
pub open spec fn models(monitors: Seq<Monitor>) -> Seq<MonitorModel> {
    Seq::new(monitors.len(), |i: int| monitors[i]@)
}

/// Every monitor of the list is valid.
pub open spec fn all_valid(monitors: Seq<Monitor>) -> bool {
    forall|i: int| 0 <= i < monitors.len() ==> (#[trigger] monitors[i]).spec_valid()
}

impl Monitor {
    /// The monitor has a resolution and a physical height: its pixel density
    /// is a positive number.
    pub open spec fn spec_valid(&self) -> bool {
        self@.valid()
    }

    /// Builds a monitor, or refuses with `InvalidMonitor` one that has no
    /// resolution or no physical height.
    pub fn new(
        name: String,
        pixel_width: u32,
        pixel_height: u32,
        physical_width: u32,
        physical_height: u32,
        x: u32,
        y: u32,
        bezel_x: u32,
        bezel_y: u32,
    ) -> (out: Result<Monitor, DomainError>)
        ensures
            out.is_ok() <==> pixel_width > 0 && pixel_height > 0 && physical_height > 0,
            out.is_err() ==> out == Err::<Monitor, DomainError>(DomainError::InvalidMonitor),
            out.is_ok() ==> out.unwrap()@ == (MonitorModel {
                name: name@,
                pixel_width,
                pixel_height,
                physical_width,
                physical_height,
                x,
                y,
                bezel_x,
                bezel_y,
            }),
    {
        if pixel_width == 0 || pixel_height == 0 || physical_height == 0 {
            return Err(DomainError::InvalidMonitor);
        }
        Ok(
            Monitor {
                name,
                pixel_width,
                pixel_height,
                physical_width,
                physical_height,
                x,
                y,
                bezel_x,
                bezel_y,
            },
        )
    }

    /// Whether the monitor has a resolution and a physical height.
    pub fn is_valid(&self) -> (valid: bool)
        ensures
            valid == self.spec_valid(),
    {
        self.pixel_width > 0 && self.pixel_height > 0 && self.physical_height > 0
    }

    /// The monitor's pixel density: pixels of height per millimetre of height.
    pub open spec fn spec_dpi(&self) -> Ratio {
        Ratio { num: self.pixel_height as u64, den: self.physical_height as u64 }
    }

    /// The monitor's pixel density, as an exact fraction. For a valid monitor
    /// it is a positive number.
    pub fn dpi(&self) -> (density: Ratio)
        ensures
            density == self.spec_dpi(),
            self.spec_valid() ==> density.wf() && density.num > 0,
    {
        Ratio { num: self.pixel_height as u64, den: self.physical_height as u64 }
    }
}

} // verus!
