//! Planning the shared canvas and each monitor's crop rectangles.
//!
//! The canvas is as wide as all monitors side by side, each with its bezel on
//! both sides, and as high as the highest monitor with its bezel. A monitor's
//! slice is cut from the canvas at the monitor's own position, enlarged by
//! the monitor's scaling factor, and cut again to the monitor's resolution.
//! The second cut is shifted to the right by the monitor's own bezel and by
//! the bezel of the monitor just before it, and no further: bezels of
//! earlier monitors do not add up.

use crate::dpi::{
    factor_of, is_reference, lemma_factors_at_least_one, normalize, scaling_factors, Normalization,
};
use crate::error::DomainError;
use crate::monitor::{all_valid, Monitor, Rect, Size};
use crate::ratio::Ratio;
use vstd::prelude::*;

verus! {

/// How one monitor's picture is made from the canvas.
#[derive(Clone, Copy, Debug, PartialEq, Eq, Structural)]
pub struct CropPlan {
    /// The factor by which the first cut is enlarged.
    pub scaling_factor: Ratio,
    /// The first cut, taken from the canvas.
    pub source_crop: Rect,
    /// The second cut, taken from the enlarged first cut.
    pub post_scale_crop: Rect,
    /// The extent of the monitor's picture: the monitor's resolution.
    pub output_size: Size,
}

/// The canvas and the monitors' plans, in the order of the monitors.
#[derive(Clone, Debug, PartialEq, Eq)]
pub struct Layout {
    pub canvas: Size,
    pub crops: Vec<CropPlan>,
}

/// The width that a monitor takes on the canvas: its own and its bezel twice.
pub open spec fn slot_width(m: Monitor) -> int {
    m.pixel_width + 2 * m.bezel_x
}

/// The height that a monitor needs on the canvas: its own and its bezel.
pub open spec fn slot_height(m: Monitor) -> int {
    m.pixel_height + m.bezel_y
}

/// The canvas's width: the sum of the monitors' slot widths.
pub open spec fn canvas_width(monitors: Seq<Monitor>) -> int
    decreases monitors.len(),
{
    if monitors.len() == 0 {
        0
    } else {
        canvas_width(monitors.drop_last()) + slot_width(monitors.last())
    }
}

/// The canvas's height: the greatest of the monitors' slot heights, and 0 for
/// no monitors.
pub open spec fn canvas_height(monitors: Seq<Monitor>) -> int
    decreases monitors.len(),
{
    if monitors.len() == 0 {
        0
    } else {
        let before = canvas_height(monitors.drop_last());
        let here = slot_height(monitors.last());
        if here > before {
            here
        } else {
            before
        }
    }
}

/// The sum of the monitors' pixel widths.
pub open spec fn total_pixel_width(monitors: Seq<Monitor>) -> int
    decreases monitors.len(),
{
    if monitors.len() == 0 {
        0
    } else {
        total_pixel_width(monitors.drop_last()) + monitors.last().pixel_width
    }
}

/// The sum of the monitors' horizontal bezels.
pub open spec fn total_bezel_x(monitors: Seq<Monitor>) -> int
    decreases monitors.len(),
{
    if monitors.len() == 0 {
        0
    } else {
        total_bezel_x(monitors.drop_last()) + monitors.last().bezel_x
    }
}

/// The bezel carried over to the monitor at `i`: that of the monitor just
/// before it, and 0 for the first.
pub open spec fn carried_bezel(monitors: Seq<Monitor>, i: int) -> int {
    if 0 < i <= monitors.len() {
        monitors[i - 1].bezel_x as int
    } else {
        0
    }
}

/// Where the second cut of the monitor at `i` begins, from the left.
pub open spec fn post_scale_x(monitors: Seq<Monitor>, i: int) -> int {
    carried_bezel(monitors, i) + monitors[i].bezel_x
}

/// Where the second cut of a monitor begins, from the top.
pub open spec fn post_scale_y(m: Monitor, factor: Ratio) -> int {
    factor.floor_of(m.y as int) + m.bezel_y
}

/// The plan of the monitor at `i` can be written down: its factor is a number
/// and the corner of its second cut is a pixel coordinate.
pub open spec fn crop_representable(monitors: Seq<Monitor>, factors: Seq<Ratio>, i: int) -> bool {
    &&& factors[i].wf()
    &&& post_scale_x(monitors, i) <= u32::MAX
    &&& post_scale_y(monitors[i], factors[i]) <= u32::MAX
}

/// The canvas and every plan can be written down.
pub open spec fn plan_representable(monitors: Seq<Monitor>, factors: Seq<Ratio>) -> bool {
    &&& canvas_width(monitors) <= u32::MAX
    &&& canvas_height(monitors) <= u32::MAX
    &&& forall|i: int| 0 <= i < monitors.len() ==> crop_representable(monitors, factors, i)
}

/// The plan of the monitor at `i`.
pub open spec fn crop_plan(monitors: Seq<Monitor>, factors: Seq<Ratio>, i: int) -> CropPlan {
    let m = monitors[i];
    CropPlan {
        scaling_factor: factors[i],
        source_crop: Rect { x: m.x, y: m.y, width: m.pixel_width, height: m.pixel_height },
        post_scale_crop: Rect {
            x: post_scale_x(monitors, i) as u32,
            y: post_scale_y(m, factors[i]) as u32,
            width: m.pixel_width,
            height: m.pixel_height,
        },
        output_size: Size { width: m.pixel_width, height: m.pixel_height },
    }
}

/// The plans of all monitors, in order.
pub open spec fn planned_crops(monitors: Seq<Monitor>, factors: Seq<Ratio>) -> Seq<CropPlan> {
    Seq::new(monitors.len(), |i: int| crop_plan(monitors, factors, i))
}

/// The canvas of the monitors.
pub open spec fn planned_canvas(monitors: Seq<Monitor>) -> Size {
    Size { width: canvas_width(monitors) as u32, height: canvas_height(monitors) as u32 }
}

impl Layout {
    /// This is the layout of `monitors` with the scaling factors `factors`.
    pub open spec fn describes(&self, monitors: Seq<Monitor>, factors: Seq<Ratio>) -> bool {
        &&& self.canvas.width == canvas_width(monitors)
        &&& self.canvas.height == canvas_height(monitors)
        &&& self.canvas == planned_canvas(monitors)
        &&& self.crops@ == planned_crops(monitors, factors)
    }
}

/// The canvas's width is the sum of the pixel widths and twice the sum of the
/// horizontal bezels.
pub proof fn lemma_canvas_width_sum(monitors: Seq<Monitor>)
    ensures
        canvas_width(monitors) == total_pixel_width(monitors) + 2 * total_bezel_x(monitors),
    decreases monitors.len(),
{
    if monitors.len() > 0 {
        lemma_canvas_width_sum(monitors.drop_last());
    }
}

/// The canvas's height is the greatest slot height: no monitor's slot is
/// higher, and where there is a monitor, one monitor's slot is as high.
pub proof fn lemma_canvas_height_max(monitors: Seq<Monitor>)
    ensures
        forall|i: int|
            0 <= i < monitors.len() ==> slot_height(#[trigger] monitors[i]) <= canvas_height(
                monitors,
            ),
        monitors.len() > 0 ==> exists|i: int|
            0 <= i < monitors.len() && slot_height(#[trigger] monitors[i]) == canvas_height(
                monitors,
            ),
        monitors.len() == 0 ==> canvas_height(monitors) == 0,
    decreases monitors.len(),
{
    if monitors.len() > 0 {
        let before = monitors.drop_last();
        lemma_canvas_height_max(before);
        assert forall|i: int| 0 <= i < monitors.len() implies slot_height(#[trigger] monitors[i])
            <= canvas_height(monitors) by {
            if i < before.len() {
                assert(before[i] == monitors[i]);
            }
        }
        if slot_height(monitors.last()) > canvas_height(before) || before.len() == 0 {
            assert(slot_height(monitors[monitors.len() - 1]) == canvas_height(monitors));
        } else {
            let i = choose|i: int|
                0 <= i < before.len() && slot_height(#[trigger] before[i]) == canvas_height(before);
            assert(before[i] == monitors[i]);
            assert(slot_height(monitors[i]) == canvas_height(monitors));
        }
    }
}

/// The canvas of the first `k` monitors is not larger than that of all.
pub proof fn lemma_canvas_grows(monitors: Seq<Monitor>, k: int)
    requires
        0 <= k <= monitors.len(),
    ensures
        0 <= canvas_width(monitors.take(k)) <= canvas_width(monitors),
        0 <= canvas_height(monitors.take(k)) <= canvas_height(monitors),
    decreases monitors.len() - k,
{
    if k == monitors.len() {
        assert(monitors.take(k) =~= monitors);
        lemma_canvas_nonnegative(monitors);
    } else {
        lemma_canvas_grows(monitors, k + 1);
        assert(monitors.take(k + 1).drop_last() =~= monitors.take(k));
        lemma_canvas_nonnegative(monitors.take(k));
    }
}

/// A canvas has no negative extent.
pub proof fn lemma_canvas_nonnegative(monitors: Seq<Monitor>)
    ensures
        canvas_width(monitors) >= 0,
        canvas_height(monitors) >= 0,
    decreases monitors.len(),
{
    if monitors.len() > 0 {
        lemma_canvas_nonnegative(monitors.drop_last());
    }
}

/// With a single valid monitor, that monitor is the reference, its factor is
/// exactly one, nothing is carried over to it, and its second cut begins at
/// its own bezel and position.
pub proof fn lemma_single_monitor_plan(monitors: Seq<Monitor>)
    requires
        monitors.len() == 1,
        all_valid(monitors),
    ensures
        is_reference(monitors, 0),
        factor_of(monitors[0], monitors[0]).is_one(),
        carried_bezel(monitors, 0) == 0,
        post_scale_x(monitors, 0) == monitors[0].bezel_x,
        post_scale_y(monitors[0], factor_of(monitors[0], monitors[0])) == monitors[0].y
            + monitors[0].bezel_y,
{
    crate::dpi::lemma_single_monitor(monitors);
    let m = monitors[0];
    let f = factor_of(m, m);
    lemma_factors_at_least_one(monitors, 0, 0);
    let n = f.num as int;
    let y = m.y as int;
    assert((y * n) / n == y) by (nonlinear_arith)
        requires
            n > 0,
    ;
}

/// The second cut of a monitor that is not the first begins at the bezel of
/// the monitor just before it plus its own, whatever the bezels of earlier
/// monitors are.
pub proof fn lemma_bezel_not_cumulative(monitors: Seq<Monitor>, i: int)
    requires
        0 < i < monitors.len(),
    ensures
        post_scale_x(monitors, i) == monitors[i - 1].bezel_x + monitors[i].bezel_x,
{
}

/// Two layouts of the same monitors with the same factors have the same
/// canvas and the same plans.
pub proof fn lemma_layout_determined(
    monitors: Seq<Monitor>,
    factors: Seq<Ratio>,
    a: Layout,
    b: Layout,
)
    requires
        a.describes(monitors, factors),
        b.describes(monitors, factors),
    ensures
        a.canvas == b.canvas,
        a.crops@ == b.crops@,
{
}

/// The canvas of a list of monitors, or `None` where its width or height is
/// past the largest pixel coordinate.
pub fn canvas_size(monitors: &Vec<Monitor>) -> (out: Option<Size>)
    ensures
        out.is_some() <==> canvas_width(monitors@) <= u32::MAX && canvas_height(monitors@)
            <= u32::MAX,
        out.is_some() ==> out.unwrap().width == canvas_width(monitors@) && out.unwrap().height
            == canvas_height(monitors@),
{
    let mut width: u64 = 0;
    let mut height: u64 = 0;
    let mut i: usize = 0;
    proof {
        assert(monitors@.take(0) =~= Seq::<Monitor>::empty());
    }
    while i < monitors.len()
        invariant
            i <= monitors@.len(),
            width == canvas_width(monitors@.take(i as int)),
            height == canvas_height(monitors@.take(i as int)),
            width <= u32::MAX,
            height <= u32::MAX,
        decreases monitors@.len() - i,
    {
        let m = &monitors[i];
        proof {
            assert(monitors@.take(i + 1).drop_last() =~= monitors@.take(i as int));
            assert(monitors@.take(i + 1).last() == monitors@[i as int]);
            lemma_canvas_grows(monitors@, i + 1);
        }
        width = width + m.pixel_width as u64 + 2 * (m.bezel_x as u64);
        let here: u64 = m.pixel_height as u64 + m.bezel_y as u64;
        if here > height {
            height = here;
        }
        if width > u32::MAX as u64 || height > u32::MAX as u64 {
            return None;
        }
        i += 1;
    }
    proof {
        assert(monitors@.take(i as int) =~= monitors@);
    }
    Some(Size { width: width as u32, height: height as u32 })
}

/// Plans the canvas and each monitor's two cuts, for monitors in their order
/// from left to right and one scaling factor for each.
///
/// Fails with `CropOutOfBounds` exactly where the plan cannot be written
/// down: the canvas, or the corner of a second cut, is past the largest pixel
/// coordinate, or a factor has no denominator.
pub fn plan(monitors: &Vec<Monitor>, factors: &Vec<Ratio>) -> (out: Result<Layout, DomainError>)
    requires
        factors@.len() == monitors@.len(),
    ensures
        out.is_ok() <==> plan_representable(monitors@, factors@),
        out.is_err() ==> out == Err::<Layout, DomainError>(DomainError::CropOutOfBounds),
        out.is_ok() ==> out.unwrap().describes(monitors@, factors@),
        out.is_ok() ==> forall|i: int|
            0 <= i < monitors@.len() ==> (#[trigger] out.unwrap().crops@[i]).output_size == (Size {
                width: monitors@[i].pixel_width,
                height: monitors@[i].pixel_height,
            }),
{
    let canvas = match canvas_size(monitors) {
        Some(canvas) => canvas,
        None => {
            return Err(DomainError::CropOutOfBounds);
        },
    };
    let mut crops: Vec<CropPlan> = Vec::new();
    let mut carried: u32 = 0;
    let mut i: usize = 0;
    while i < monitors.len()
        invariant
            factors@.len() == monitors@.len(),
            i <= monitors@.len(),
            carried == carried_bezel(monitors@, i as int),
            crops@.len() == i,
            forall|j: int| 0 <= j < i ==> crop_representable(monitors@, factors@, j),
            forall|j: int|
                0 <= j < i ==> #[trigger] crops@[j] == crop_plan(monitors@, factors@, j),
        decreases monitors@.len() - i,
    {
        let m = &monitors[i];
        let factor = factors[i];
        let x: u64 = carried as u64 + m.bezel_x as u64;
        let scaled_y = match factor.apply(m.y) {
            Some(scaled_y) => scaled_y,
            None => {
                assert(!crop_representable(monitors@, factors@, i as int));
                return Err(DomainError::CropOutOfBounds);
            },
        };
        let y: u64 = scaled_y as u64 + m.bezel_y as u64;
        if x > u32::MAX as u64 || y > u32::MAX as u64 {
            assert(!crop_representable(monitors@, factors@, i as int));
            return Err(DomainError::CropOutOfBounds);
        }
        crops.push(
            CropPlan {
                scaling_factor: factor,
                source_crop: Rect {
                    x: m.x,
                    y: m.y,
                    width: m.pixel_width,
                    height: m.pixel_height,
                },
                post_scale_crop: Rect {
                    x: x as u32,
                    y: y as u32,
                    width: m.pixel_width,
                    height: m.pixel_height,
                },
                output_size: Size { width: m.pixel_width, height: m.pixel_height },
            },
        );
        carried = m.bezel_x;
        i += 1;
    }
    proof {
        assert(crops@ =~= planned_crops(monitors@, factors@));
    }
    Ok(Layout { canvas, crops })
}

/// Normalises the monitors' densities and plans their layout.
///
/// Fails with `EmptyMonitorSet` on an empty list, else with `InvalidMonitor`
/// where a monitor has no physical height or no resolution, else with
/// `CropOutOfBounds` where the plan cannot be written down.
pub fn arrange(monitors: &Vec<Monitor>) -> (out: Result<(Normalization, Layout), DomainError>)
    ensures
        out.is_ok() <==> monitors@.len() > 0 && all_valid(monitors@) && plan_representable(
            monitors@,
            scaling_factors(monitors@),
        ),
        out.is_ok() ==> out.unwrap().0.describes(monitors@) && out.unwrap().1.describes(
            monitors@,
            scaling_factors(monitors@),
        ),
        out.is_err() ==> out.unwrap_err() == (if monitors@.len() == 0 {
            DomainError::EmptyMonitorSet
        } else if !all_valid(monitors@) {
            DomainError::InvalidMonitor
        } else {
            DomainError::CropOutOfBounds
        }),
{
    let normal = match normalize(monitors) {
        Ok(normal) => normal,
        Err(e) => {
            return Err(e);
        },
    };
    match plan(monitors, &normal.factors) {
        Ok(layout) => Ok((normal, layout)),
        Err(e) => Err(e),
    }
}

} // verus!
