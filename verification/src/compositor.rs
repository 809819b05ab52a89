//! Carrying out a layout on a picture.
//!
//! The picture is first brought to the extent of the canvas. Then, for each
//! monitor in order, the monitor's first cut is taken from the canvas,
//! enlarged by the monitor's scaling factor, and cut a second time to the
//! monitor's resolution.

use crate::dpi::scaling_factors;
use crate::error::DomainError;
use crate::layout::{arrange, plan_representable, planned_canvas, planned_crops, CropPlan};
use crate::monitor::{all_valid, Monitor, Rect, Size};
use crate::raster::{
    crop, crop_pixels, resample_supported, resampling_gives, resize_to_fill, Raster,
};
use crate::ratio::{fraction_floor, scaled_floor_by, Ratio};
use vstd::prelude::*;

verus! {

/// A transformation of the whole picture before it is laid out: the picture
/// is resampled to `scale` times the canvas, and the canvas is cut from it
/// at `left` and `top`.
#[derive(Clone, Copy, Debug, PartialEq, Eq, Structural)]
pub struct GlobalTransform {
    pub scale: Ratio,
    pub top: u32,
    pub left: u32,
}

/// The extent to which a picture of `w` by `h` pixels is resampled under a
/// global scale. A canvas higher than wide fixes the height, `scale` times
/// the canvas's; any other canvas fixes the width. The other side follows
/// from the picture's proportions. Both are rounded down.
pub open spec fn transform_target(canvas: Size, w: int, h: int, scale: Ratio) -> (int, int) {
    if canvas.height > canvas.width {
        (
            scaled_floor_by(canvas.height as int, scale.num as int, w, scale.den as int, h),
            scaled_floor_by(canvas.height as int, scale.num as int, 1, scale.den as int, 1),
        )
    } else {
        (
            scaled_floor_by(canvas.width as int, scale.num as int, 1, scale.den as int, 1),
            scaled_floor_by(canvas.width as int, scale.num as int, h, scale.den as int, w),
        )
    }
}

/// The canvas can be made from a picture of `w` by `h` pixels.
pub open spec fn canvas_preparable(
    w: int,
    h: int,
    canvas: Size,
    transform: Option<GlobalTransform>,
) -> bool {
    match transform {
        None => resample_supported(w, h, canvas.width as int, canvas.height as int),
        Some(t) => {
            let target = transform_target(canvas, w, h, t.scale);
            &&& t.scale.wf()
            &&& w > 0
            &&& h > 0
            &&& target.0 <= u32::MAX
            &&& target.1 <= u32::MAX
            &&& resample_supported(w, h, target.0, target.1)
            &&& t.left + canvas.width <= target.0
            &&& t.top + canvas.height <= target.1
        },
    }
}

/// The rectangle that a transformation cuts from the resampled picture.
pub open spec fn transform_window(canvas: Size, t: GlobalTransform) -> Rect {
    Rect { x: t.left, y: t.top, width: canvas.width, height: canvas.height }
}

/// `made` is the data of a canvas made from the picture `source`. Without a
/// transformation it is what resampling the picture to the canvas gives.
/// With one, it is cut, at the transformation's offset, from what resampling
/// the picture to the transformation's extent gives.
pub open spec fn is_canvas_of(
    source: Raster,
    canvas: Size,
    transform: Option<GlobalTransform>,
    made: Seq<u8>,
) -> bool {
    match transform {
        None => resampling_gives(
            source.pixels@,
            source.width,
            source.height,
            canvas.width,
            canvas.height,
            made,
        ),
        Some(t) => {
            let target = transform_target(
                canvas,
                source.width as int,
                source.height as int,
                t.scale,
            );
            exists|resampled: Seq<u8>|
                #[trigger] resampling_gives(
                    source.pixels@,
                    source.width,
                    source.height,
                    target.0 as u32,
                    target.1 as u32,
                    resampled,
                ) && made == crop_pixels(resampled, target.0, transform_window(canvas, t))
        },
    }
}

/// `made` is the data of the monitor's picture for `plan` on `canvas`: the
/// second cut of a picture that resampling the first cut to the enlarged
/// extent gives.
pub open spec fn is_monitor_picture(canvas: Raster, plan: CropPlan, made: Seq<u8>) -> bool {
    let tw = plan.scaling_factor.floor_of(plan.source_crop.width as int);
    let th = plan.scaling_factor.floor_of(plan.source_crop.height as int);
    exists|enlarged: Seq<u8>|
        #[trigger] resampling_gives(
            crop_pixels(canvas.pixels@, canvas.width as int, plan.source_crop),
            plan.source_crop.width,
            plan.source_crop.height,
            tw as u32,
            th as u32,
            enlarged,
        ) && made == crop_pixels(enlarged, tw, plan.post_scale_crop)
}

/// The plan enlarges nothing: the enlarged extent is that of the first cut.
pub open spec fn unscaled(plan: CropPlan) -> bool {
    &&& plan.scaling_factor.floor_of(plan.source_crop.width as int) == plan.source_crop.width
    &&& plan.scaling_factor.floor_of(plan.source_crop.height as int) == plan.source_crop.height
}

/// The plan can be carried out on a canvas of `w` by `h` pixels: the first
/// cut lies inside the canvas, the cut can be enlarged by the factor, the
/// second cut lies inside the enlarged picture and has the extent of the
/// monitor's picture.
pub open spec fn composable(w: int, h: int, plan: CropPlan) -> bool {
    let tw = plan.scaling_factor.floor_of(plan.source_crop.width as int);
    let th = plan.scaling_factor.floor_of(plan.source_crop.height as int);
    &&& plan.source_crop.fits(w, h)
    &&& plan.scaling_factor.wf()
    &&& tw <= u32::MAX
    &&& th <= u32::MAX
    &&& resample_supported(
        plan.source_crop.width as int,
        plan.source_crop.height as int,
        tw,
        th,
    )
    &&& plan.post_scale_crop.fits(tw, th)
    &&& plan.post_scale_crop.width == plan.output_size.width
    &&& plan.post_scale_crop.height == plan.output_size.height
}

/// Every plan of the list can be carried out on a canvas of `w` by `h`.
pub open spec fn all_composable(w: int, h: int, crops: Seq<CropPlan>) -> bool {
    forall|i: int| 0 <= i < crops.len() ==> composable(w, h, #[trigger] crops[i])
}

/// The extent to which a picture is resampled under a global scale, or
/// nothing where the scale has no denominator, the picture is empty or the
/// extent is past pixel coordinates.
pub fn transform_extent(canvas: Size, source: Size, scale: Ratio) -> (out: Option<Size>)
    ensures
        out.is_some() <==> scale.wf() && source.width > 0 && source.height > 0
            && transform_target(canvas, source.width as int, source.height as int, scale).0
            <= u32::MAX && transform_target(
            canvas,
            source.width as int,
            source.height as int,
            scale,
        ).1 <= u32::MAX,
        out.is_some() ==> out.unwrap().width == transform_target(
            canvas,
            source.width as int,
            source.height as int,
            scale,
        ).0 && out.unwrap().height == transform_target(
            canvas,
            source.width as int,
            source.height as int,
            scale,
        ).1,
{
    if source.width == 0 || source.height == 0 {
        return None;
    }
    let (width, height) = if canvas.height > canvas.width {
        (
            fraction_floor(canvas.height, scale.num, source.width, scale.den, source.height),
            fraction_floor(canvas.height, scale.num, 1, scale.den, 1),
        )
    } else {
        (
            fraction_floor(canvas.width, scale.num, 1, scale.den, 1),
            fraction_floor(canvas.width, scale.num, source.height, scale.den, source.width),
        )
    };
    match (width, height) {
        (Some(width), Some(height)) => Some(Size { width, height }),
        _ => None,
    }
}

/// Brings a picture to the extent of the canvas. Without a transformation
/// the picture is resampled to fill the canvas. With one, it is resampled to
/// fill the transformation's extent, and the canvas is cut from that.
///
/// Fails with `CropOutOfBounds` exactly where the canvas cannot be made.
pub fn prepare_canvas(source: &Raster, canvas: Size, transform: Option<GlobalTransform>) -> (out:
    Result<Raster, DomainError>)
    requires
        source.wf(),
    ensures
        out.is_ok() <==> canvas_preparable(
            source.width as int,
            source.height as int,
            canvas,
            transform,
        ),
        out.is_err() ==> out == Err::<Raster, DomainError>(DomainError::CropOutOfBounds),
        out.is_ok() ==> out.unwrap().wf() && out.unwrap().spec_size() == canvas,
        out.is_ok() ==> is_canvas_of(*source, canvas, transform, out.unwrap().pixels@),
        out.is_ok() && transform.is_none() && source.spec_size() == canvas
            ==> out.unwrap().pixels@ == source.pixels@,
{
    match transform {
        None => resize_to_fill(source, canvas),
        Some(t) => {
            let target = match transform_extent(canvas, source.size(), t.scale) {
                Some(target) => target,
                None => {
                    return Err(DomainError::CropOutOfBounds);
                },
            };
            let window = Rect { x: t.left, y: t.top, width: canvas.width, height: canvas.height };
            assert(window == transform_window(canvas, t));
            if !window.fits_within(target.width, target.height) {
                return Err(DomainError::CropOutOfBounds);
            }
            let resampled = match resize_to_fill(source, target) {
                Ok(resampled) => resampled,
                Err(e) => {
                    return Err(e);
                },
            };
            let made = crop(&resampled, window);
            proof {
                if made.is_ok() {
                    let extent = transform_target(
                        canvas,
                        source.width as int,
                        source.height as int,
                        t.scale,
                    );
                    assert(extent.0 as u32 == target.width && extent.1 as u32 == target.height);
                    assert(resampling_gives(
                        source.pixels@,
                        source.width,
                        source.height,
                        extent.0 as u32,
                        extent.1 as u32,
                        resampled.pixels@,
                    ));
                    assert(made.unwrap().pixels@ == crop_pixels(
                        resampled.pixels@,
                        extent.0,
                        transform_window(canvas, t),
                    ));
                }
            }
            made
        },
    }
}

/// Makes one monitor's picture from the canvas: takes the first cut,
/// enlarges it by the scaling factor, takes the second cut.
///
/// Fails with `CropOutOfBounds` exactly where the plan cannot be carried
/// out on this canvas. The picture made has the extent that the plan names.
/// It is the second cut of what resampling the first cut gives; where the
/// plan enlarges nothing, it is the second cut of the first cut.
pub fn cut_monitor(canvas: &Raster, plan: &CropPlan) -> (out: Result<Raster, DomainError>)
    requires
        canvas.wf(),
    ensures
        out.is_ok() <==> composable(canvas.width as int, canvas.height as int, *plan),
        out.is_err() ==> out == Err::<Raster, DomainError>(DomainError::CropOutOfBounds),
        out.is_ok() ==> out.unwrap().wf() && out.unwrap().spec_size() == plan.output_size,
        out.is_ok() ==> is_monitor_picture(*canvas, *plan, out.unwrap().pixels@),
        out.is_ok() && unscaled(*plan) ==> out.unwrap().pixels@ == crop_pixels(
            crop_pixels(canvas.pixels@, canvas.width as int, plan.source_crop),
            plan.source_crop.width as int,
            plan.post_scale_crop,
        ),
{
    let failure = Err(DomainError::CropOutOfBounds);
    let width = match plan.scaling_factor.apply(plan.source_crop.width) {
        Some(width) => width,
        None => {
            return failure;
        },
    };
    let height = match plan.scaling_factor.apply(plan.source_crop.height) {
        Some(height) => height,
        None => {
            return failure;
        },
    };
    if !plan.post_scale_crop.fits_within(width, height) || plan.post_scale_crop.width
        != plan.output_size.width || plan.post_scale_crop.height != plan.output_size.height {
        return failure;
    }
    let first = match crop(canvas, plan.source_crop) {
        Ok(first) => first,
        Err(e) => {
            return Err(e);
        },
    };
    let enlarged = match resize_to_fill(&first, Size { width, height }) {
        Ok(enlarged) => enlarged,
        Err(e) => {
            return Err(e);
        },
    };
    let made = crop(&enlarged, plan.post_scale_crop);
    proof {
        if made.is_ok() {
            let tw = plan.scaling_factor.floor_of(plan.source_crop.width as int);
            let th = plan.scaling_factor.floor_of(plan.source_crop.height as int);
            assert(tw as u32 == width && th as u32 == height);
            assert(resampling_gives(
                crop_pixels(canvas.pixels@, canvas.width as int, plan.source_crop),
                plan.source_crop.width,
                plan.source_crop.height,
                tw as u32,
                th as u32,
                enlarged.pixels@,
            ));
            assert(made.unwrap().pixels@ == crop_pixels(enlarged.pixels@, tw, plan.post_scale_crop));
        }
    }
    made
}

/// Makes every monitor's picture from the canvas, in the order of the plans.
///
/// Fails with `CropOutOfBounds` exactly where one of the plans cannot be
/// carried out on this canvas.
pub fn composite(canvas: &Raster, crops: &Vec<CropPlan>) -> (out: Result<Vec<Raster>, DomainError>)
    requires
        canvas.wf(),
    ensures
        out.is_ok() <==> all_composable(canvas.width as int, canvas.height as int, crops@),
        out.is_err() ==> out == Err::<Vec<Raster>, DomainError>(DomainError::CropOutOfBounds),
        out.is_ok() ==> out.unwrap()@.len() == crops@.len() && forall|i: int|
            0 <= i < crops@.len() ==> (#[trigger] out.unwrap()@[i]).wf()
                && out.unwrap()@[i].spec_size() == crops@[i].output_size && is_monitor_picture(
                *canvas,
                crops@[i],
                out.unwrap()@[i].pixels@,
            ),
{
    let mut pictures: Vec<Raster> = Vec::new();
    let mut i: usize = 0;
    while i < crops.len()
        invariant
            canvas.wf(),
            i <= crops@.len(),
            pictures@.len() == i,
            forall|j: int|
                0 <= j < i ==> composable(
                    canvas.width as int,
                    canvas.height as int,
                    #[trigger] crops@[j],
                ),
            forall|j: int|
                0 <= j < i ==> (#[trigger] pictures@[j]).wf() && pictures@[j].spec_size()
                    == crops@[j].output_size && is_monitor_picture(
                    *canvas,
                    crops@[j],
                    pictures@[j].pixels@,
                ),
        decreases crops@.len() - i,
    {
        match cut_monitor(canvas, &crops[i]) {
            Ok(picture) => {
                pictures.push(picture);
            },
            Err(e) => {
                assert(!composable(canvas.width as int, canvas.height as int, crops@[i as int]));
                return Err(e);
            },
        }
        i += 1;
    }
    Ok(pictures)
}

/// The whole way from monitors to pictures can be gone on a picture of `w`
/// by `h` pixels: there are monitors, all valid, their layout can be written
/// down, the canvas can be made and every plan carried out on it.
pub open spec fn renderable(
    w: int,
    h: int,
    monitors: Seq<Monitor>,
    transform: Option<GlobalTransform>,
) -> bool {
    let canvas = planned_canvas(monitors);
    &&& monitors.len() > 0
    &&& all_valid(monitors)
    &&& plan_representable(monitors, scaling_factors(monitors))
    &&& canvas_preparable(w, h, canvas, transform)
    &&& all_composable(
        canvas.width as int,
        canvas.height as int,
        planned_crops(monitors, scaling_factors(monitors)),
    )
}

/// `pictures` are the monitors' pictures, in order, made by way of `canvas`:
/// `canvas` is a canvas made from `source` for the monitors' layout, and
/// each picture is its monitor's picture on that canvas.
pub open spec fn is_rendering(
    source: Raster,
    monitors: Seq<Monitor>,
    transform: Option<GlobalTransform>,
    canvas: Raster,
    pictures: Seq<Raster>,
) -> bool {
    &&& canvas.wf()
    &&& canvas.spec_size() == planned_canvas(monitors)
    &&& is_canvas_of(source, planned_canvas(monitors), transform, canvas.pixels@)
    &&& pictures.len() == monitors.len()
    &&& forall|i: int|
        0 <= i < monitors.len() ==> is_monitor_picture(
            canvas,
            planned_crops(monitors, scaling_factors(monitors))[i],
            (#[trigger] pictures[i]).pixels@,
        )
}

/// The whole way from monitors and a picture to one picture for each
/// monitor, in the order of the monitors: densities are normalised, the
/// layout is planned, the canvas is made and every monitor's picture is cut
/// from it.
///
/// Fails with `EmptyMonitorSet` on an empty list, else with `InvalidMonitor`
/// where a monitor has no physical height or no resolution, and else with
/// `CropOutOfBounds`. Each picture made has exactly its monitor's
/// resolution.
pub fn render(source: &Raster, monitors: &Vec<Monitor>, transform: Option<GlobalTransform>) -> (out:
    Result<Vec<Raster>, DomainError>)
    requires
        source.wf(),
    ensures
        out.is_ok() <==> renderable(
            source.width as int,
            source.height as int,
            monitors@,
            transform,
        ),
        out.is_err() ==> out.unwrap_err() == (if monitors@.len() == 0 {
            DomainError::EmptyMonitorSet
        } else if !all_valid(monitors@) {
            DomainError::InvalidMonitor
        } else {
            DomainError::CropOutOfBounds
        }),
        out.is_ok() ==> out.unwrap()@.len() == monitors@.len() && forall|i: int|
            0 <= i < monitors@.len() ==> (#[trigger] out.unwrap()@[i]).wf()
                && out.unwrap()@[i].width == monitors@[i].pixel_width && out.unwrap()@[i].height
                == monitors@[i].pixel_height,
        out.is_ok() ==> exists|canvas: Raster| #[trigger]
            is_rendering(*source, monitors@, transform, canvas, out.unwrap()@),
{
    let (_, layout) = match arrange(monitors) {
        Ok(pair) => pair,
        Err(e) => {
            return Err(e);
        },
    };
    let canvas = match prepare_canvas(source, layout.canvas, transform) {
        Ok(canvas) => canvas,
        Err(e) => {
            return Err(e);
        },
    };
    let made = composite(&canvas, &layout.crops);
    proof {
        if made.is_ok() {
            assert(is_rendering(*source, monitors@, transform, canvas, made.unwrap()@));
        }
    }
    made
}

} // verus!
