use immersive_wallpapers::compositor::{
    composite, cut_monitor, prepare_canvas, render, transform_extent, GlobalTransform,
};
use immersive_wallpapers::error::DomainError;
use immersive_wallpapers::layout::{arrange, CropPlan};
use immersive_wallpapers::monitor::{Monitor, Rect, Size};
use immersive_wallpapers::raster::{can_resample, crop, resize_to_fill, Raster};
use immersive_wallpapers::ratio::Ratio;

fn picture(width: u32, height: u32) -> Raster {
    let mut pixels = Vec::new();
    for y in 0..height {
        for x in 0..width {
            pixels.push(x as u8);
            pixels.push(y as u8);
            pixels.push((x + y) as u8);
            pixels.push(255);
        }
    }
    Raster::new(width, height, pixels).unwrap()
}

fn flat(width: u32, height: u32, colour: [u8; 4]) -> Raster {
    let mut pixels = Vec::new();
    for _ in 0..width * height {
        pixels.extend_from_slice(&colour);
    }
    Raster::new(width, height, pixels).unwrap()
}

fn display(pixel: (u32, u32), physical_height: u32, origin: (u32, u32), bezel: (u32, u32)) -> Monitor {
    Monitor {
        name: "m".to_string(),
        pixel_width: pixel.0,
        pixel_height: pixel.1,
        physical_width: 500,
        physical_height,
        x: origin.0,
        y: origin.1,
        bezel_x: bezel.0,
        bezel_y: bezel.1,
    }
}

const ONE: Ratio = Ratio { num: 1, den: 1 };

#[test]
fn raster_needs_four_bytes_a_pixel() {
    assert!(Raster::new(2, 3, vec![0; 24]).is_some());
    assert!(Raster::new(2, 3, vec![0; 23]).is_none());
    assert!(Raster::new(2, 3, vec![0; 25]).is_none());
    assert!(Raster::new(0, 3, vec![]).is_some());
    assert!(Raster::new(65536, 65536, vec![]).is_none());
    let r = Raster::new(2, 1, vec![1, 2, 3, 4, 5, 6, 7, 8]).unwrap();
    assert_eq!(r.size(), Size { width: 2, height: 1 });
    assert_eq!(r.pixels, vec![1, 2, 3, 4, 5, 6, 7, 8]);
}

#[test]
fn crop_copies_the_rectangle_pixel_by_pixel() {
    let src = picture(4, 4);
    let cut = crop(&src, Rect { x: 1, y: 2, width: 2, height: 2 }).unwrap();
    assert_eq!(cut.size(), Size { width: 2, height: 2 });
    assert_eq!(
        cut.pixels,
        vec![1, 2, 3, 255, 2, 2, 4, 255, 1, 3, 4, 255, 2, 3, 5, 255]
    );
    let whole = crop(&src, Rect { x: 0, y: 0, width: 4, height: 4 }).unwrap();
    assert_eq!(whole, src);
    let none = crop(&src, Rect { x: 4, y: 4, width: 0, height: 0 }).unwrap();
    assert_eq!(none, Raster { width: 0, height: 0, pixels: vec![] });
}

#[test]
fn crop_past_the_picture_is_refused() {
    let src = picture(4, 4);
    for r in [
        Rect { x: 3, y: 0, width: 2, height: 1 },
        Rect { x: 0, y: 3, width: 1, height: 2 },
        Rect { x: 5, y: 0, width: 0, height: 0 },
        Rect { x: 4294967295, y: 0, width: 2, height: 1 },
    ] {
        assert_eq!(crop(&src, r), Err(DomainError::CropOutOfBounds));
    }
}

#[test]
fn resize_gives_exactly_the_extent_asked_for() {
    let src = picture(8, 6);
    for (w, h) in [(16, 12), (3, 3), (8, 6), (1, 20), (20, 1), (9, 7), (1, 1)] {
        let out = resize_to_fill(&src, Size { width: w, height: h }).unwrap();
        assert_eq!((out.width, out.height), (w, h));
        assert_eq!(out.pixels.len() as u32, w * h * 4);
    }
}

#[test]
fn resize_keeps_a_flat_picture_flat() {
    let src = flat(5, 4, [10, 20, 30, 255]);
    let out = resize_to_fill(&src, Size { width: 11, height: 7 }).unwrap();
    assert_eq!(out, flat(11, 7, [10, 20, 30, 255]));
}

#[test]
fn resize_agrees_with_the_image_crate() {
    let src = picture(8, 6);
    let buffer = image::RgbaImage::from_raw(8, 6, src.pixels.clone()).unwrap();
    let direct = image::DynamicImage::ImageRgba8(buffer)
        .resize_to_fill(13, 5, image::imageops::FilterType::Lanczos3)
        .into_rgba8();
    let out = resize_to_fill(&src, Size { width: 13, height: 5 }).unwrap();
    assert_eq!(out.pixels, direct.into_raw());
}

#[test]
fn resize_to_the_same_extent_changes_nothing() {
    let src = picture(8, 6);
    assert_eq!(resize_to_fill(&src, Size { width: 8, height: 6 }), Ok(src.clone()));
    assert_eq!(prepare_canvas(&src, Size { width: 8, height: 6 }, None), Ok(src));
}

#[test]
fn sides_past_the_longest_side_are_refused() {
    assert!(can_resample(1048576, 1, 1048576, 1));
    assert!(can_resample(1, 1048575, 1, 1048575));
    assert!(!can_resample(1, 1048576, 1, 1048576));
    assert!(can_resample(1048575, 1, 1048576, 1));
    assert!(!can_resample(1048577, 1, 10, 1));
    assert!(!can_resample(1, 1048577, 1, 10));
    assert!(!can_resample(10, 1, 1048577, 1));
    assert!(!can_resample(1, 10, 1, 1048577));
    assert!(!can_resample(33554435, 1, 67108870, 2));
    assert!(!can_resample(1, 1048576, 2, 1048576));
    assert!(!can_resample(1048576, 1, 1048576, 2));
    assert!(can_resample(2, 1048575, 1, 524288));
    let wide = vec![display((67108870, 2), 100, (0, 0), (0, 0))];
    assert_eq!(render(&picture(8, 8), &wide, None), Err(DomainError::CropOutOfBounds));
    let thin = picture(4, 1);
    assert_eq!(
        resize_to_fill(&thin, Size { width: 1048577, height: 1 }),
        Err(DomainError::CropOutOfBounds)
    );
}

#[test]
fn resize_of_or_to_nothing_is_refused() {
    let src = picture(8, 6);
    assert_eq!(
        resize_to_fill(&src, Size { width: 0, height: 5 }),
        Err(DomainError::CropOutOfBounds)
    );
    assert_eq!(
        resize_to_fill(&src, Size { width: 5, height: 0 }),
        Err(DomainError::CropOutOfBounds)
    );
    let empty = Raster::new(0, 0, vec![]).unwrap();
    assert_eq!(
        resize_to_fill(&empty, Size { width: 5, height: 5 }),
        Err(DomainError::CropOutOfBounds)
    );
    assert!(!can_resample(8, 6, 4294967295, 4294967295));
    assert!(!can_resample(1, 4294967295, 2, 1));
    assert!(can_resample(1920, 1080, 3840, 2160));
    assert!(!can_resample(0, 1080, 3840, 2160));
}

#[test]
fn monitor_picture_has_the_planned_extent() {
    let canvas = picture(30, 20);
    let plan = CropPlan {
        scaling_factor: Ratio { num: 3, den: 2 },
        source_crop: Rect { x: 10, y: 5, width: 12, height: 10 },
        post_scale_crop: Rect { x: 2, y: 1, width: 12, height: 10 },
        output_size: Size { width: 12, height: 10 },
    };
    let out = cut_monitor(&canvas, &plan).unwrap();
    assert_eq!(out.size(), Size { width: 12, height: 10 });
    let first = crop(&canvas, plan.source_crop).unwrap();
    let enlarged = resize_to_fill(&first, Size { width: 18, height: 15 }).unwrap();
    assert_eq!(out, crop(&enlarged, plan.post_scale_crop).unwrap());
}

#[test]
fn unscaled_monitor_picture_is_the_first_cut() {
    let canvas = picture(30, 20);
    let plan = CropPlan {
        scaling_factor: ONE,
        source_crop: Rect { x: 10, y: 5, width: 12, height: 10 },
        post_scale_crop: Rect { x: 0, y: 0, width: 12, height: 10 },
        output_size: Size { width: 12, height: 10 },
    };
    let out = cut_monitor(&canvas, &plan).unwrap();
    assert_eq!(out, crop(&canvas, plan.source_crop).unwrap());
    assert_eq!(&out.pixels[0..4], &[10, 5, 15, 255]);
}

#[test]
fn unscaled_monitor_picture_is_the_second_cut_of_the_first() {
    let canvas = picture(30, 20);
    let plan = CropPlan {
        scaling_factor: Ratio { num: 7, den: 7 },
        source_crop: Rect { x: 10, y: 5, width: 12, height: 10 },
        post_scale_crop: Rect { x: 2, y: 1, width: 10, height: 9 },
        output_size: Size { width: 10, height: 9 },
    };
    let out = cut_monitor(&canvas, &plan).unwrap();
    assert_eq!(
        out,
        crop(&canvas, Rect { x: 12, y: 6, width: 10, height: 9 }).unwrap()
    );
    assert_eq!(&out.pixels[0..4], &[12, 6, 18, 255]);
}

#[test]
fn plan_that_does_not_fit_is_refused() {
    let canvas = picture(30, 20);
    let good = CropPlan {
        scaling_factor: Ratio { num: 3, den: 2 },
        source_crop: Rect { x: 10, y: 5, width: 12, height: 10 },
        post_scale_crop: Rect { x: 6, y: 5, width: 12, height: 10 },
        output_size: Size { width: 12, height: 10 },
    };
    assert!(cut_monitor(&canvas, &good).is_ok());
    let mut outside = good;
    outside.source_crop.x = 19;
    assert_eq!(cut_monitor(&canvas, &outside), Err(DomainError::CropOutOfBounds));
    let mut shifted = good;
    shifted.post_scale_crop.x = 7;
    assert_eq!(cut_monitor(&canvas, &shifted), Err(DomainError::CropOutOfBounds));
    let mut lowered = good;
    lowered.post_scale_crop.y = 6;
    assert_eq!(cut_monitor(&canvas, &lowered), Err(DomainError::CropOutOfBounds));
    let mut unscaled = good;
    unscaled.scaling_factor = ONE;
    assert_eq!(cut_monitor(&canvas, &unscaled), Err(DomainError::CropOutOfBounds));
    let mut undefined = good;
    undefined.scaling_factor = Ratio { num: 3, den: 0 };
    assert_eq!(cut_monitor(&canvas, &undefined), Err(DomainError::CropOutOfBounds));
    let mut huge = good;
    huge.scaling_factor = Ratio { num: 4294967295, den: 1 };
    assert_eq!(cut_monitor(&canvas, &huge), Err(DomainError::CropOutOfBounds));
    let mut other = good;
    other.output_size = Size { width: 12, height: 9 };
    assert_eq!(cut_monitor(&canvas, &other), Err(DomainError::CropOutOfBounds));
}

#[test]
fn composite_makes_one_picture_for_each_plan_in_order() {
    let canvas = picture(30, 20);
    let plans = vec![
        CropPlan {
            scaling_factor: ONE,
            source_crop: Rect { x: 0, y: 0, width: 10, height: 20 },
            post_scale_crop: Rect { x: 0, y: 0, width: 10, height: 20 },
            output_size: Size { width: 10, height: 20 },
        },
        CropPlan {
            scaling_factor: Ratio { num: 2, den: 1 },
            source_crop: Rect { x: 10, y: 0, width: 20, height: 10 },
            post_scale_crop: Rect { x: 3, y: 4, width: 20, height: 10 },
            output_size: Size { width: 20, height: 10 },
        },
    ];
    let out = composite(&canvas, &plans).unwrap();
    assert_eq!(out.len(), 2);
    assert_eq!(out[0], cut_monitor(&canvas, &plans[0]).unwrap());
    assert_eq!(out[1], cut_monitor(&canvas, &plans[1]).unwrap());
    assert_eq!(out[1].size(), Size { width: 20, height: 10 });
    assert_eq!(composite(&canvas, &vec![]), Ok(vec![]));
    let mut broken = plans.clone();
    broken[1].source_crop.x = 11;
    assert_eq!(composite(&canvas, &broken), Err(DomainError::CropOutOfBounds));
}

#[test]
fn canvas_without_transformation_fills_the_canvas() {
    let src = picture(8, 6);
    let canvas = prepare_canvas(&src, Size { width: 30, height: 20 }, None).unwrap();
    assert_eq!(canvas, resize_to_fill(&src, Size { width: 30, height: 20 }).unwrap());
    assert_eq!(
        prepare_canvas(&src, Size { width: 0, height: 20 }, None),
        Err(DomainError::CropOutOfBounds)
    );
}

#[test]
fn transformation_fixes_the_longer_side_of_the_canvas() {
    let three_halves = Ratio { num: 3, den: 2 };
    let source = Size { width: 1920, height: 1080 };
    let wide = transform_extent(Size { width: 3840, height: 1200 }, source, three_halves);
    assert_eq!(wide, Some(Size { width: 5760, height: 3240 }));
    let high = transform_extent(Size { width: 1200, height: 3840 }, source, three_halves);
    assert_eq!(high, Some(Size { width: 10240, height: 5760 }));
    let square = transform_extent(Size { width: 100, height: 100 }, source, ONE);
    assert_eq!(square, Some(Size { width: 100, height: 56 }));
    let rounded = transform_extent(Size { width: 7, height: 100 }, Size { width: 3, height: 7 }, ONE);
    assert_eq!(rounded, Some(Size { width: 42, height: 100 }));
    let rounded = transform_extent(
        Size { width: 7, height: 101 },
        Size { width: 3, height: 7 },
        Ratio { num: 1, den: 2 },
    );
    assert_eq!(rounded, Some(Size { width: 21, height: 50 }));
    assert_eq!(
        transform_extent(Size { width: 7, height: 100 }, source, Ratio { num: 1, den: 0 }),
        None
    );
    assert_eq!(
        transform_extent(Size { width: 7, height: 100 }, Size { width: 0, height: 7 }, ONE),
        None
    );
    assert_eq!(
        transform_extent(Size { width: 7, height: 100 }, source, Ratio { num: 4294967296, den: 100 }),
        None
    );
}

#[test]
fn canvas_with_transformation_is_cut_from_the_resampled_picture() {
    let src = picture(8, 6);
    let canvas = Size { width: 12, height: 6 };
    let transform = GlobalTransform { scale: Ratio { num: 2, den: 1 }, top: 3, left: 5 };
    let out = prepare_canvas(&src, canvas, Some(transform)).unwrap();
    assert_eq!(out.size(), canvas);
    let resampled = resize_to_fill(&src, Size { width: 24, height: 18 }).unwrap();
    assert_eq!(out, crop(&resampled, Rect { x: 5, y: 3, width: 12, height: 6 }).unwrap());
    let edge = GlobalTransform { scale: Ratio { num: 2, den: 1 }, top: 12, left: 12 };
    assert!(prepare_canvas(&src, canvas, Some(edge)).is_ok());
    let past = GlobalTransform { scale: Ratio { num: 2, den: 1 }, top: 13, left: 12 };
    assert_eq!(prepare_canvas(&src, canvas, Some(past)), Err(DomainError::CropOutOfBounds));
    let small = GlobalTransform { scale: Ratio { num: 1, den: 2 }, top: 0, left: 0 };
    assert_eq!(prepare_canvas(&src, canvas, Some(small)), Err(DomainError::CropOutOfBounds));
}

#[test]
fn every_picture_has_its_monitors_resolution() {
    let monitors = vec![
        display((10, 10), 100, (0, 0), (0, 0)),
        display((20, 20), 100, (10, 0), (3, 2)),
        display((12, 16), 100, (30, 4), (1, 0)),
    ];
    let out = render(&picture(64, 48), &monitors, None).unwrap();
    let sizes: Vec<(u32, u32)> = out.iter().map(|p| (p.width, p.height)).collect();
    assert_eq!(sizes, vec![(10, 10), (20, 20), (12, 16)]);
    for p in &out {
        assert_eq!(p.pixels.len() as u32, p.width * p.height * 4);
    }
}

#[test]
fn render_goes_the_whole_way_in_steps() {
    let monitors = vec![
        display((10, 10), 100, (0, 0), (0, 0)),
        display((20, 20), 100, (10, 0), (3, 2)),
    ];
    let source = picture(64, 48);
    let (_, layout) = arrange(&monitors).unwrap();
    assert_eq!(layout.canvas, Size { width: 36, height: 22 });
    let canvas = prepare_canvas(&source, layout.canvas, None).unwrap();
    let expected = composite(&canvas, &layout.crops).unwrap();
    assert_eq!(render(&source, &monitors, None), Ok(expected));
}

#[test]
fn render_twice_gives_the_same_pictures() {
    let monitors = vec![
        display((10, 10), 100, (0, 0), (0, 0)),
        display((20, 20), 100, (10, 0), (3, 2)),
    ];
    let source = picture(64, 48);
    let transform = Some(GlobalTransform { scale: Ratio { num: 5, den: 4 }, top: 2, left: 1 });
    let first = render(&source, &monitors, transform).unwrap();
    let second = render(&source, &monitors, transform).unwrap();
    assert_eq!(first, second);
    assert_eq!(render(&source, &monitors, None), render(&source, &monitors, None));
}

#[test]
fn render_reports_failures_in_order() {
    let source = picture(8, 8);
    assert_eq!(render(&source, &vec![], None), Err(DomainError::EmptyMonitorSet));
    let invalid = vec![display((10, 10), 0, (0, 0), (0, 0))];
    assert_eq!(render(&source, &invalid, None), Err(DomainError::InvalidMonitor));
    let shifted = vec![display((10, 10), 100, (0, 0), (1, 0))];
    assert_eq!(render(&source, &shifted, None), Err(DomainError::CropOutOfBounds));
    let apart = vec![display((10, 10), 100, (5, 0), (0, 0))];
    assert_eq!(render(&source, &apart, None), Err(DomainError::CropOutOfBounds));
}

#[test]
fn messages_name_each_failure() {
    assert_eq!(DomainError::MalformedBezelSpec.message(), "expected numeric value");
    let all = [
        DomainError::EmptyMonitorSet,
        DomainError::MalformedDescriptor,
        DomainError::InvalidMonitor,
        DomainError::MalformedBezelSpec,
        DomainError::ImageDecodeFailure,
        DomainError::CropOutOfBounds,
        DomainError::StorageFailure,
        DomainError::ExternalToolFailure,
    ];
    for (i, a) in all.iter().enumerate() {
        assert!(!a.message().is_empty());
        for b in &all[i + 1..] {
            assert_ne!(a.message(), b.message());
        }
    }
}
