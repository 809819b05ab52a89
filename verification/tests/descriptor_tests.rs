use immersive_wallpapers::descriptor::parse_monitors;
use immersive_wallpapers::error::DomainError;
use immersive_wallpapers::monitor::Monitor;

const REPORT: &str = "Screen 0: minimum 320 x 200, current 3840 x 1080, maximum 16384 x 16384\n\
eDP-1 connected primary 1920x1080+0+0 (normal left inverted right x axis y axis) 344mm x 194mm\n\
   1920x1080     60.00*+  59.93\n\
HDMI-1 connected 2560x1440+1920+0 (normal left inverted right x axis y axis) 597mm x 336mm\n\
   2560x1440     59.95*+\n\
DP-1 disconnected (normal left inverted right x axis y axis)\n";

fn monitor(
    name: &str,
    pixel: (u32, u32),
    physical: (u32, u32),
    origin: (u32, u32),
    bezel: (u32, u32),
) -> Monitor {
    Monitor {
        name: name.to_string(),
        pixel_width: pixel.0,
        pixel_height: pixel.1,
        physical_width: physical.0,
        physical_height: physical.1,
        x: origin.0,
        y: origin.1,
        bezel_x: bezel.0,
        bezel_y: bezel.1,
    }
}

#[test]
fn reads_connected_monitors_in_order() {
    let monitors = parse_monitors(REPORT, "").unwrap();
    assert_eq!(
        monitors,
        vec![
            monitor("eDP-1", (1920, 1080), (344, 194), (0, 0), (0, 0)),
            monitor("HDMI-1", (2560, 1440), (597, 336), (1920, 0), (0, 0)),
        ]
    );
}

#[test]
fn mode_is_taken_from_third_or_fourth_field() {
    let third = parse_monitors("A connected 800x600+10+20 1mm x 2mm", "").unwrap();
    assert_eq!(third, vec![monitor("A", (800, 600), (1, 2), (10, 20), (0, 0))]);
    let fourth = parse_monitors("A connected primary 800x600+10+20 1mm x 2mm", "").unwrap();
    assert_eq!(fourth, vec![monitor("A", (800, 600), (1, 2), (10, 20), (0, 0))]);
    let fifth = parse_monitors("A connected primary more 800x600+10+20 1mm x 2mm", "");
    assert_eq!(fifth, Err(DomainError::MalformedDescriptor));
}

#[test]
fn bezel_list_is_matched_to_monitors_in_order() {
    let monitors = parse_monitors(REPORT, "5,10;0,0").unwrap();
    assert_eq!((monitors[0].bezel_x, monitors[0].bezel_y), (5, 10));
    assert_eq!((monitors[1].bezel_x, monitors[1].bezel_y), (0, 0));
    let swapped = parse_monitors(REPORT, "0,0;7,9").unwrap();
    assert_eq!((swapped[0].bezel_x, swapped[0].bezel_y), (0, 0));
    assert_eq!((swapped[1].bezel_x, swapped[1].bezel_y), (7, 9));
}

#[test]
fn non_numeric_bezel_is_refused() {
    assert_eq!(parse_monitors(REPORT, "x,10"), Err(DomainError::MalformedBezelSpec));
    assert_eq!(parse_monitors(REPORT, "5,"), Err(DomainError::MalformedBezelSpec));
    assert_eq!(parse_monitors(REPORT, "1,2;3,y"), Err(DomainError::MalformedBezelSpec));
    assert_eq!(parse_monitors(REPORT, " 5,10"), Err(DomainError::MalformedBezelSpec));
    assert_eq!(parse_monitors(REPORT, "-5,10"), Err(DomainError::MalformedBezelSpec));
    assert_eq!(parse_monitors(REPORT, "4294967296,0"), Err(DomainError::MalformedBezelSpec));
}

#[test]
fn missing_or_short_bezel_entries_mean_no_bezel() {
    let none = parse_monitors(REPORT, "").unwrap();
    assert_eq!((none[0].bezel_x, none[0].bezel_y), (0, 0));
    let first_only = parse_monitors(REPORT, "3,4").unwrap();
    assert_eq!((first_only[0].bezel_x, first_only[0].bezel_y), (3, 4));
    assert_eq!((first_only[1].bezel_x, first_only[1].bezel_y), (0, 0));
    let short = parse_monitors(REPORT, "7;1,2").unwrap();
    assert_eq!((short[0].bezel_x, short[0].bezel_y), (0, 0));
    assert_eq!((short[1].bezel_x, short[1].bezel_y), (1, 2));
    let skipped = parse_monitors(REPORT, ";1,2").unwrap();
    assert_eq!((skipped[0].bezel_x, skipped[0].bezel_y), (0, 0));
    assert_eq!((skipped[1].bezel_x, skipped[1].bezel_y), (1, 2));
}

#[test]
fn bezel_entry_reads_its_first_two_fields() {
    let monitors = parse_monitors(REPORT, "1,2,zzz;+3,4294967295").unwrap();
    assert_eq!((monitors[0].bezel_x, monitors[0].bezel_y), (1, 2));
    assert_eq!((monitors[1].bezel_x, monitors[1].bezel_y), (3, 4294967295));
}

#[test]
fn bezel_of_unused_entry_is_not_read() {
    let monitors = parse_monitors(REPORT, "1,2;3,4;x,y").unwrap();
    assert_eq!(monitors.len(), 2);
}

#[test]
fn line_without_mode_is_malformed() {
    let report = "HDMI-1 connected (normal left inverted right x axis y axis) 597mm x 336mm";
    assert_eq!(parse_monitors(report, ""), Err(DomainError::MalformedDescriptor));
    assert_eq!(parse_monitors("A connected B", ""), Err(DomainError::MalformedDescriptor));
    assert_eq!(parse_monitors(" connected ", ""), Err(DomainError::MalformedDescriptor));
}

#[test]
fn malformed_numbers_are_refused() {
    for report in [
        "A connected 800x600+10+20 1mm x 2cm",
        "A connected 800x600+10+20 1mm x mm",
        "A connected 800x600+10+20 1 x 2mm",
        "A connected 800x600+10+20 mm x 2mm",
        "A connected 800+10+20 1mm x 2mm",
        "A connected 800xx600+10+20 1mm x 2mm",
        "A connected 800x600+10 1mm x 2mm",
        "A connected 800x600+10+ 1mm x 2mm",
        "A connected 800x600+a+20 1mm x 2mm",
        "A connected 4294967296x600+10+20 1mm x 2mm",
        "A connected 800x600+10+20 1mm x 2mm ",
    ] {
        assert_eq!(parse_monitors(report, ""), Err(DomainError::MalformedDescriptor), "{}", report);
    }
}

#[test]
fn further_fields_of_mode_are_not_read() {
    let monitors = parse_monitors("A connected 800x600x3+10+20+30 1mm x 2mm", "").unwrap();
    assert_eq!(monitors, vec![monitor("A", (800, 600), (1, 2), (10, 20), (0, 0))]);
}

#[test]
fn largest_numbers_are_read() {
    let report = "A connected 4294967295x0004294967295+0+4294967295 +7mm x 4294967295mm";
    let monitors = parse_monitors(report, "").unwrap();
    assert_eq!(
        monitors,
        vec![monitor(
            "A",
            (4294967295, 4294967295),
            (7, 4294967295),
            (0, 4294967295),
            (0, 0)
        )]
    );
}

#[test]
fn monitor_without_physical_height_is_invalid() {
    let report = "A connected 800x600+0+0 0mm x 0mm";
    assert_eq!(parse_monitors(report, ""), Err(DomainError::InvalidMonitor));
    let flat = "A connected 800x0+0+0 10mm x 10mm";
    assert_eq!(parse_monitors(flat, ""), Err(DomainError::InvalidMonitor));
    let thin = "A connected 0x600+0+0 10mm x 10mm";
    assert_eq!(parse_monitors(thin, ""), Err(DomainError::InvalidMonitor));
    let no_width = parse_monitors("A connected 800x600+0+0 0mm x 10mm", "").unwrap();
    assert_eq!(no_width[0].physical_width, 0);
}

#[test]
fn descriptor_is_read_before_bezel_and_bezel_before_validity() {
    assert_eq!(
        parse_monitors("A connected 800x600+0 0mm x 0mm", "x,1"),
        Err(DomainError::MalformedDescriptor)
    );
    assert_eq!(
        parse_monitors("A connected 800x600+0+0 0mm x 0mm", "x,1"),
        Err(DomainError::MalformedBezelSpec)
    );
}

#[test]
fn first_failing_line_decides() {
    let report = "A connected 800x600+0+0 0mm x 0mm\nB connected nothing 1mm x 2mm";
    assert_eq!(parse_monitors(report, ""), Err(DomainError::InvalidMonitor));
    let report = "B connected nothing 1mm x 2mm\nA connected 800x600+0+0 0mm x 0mm";
    assert_eq!(parse_monitors(report, ""), Err(DomainError::MalformedDescriptor));
}

#[test]
fn report_without_connected_lines_gives_no_monitor() {
    assert_eq!(parse_monitors("", ""), Ok(vec![]));
    assert_eq!(parse_monitors("DP-1 disconnected (normal)\n\n", "1,2"), Ok(vec![]));
    assert_eq!(parse_monitors("A connected", "x,y"), Ok(vec![]));
}

#[test]
fn names_may_hold_any_characters() {
    let monitors = parse_monitors("écran-α connected 10x20+1+2 3mm x 4mm", "").unwrap();
    assert_eq!(monitors, vec![monitor("écran-α", (10, 20), (3, 4), (1, 2), (0, 0))]);
    let unnamed = parse_monitors(" connected 10x20+1+2 3mm x 4mm", "").unwrap();
    assert_eq!(unnamed[0].name, "");
}

#[test]
fn monitor_constructor_guards_density() {
    let ok = Monitor::new("A".to_string(), 1, 2, 0, 3, 4, 5, 6, 7).unwrap();
    assert_eq!(ok, monitor("A", (1, 2), (0, 3), (4, 5), (6, 7)));
    assert!(ok.is_valid());
    assert_eq!(
        Monitor::new("A".to_string(), 1, 2, 3, 0, 0, 0, 0, 0),
        Err(DomainError::InvalidMonitor)
    );
    assert_eq!(
        Monitor::new("A".to_string(), 0, 2, 3, 4, 0, 0, 0, 0),
        Err(DomainError::InvalidMonitor)
    );
    assert_eq!(
        Monitor::new("A".to_string(), 1, 0, 3, 4, 0, 0, 0, 0),
        Err(DomainError::InvalidMonitor)
    );
    assert!(!monitor("A", (1, 2), (3, 0), (0, 0), (0, 0)).is_valid());
}
