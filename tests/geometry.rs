use gta_assistant::geometry::{
    get_resolution, remap_regions, remap_value, resolution_remap, ConfigError, GameLayout,
    MonitorInfo, R1080, R1440,
};
use gta_assistant::solver::{casino_layout, cayo_layout};

#[test]
fn remap_is_identity_at_reference() {
    let r = [370, 90, 1550, 120];
    assert_eq!(resolution_remap(&r, R1080, R1080), r);
    let r = [0, 0, 1920, 1080];
    assert_eq!(resolution_remap(&r, R1440, R1440), r);
}

#[test]
fn remap_scales_to_1440() {
    assert_eq!(resolution_remap(&[370, 90, 1550, 120], R1080, R1440), [493, 120, 2067, 160]);
    assert_eq!(resolution_remap(&[475, 271, 595, 391], R1080, R1440), [633, 361, 793, 521]);
}

#[test]
fn remap_rounds_halves_up() {
    assert_eq!(remap_value(3, 2, 1), 2);
    assert_eq!(remap_value(1, 4, 1), 0);
    assert_eq!(remap_value(5, 4, 2), 3);
}

#[test]
fn remap_keeps_extent_within_one_pixel() {
    let r = [475, 271, 595, 391];
    let m = resolution_remap(&r, R1080, R1440);
    let exact_w = (r[2] - r[0]) as f64 * 2560.0 / 1920.0;
    let exact_h = (r[3] - r[1]) as f64 * 1440.0 / 1080.0;
    assert!(((m[2] - m[0]) as f64 - exact_w).abs() <= 1.0);
    assert!(((m[3] - m[1]) as f64 - exact_h).abs() <= 1.0);
}

#[test]
fn remap_regions_keeps_order() {
    let regions = vec![[0, 0, 1920, 1080], [475, 271, 595, 391]];
    let out = remap_regions(&regions, R1080, R1440);
    assert_eq!(out, vec![[0, 0, 2560, 1440], [633, 361, 793, 521]]);
}

#[test]
fn layout_for_supported_resolutions() {
    let casino = casino_layout();
    let same = casino.for_resolution(R1080).unwrap();
    assert_eq!(same.header, casino.header);
    assert_eq!(same.parts, casino.parts);
    let big = casino.for_resolution(R1440).unwrap();
    assert_eq!(big.header, [493, 120, 2067, 160]);
    assert_eq!(big.parts.len(), 8);
    assert_eq!(big.parts[0], [633, 361, 793, 521]);
}

#[test]
fn layout_rejects_unsupported_resolution() {
    let cayo = cayo_layout();
    match cayo.for_resolution((1280, 720)) {
        Err(e) => assert_eq!(e, ConfigError::UnsupportedResolution(1280, 720)),
        Ok(_) => panic!("1280x720 must be rejected"),
    }
    let layout = GameLayout { header: [0, 0, 10, 10], fingerprint: [0, 0, 10, 10], parts: vec![] };
    assert!(layout.for_resolution((1920, 1200)).is_err());
}

#[test]
fn resolution_of_first_primary_monitor() {
    let monitors = [
        MonitorInfo { width: 1280, height: 1024, is_primary: false },
        MonitorInfo { width: 2560, height: 1440, is_primary: true },
        MonitorInfo { width: 1920, height: 1080, is_primary: true },
    ];
    assert_eq!(get_resolution(&monitors), Ok((2560, 1440)));
}

#[test]
fn no_primary_monitor_is_an_error() {
    let monitors = [MonitorInfo { width: 1280, height: 1024, is_primary: false }];
    assert_eq!(get_resolution(&monitors), Err(ConfigError::NoPrimaryMonitor));
    assert_eq!(get_resolution(&[]), Err(ConfigError::NoPrimaryMonitor));
}
