use rift::config::{AudioTargetConfig, TargetConfig, TextureTargetConfig};
use rift::converters::texture::{fit_within, plan_conversion, save_step};

fn target(format: &str, max_w: u32, max_h: u32) -> TargetConfig {
    TargetConfig {
        engine: "unity".to_string(),
        project: "out/Assets".to_string(),
        textures: TextureTargetConfig {
            format: format.to_string(),
            max_width: max_w,
            max_height: max_h,
            generate_mipmaps: false,
        },
        audio: AudioTargetConfig::default(),
    }
}

#[test]
fn test_fit_within_no_resize() {
    assert_eq!(fit_within(100, 100, 2048, 2048), (100, 100));
}

#[test]
fn test_fit_within_downscale() {
    let (w, h) = fit_within(4096, 2048, 2048, 2048);
    assert!(w <= 2048);
    assert!(h <= 2048);
    assert!(w >= h); // wider than tall, ratio preserved roughly
}

#[test]
fn test_fit_within_square() {
    let (w, h) = fit_within(4000, 4000, 1024, 1024);
    assert_eq!(w, 1024);
    assert_eq!(h, 1024);
}

#[test]
fn fit_within_exact_values() {
    // The width limit binds: 2:1 kept.
    assert_eq!(fit_within(4096, 2048, 2048, 2048), (2048, 1024));
    // The height limit binds: a tall image stays inside the box.
    assert_eq!(fit_within(2000, 4000, 1024, 1024), (512, 1024));
    assert_eq!(fit_within(4000, 1000, 2048, 512), (2048, 512));
    assert_eq!(fit_within(100, 4000, 1024, 1024), (25, 1024));
    assert_eq!(fit_within(100, 300, 50, 50), (16, 50));
    // Zero limits and zero sides: every side is at least 1.
    assert_eq!(fit_within(3000, 0, 1000, 0), (1000, 1));
    assert_eq!(fit_within(0, 3000, 1000, 1000), (1, 1000));
    assert_eq!(fit_within(5000, 10, 300, 300), (300, 1));
}

#[test]
fn fit_within_keeps_small_and_stays_in_the_box() {
    for &(w, h) in &[(1u32, 1u32), (512, 300), (2048, 2048)] {
        assert_eq!(fit_within(w, h, 2048, 2048), (w, h));
    }
    for &(w, h, mw, mh) in &[
        (5000u32, 10u32, 300u32, 300u32),
        (10, 5000, 300, 200),
        (u32::MAX, 7, 64, 64),
        (7, u32::MAX, 1, 1),
        (1234, 987, 100, 1000),
    ] {
        let (nw, nh) = fit_within(w, h, mw, mh);
        assert!(1 <= nw && nw <= mw && 1 <= nh && nh <= mh);
        assert!(nw == mw || nh == mh);
        let (a, b, w, h) = (nw as u64, nh as u64, w as u64, h as u64);
        assert!(a * h < b * w + w + h && b * w < a * h + w + h);
    }
}

#[test]
fn texture_plan_paths() {
    let t = target("png", 2048, 2048);
    let plan = plan_conversion("raw/Hero.PSD", &t);
    assert_eq!(plan.output_path, "out/Assets/Hero.png");
    assert_eq!(plan.fallback_path, "out/Assets/Hero.psd");
    let plan = plan_conversion("raw/noext", &t);
    assert_eq!(plan.output_path, "out/Assets/noext.png");
    assert_eq!(plan.fallback_path, "out/Assets/noext.");
}

#[test]
fn texture_save_resizes_and_falls_back_to_png() {
    let t = target("png", 1024, 1024);
    let plan = plan_conversion("raw/a.png", &t);
    let save = save_step(&plan, &t, 4000, 4000);
    assert_eq!(save.path, "out/Assets/a.png");
    assert_eq!(save.resize, Some((1024, 1024)));
    let save = save_step(&plan, &t, 100, 100);
    assert_eq!(save.resize, None);
    let t = target("dds", 1024, 1024);
    let plan = plan_conversion("raw/a.png", &t);
    assert_eq!(plan.output_path, "out/Assets/a.dds");
    let save = save_step(&plan, &t, 10, 10);
    assert_eq!(save.path, "out/Assets/a.png");
}

#[test]
fn fit_within_keeps_landscape() {
    for &(w, h, mw, mh) in &[
        (4096u32, 2048u32, 2048u32, 2048u32),
        (3000, 1000, 512, 2048),
        (5000, 4999, 100, 3000),
        (7, 7, 3, 1),
        (u32::MAX, 1, 10, 0),
    ] {
        let (nw, nh) = fit_within(w, h, mw, mh);
        assert!(nw >= nh, "{}x{} in {}x{} gave {}x{}", w, h, mw, mh, nw, nh);
    }
}
