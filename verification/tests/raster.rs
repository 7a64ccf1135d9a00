use rift::config::{AudioTargetConfig, TargetConfig, TextureTargetConfig};
use rift::converters::raster::{fit_image, ColorLayout, ImageData, ImageSamples};

fn target(max_w: u32, max_h: u32) -> TargetConfig {
    TargetConfig {
        engine: "unity".to_string(),
        project: "out".to_string(),
        textures: TextureTargetConfig { format: "png".to_string(), max_width: max_w, max_height: max_h, generate_mipmaps: false },
        audio: AudioTargetConfig::default(),
    }
}

fn solid(w: u32, h: u32, value: u8) -> ImageData {
    ImageData { layout: ColorLayout::Rgb8, width: w, height: h, samples: ImageSamples::Rgba8(vec![value; (4 * w * h) as usize]) }
}

#[test]
fn large_image_is_resized_into_the_box() {
    let out = fit_image(solid(400, 200, 90), &target(100, 100));
    assert_eq!((out.width, out.height), (100, 50));
    assert_eq!(out.layout, ColorLayout::Rgb8);
    match out.samples {
        ImageSamples::Rgba8(s) => {
            assert_eq!(s.len(), 4 * 100 * 50);
            assert!(s.iter().all(|&b| b == 90));
        }
        other => panic!("unexpected samples {:?}", other),
    }
}

#[test]
fn tall_16_bit_image_keeps_its_kind() {
    let img = ImageData { layout: ColorLayout::L16, width: 20, height: 80, samples: ImageSamples::Rgba16(vec![1000; 4 * 20 * 80]) };
    let out = fit_image(img, &target(64, 40));
    assert_eq!((out.width, out.height), (10, 40));
    assert_eq!(out.layout, ColorLayout::L16);
    assert!(matches!(out.samples, ImageSamples::Rgba16(ref s) if s.len() == 4 * 10 * 40));
}

#[test]
fn small_image_is_kept() {
    let out = fit_image(solid(30, 10, 7), &target(100, 100));
    assert_eq!((out.width, out.height), (30, 10));
    assert!(matches!(out.samples, ImageSamples::Rgba8(ref s) if s.len() == 1200 && s.iter().all(|&b| b == 7)));
}

#[test]
fn resize_fits_the_box_as_image_does() {
    let out = fit_image(solid(5, 3, 1), &target(4, 4));
    assert_eq!((out.width, out.height), (4, 2));
    let out = fit_image(solid(400, 400, 1), &target(128, 128));
    assert_eq!((out.width, out.height), (128, 128));
    let out = fit_image(solid(300, 200, 1), &target(128, 128));
    assert_eq!((out.width, out.height), (128, 85));
}
