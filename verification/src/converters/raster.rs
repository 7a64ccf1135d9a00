//! Decoded images and resizing them to fit a target.

use vstd::prelude::*;
use image::imageops::FilterType;
use image::{DynamicImage, ImageBuffer};
use crate::config::TargetConfig;
use crate::converters::texture::{fit_within, spec_fit_within};

verus! {

/// The color layout an image had when it was decoded; it is saved in the
/// same layout.
#[derive(Debug, Clone, Copy, PartialEq, Eq)]
pub enum ColorLayout {
    L8,
    La8,
    Rgb8,
    Rgba8,
    L16,
    La16,
    Rgb16,
    Rgba16,
    Rgb32F,
    Rgba32F,
}

/// The pixels of an image, row by row, four samples (red, green, blue,
/// alpha) per pixel.
#[derive(Debug, Clone)]
pub enum ImageSamples {
    /// 8-bit samples.
    Rgba8(Vec<u8>),
    /// 16-bit samples.
    Rgba16(Vec<u16>),
}

/// The samples as sequences.
pub enum SamplesView {
    Rgba8(Seq<u8>),
    Rgba16(Seq<u16>),
}

/// A decoded image.
#[derive(Debug, Clone)]
pub struct ImageData {
    pub layout: ColorLayout,
    pub width: u32,
    pub height: u32,
    pub samples: ImageSamples,
}

/// An image as plain values.
pub struct ImageView {
    pub layout: ColorLayout,
    pub width: u32,
    pub height: u32,
    pub samples: SamplesView,
}

impl View for ImageData {
    type V = ImageView;

    open spec fn view(&self) -> ImageView {
        ImageView {
            layout: self.layout,
            width: self.width,
            height: self.height,
            samples: match self.samples {
                ImageSamples::Rgba8(v) => SamplesView::Rgba8(v@),
                ImageSamples::Rgba16(v) => SamplesView::Rgba16(v@),
            },
        }
    }
}

/// The number of samples matches the size: four per pixel.
pub open spec fn image_wf(img: ImageView) -> bool {
    match img.samples {
        SamplesView::Rgba8(s) => s.len() == 4 * img.width * img.height,
        SamplesView::Rgba16(s) => s.len() == 4 * img.width * img.height,
    }
}

/// Both sample kinds are the same.
pub open spec fn same_sample_kind(a: SamplesView, b: SamplesView) -> bool {
    (a is Rgba8 && b is Rgba8) || (a is Rgba16 && b is Rgba16)
}

/// The size `image::DynamicImage::resize` gives a `w` x `h` image asked to
/// fit `nw` x `nh` (the crate's `resize_dimensions`, without fill: the
/// smaller of the two scale ratios, each side scaled and rounded in `f64`,
/// at least 1).
pub uninterp spec fn spec_resize_dims(w: u32, h: u32, nw: u32, nh: u32) -> (u32, u32);

/// `image::DynamicImage::resize` with `FilterType::Lanczos3`, on the image
/// as an RGBA buffer of its sample kind. As the crate documents, the aspect
/// ratio is kept and the image is scaled to the largest size that fits
/// within `nw` x `nh` (each side at least 1); that size is named by
/// `spec_resize_dims`. An image already of size `nw` x `nh` is returned as
/// it is. The samples keep their kind and the layout is
/// kept. The pixel values the filter computes are left unstated: the
/// filter's weights come from `f32::sin`, whose precision std leaves to the
/// platform, so they are not a function of the arguments.
#[verifier::external_body]
fn resize_image(img: &ImageData, nw: u32, nh: u32) -> (res: ImageData)
    requires
        image_wf(img@),
        img.width >= 1,
        img.height >= 1,
        nw >= 1,
        nh >= 1,
    ensures
        image_wf(res@),
        res.layout == img.layout,
        same_sample_kind(res@.samples, img@.samples),
        1 <= res.width <= nw,
        1 <= res.height <= nh,
        (nw == img.width && nh == img.height) ==> res@ == img@,
        (nw != img.width || nh != img.height) ==> (res.width, res.height) == spec_resize_dims(
            img.width,
            img.height,
            nw,
            nh,
        ),
{
    let (w, h) = (img.width, img.height);
    let d = match &img.samples {
        ImageSamples::Rgba8(p) => DynamicImage::ImageRgba8(ImageBuffer::from_raw(w, h, p.clone()).unwrap()),
        ImageSamples::Rgba16(p) => DynamicImage::ImageRgba16(ImageBuffer::from_raw(w, h, p.clone()).unwrap()),
    }.resize(nw, nh, FilterType::Lanczos3);
    let samples = match &img.samples {
        ImageSamples::Rgba8(_) => ImageSamples::Rgba8(d.to_rgba8().into_raw()),
        ImageSamples::Rgba16(_) => ImageSamples::Rgba16(d.to_rgba16().into_raw()),
    };
    ImageData { layout: img.layout, width: d.width(), height: d.height(), samples }
}

/// The image needs no resize for a target: its size already fits (or it
/// is empty).
pub open spec fn keeps_size(img: ImageView, target: TargetConfig) -> bool {
    spec_fit_within(
        img.width as nat,
        img.height as nat,
        target.textures.max_width as nat,
        target.textures.max_height as nat,
    ) == (img.width as nat, img.height as nat) || img.width == 0 || img.height == 0
}

/// The box a texture that does not fit is resized into: the target's
/// maximum width and height, each at least 1.
pub open spec fn resize_box(target: TargetConfig) -> (u32, u32) {
    (
        if target.textures.max_width == 0 {
            1
        } else {
            target.textures.max_width
        },
        if target.textures.max_height == 0 {
            1
        } else {
            target.textures.max_height
        },
    )
}

/// Resizes a decoded texture (Lanczos3) to fit the target's maximum size,
/// keeping its aspect ratio: an image whose size already fits is kept as it
/// is; otherwise it is resized to the largest size that fits the target's
/// box (`resize_box`), as `image` computes it (`spec_resize_dims`). The
/// layout and sample kind are kept, and the result lies within the box.
pub fn fit_image(img: ImageData, target: &TargetConfig) -> (res: ImageData)
    requires
        image_wf(img@),
    ensures
        image_wf(res@),
        res.layout == img.layout,
        same_sample_kind(res@.samples, img@.samples),
        keeps_size(img@, *target) ==> res@ == img@,
        !keeps_size(img@, *target) ==> ({
            let b = resize_box(*target);
            &&& b == (img.width, img.height) ==> res@ == img@
            &&& b != (img.width, img.height) ==> (res.width, res.height) == spec_resize_dims(
                img.width,
                img.height,
                b.0,
                b.1,
            )
            &&& 1 <= res.width <= b.0
            &&& 1 <= res.height <= b.1
        }),
        (img.width >= 1 && img.height >= 1 && target.textures.max_width >= 1
            && target.textures.max_height >= 1) ==> res.width <= target.textures.max_width
            && res.height <= target.textures.max_height,
{
    let w = img.width;
    let h = img.height;
    let mw = target.textures.max_width;
    let mh = target.textures.max_height;
    let (nw, nh) = fit_within(w, h, mw, mh);
    proof {
        if w >= 1 && h >= 1 && mw >= 1 && mh >= 1 {
            crate::converters::texture::law_fit_within_keeps_aspect(w as nat, h as nat, mw as nat, mh as nat);
        }
    }
    if (nw == w && nh == h) || w == 0 || h == 0 {
        img
    } else {
        let bw = if mw == 0 {
            1
        } else {
            mw
        };
        let bh = if mh == 0 {
            1
        } else {
            mh
        };
        resize_image(&img, bw, bh)
    }
}

} // verus!
