//! Texture conversion: where a texture is written and at what size.

use vstd::prelude::*;
use crate::config::TargetConfig;
use crate::paths::{extension_or_empty, file_stem, join, spec_extension_or_empty, spec_file_stem, spec_join, spec_with_extension, with_extension};
use crate::text::{concat3, spec_to_lowercase, str_eq, to_lowercase, to_owned_string};

verus! {

/// `num / den` rounded down, but at least 1.
pub open spec fn floor_at_least_one(num: nat, den: nat) -> nat {
    if num < den {
        1
    } else {
        num / den
    }
}

/// The width limit binds: scaling by `max_w / w` shrinks at least as much
/// as scaling by `max_h / h`.
pub open spec fn width_binds(w: nat, h: nat, max_w: nat, max_h: nat) -> bool {
    w > 0 && max_w * h <= max_h * w
}

/// A limit as a side: at least 1.
pub open spec fn at_least_one(n: nat) -> nat {
    if n == 0 {
        1
    } else {
        n
    }
}

/// Dimensions fitted within maximum bounds, keeping the aspect ratio.
///
/// Unchanged when `w <= max_w` and `h <= max_h`. Otherwise both sides are
/// scaled by the smaller of `max_w / w` and `max_h / h`: the binding side
/// becomes its limit and the other side is scaled and rounded down; each
/// side is at least 1.
pub open spec fn spec_fit_within(w: nat, h: nat, max_w: nat, max_h: nat) -> (nat, nat) {
    if w <= max_w && h <= max_h {
        (w, h)
    } else if width_binds(w, h, max_w, max_h) {
        (at_least_one(max_w), floor_at_least_one(h * max_w, w))
    } else {
        (floor_at_least_one(w * max_h, h), at_least_one(max_h))
    }
}

fn floor_min_one(num: u64, den: u64) -> (res: u64)
    requires
        den > 0,
    ensures
        res as nat == floor_at_least_one(num as nat, den as nat),
{
    if num < den {
        1
    } else {
        num / den
    }
}

/// `floor_at_least_one(x, d)` is at most `limit` when `x <= limit * d`.
proof fn lemma_floor_at_most(x: nat, d: nat, limit: nat)
    requires
        d > 0,
        limit >= 1,
        x <= limit * d,
    ensures
        floor_at_least_one(x, d) <= limit,
{
    if x >= d {
        assert(x / d <= limit) by (nonlinear_arith)
            requires
                d > 0,
                x <= limit * d,
        ;
    }
}

/// `floor_at_least_one(x, d)` times `d` is within `d` of `x` (for `x >= 1`).
proof fn lemma_floor_close(x: nat, d: nat)
    requires
        d > 0,
        x >= 1,
    ensures
        floor_at_least_one(x, d) * d < x + d,
        x < floor_at_least_one(x, d) * d + d,
        floor_at_least_one(x, d) >= 1,
{
    if x >= d {
        assert(x / d >= 1) by (nonlinear_arith)
            requires
                x >= d,
                d > 0,
        ;
        assert((x / d) * d <= x && x < (x / d) * d + d) by (nonlinear_arith)
            requires
                d > 0,
        {
            vstd::arithmetic::div_mod::lemma_fundamental_div_mod(x as int, d as int);
        }
    }
}

/// Fits dimensions within maximum bounds, keeping the aspect ratio (see
/// `spec_fit_within`).
pub fn fit_within(w: u32, h: u32, max_w: u32, max_h: u32) -> (res: (u32, u32))
    ensures
        (res.0 as nat, res.1 as nat) == spec_fit_within(
            w as nat,
            h as nat,
            max_w as nat,
            max_h as nat,
        ),
{
    if w <= max_w && h <= max_h {
        return (w, h);
    }
    let w64 = w as u64;
    let h64 = h as u64;
    let mw = max_w as u64;
    let mh = max_h as u64;
    assert(mw * h64 <= 0xffff_ffff * 0xffff_ffffu64 && mh * w64 <= 0xffff_ffff * 0xffff_ffffu64)
        by (nonlinear_arith)
        requires
            w64 <= 0xffff_ffff,
            h64 <= 0xffff_ffff,
            mw <= 0xffff_ffff,
            mh <= 0xffff_ffff,
    ;
    if w > 0 && mw * h64 <= mh * w64 {
        let nh = floor_min_one(h64 * mw, w64);
        proof {
            assert(h64 * mw <= at_least_one(max_h as nat) * w64) by (nonlinear_arith)
                requires
                    mw * h64 <= mh * w64,
                    at_least_one(max_h as nat) >= mh,
            ;
            lemma_floor_at_most((h64 * mw) as nat, w64 as nat, at_least_one(max_h as nat));
        }
        let nw = if max_w == 0 {
            1
        } else {
            max_w
        };
        (nw, nh as u32)
    } else {
        assert(h64 > 0) by (nonlinear_arith)
            requires
                !(w64 <= mw && h64 <= mh),
                !(w64 > 0 && mw * h64 <= mh * w64),
        ;
        let nw = floor_min_one(w64 * mh, h64);
        proof {
            assert(w64 * mh <= at_least_one(max_w as nat) * h64) by (nonlinear_arith)
                requires
                    w64 == 0 || mw * h64 > mh * w64,
                    h64 > 0,
                    at_least_one(max_w as nat) >= mw,
            ;
            lemma_floor_at_most((w64 * mh) as nat, h64 as nat, at_least_one(max_w as nat));
        }
        let nh = if max_h == 0 {
            1
        } else {
            max_h
        };
        (nw as u32, nh)
    }
}

/// Dimensions already within the bounds are kept.
pub proof fn lemma_fit_within_keeps_small(w: nat, h: nat, max_w: nat, max_h: nat)
    requires
        w <= max_w,
        h <= max_h,
    ensures
        spec_fit_within(w, h, max_w, max_h) == (w, h),
{
}

/// A fitted texture lies within the bounds, keeps its aspect ratio up to
/// rounding (`|a * h - b * w| < w + h` for the new size `(a, b)`), and a
/// texture that did not fit is brought to one of its limits.
pub proof fn law_fit_within_keeps_aspect(w: nat, h: nat, max_w: nat, max_h: nat)
    requires
        w >= 1,
        h >= 1,
        max_w >= 1,
        max_h >= 1,
    ensures
        ({
            let (a, b) = spec_fit_within(w, h, max_w, max_h);
            &&& 1 <= a <= max_w
            &&& 1 <= b <= max_h
            &&& a * h < b * w + w + h
            &&& b * w < a * h + w + h
            &&& !(w <= max_w && h <= max_h) ==> (a == max_w || b == max_h)
        }),
{
    if !(w <= max_w && h <= max_h) {
        if width_binds(w, h, max_w, max_h) {
            assert(h * max_w >= 1 && h * max_w <= max_h * w && max_w * h == h * max_w) by (nonlinear_arith)
                requires
                    h >= 1,
                    max_w >= 1,
                    max_w * h <= max_h * w,
            ;
            lemma_floor_at_most(h * max_w, w, max_h);
            lemma_floor_close(h * max_w, w);
            let b = floor_at_least_one(h * max_w, w);
            assert(spec_fit_within(w, h, max_w, max_h) == (max_w, b));
            assert(b * w < h * max_w + w);
            assert(h * max_w < b * w + w);
            assert(b >= 1);
        } else {
            assert(w * max_h >= 1 && w * max_h <= max_w * h && max_h * w == w * max_h) by (nonlinear_arith)
                requires
                    w >= 1,
                    max_h >= 1,
                    max_w * h > max_h * w,
            ;
            lemma_floor_at_most(w * max_h, h, max_w);
            lemma_floor_close(w * max_h, h);
            let a = floor_at_least_one(w * max_h, h);
            assert(spec_fit_within(w, h, max_w, max_h) == (a, max_h));
            assert(a * h < w * max_h + h);
            assert(w * max_h < a * h + h);
            assert(a >= 1);
        }
    } else {
        assert(w * h == h * w) by (nonlinear_arith);
    }
}

/// Where a texture conversion writes.
#[derive(Debug, Clone)]
pub struct TexturePlan {
    /// Where the converted texture goes: `<stem>.<format>` in the project.
    pub output_path: String,
    /// Where the source is copied when it cannot be decoded: `<stem>.<ext>`
    /// with the source's lowercased extension.
    pub fallback_path: String,
}

/// The stem of a source file, or `default` when it has none.
pub open spec fn stem_or(source: Seq<char>, default: Seq<char>) -> Seq<char> {
    match spec_file_stem(source) {
        Some(s) => s,
        None => default,
    }
}

/// The plan is the one for `source` and `target`.
pub open spec fn is_texture_plan(plan: TexturePlan, source: Seq<char>, target: TargetConfig) -> bool {
    let stem = stem_or(source, "asset"@);
    let ext = spec_to_lowercase(spec_extension_or_empty(source));
    &&& plan.output_path@ == spec_join(target.project@, stem + "."@ + target.textures.format@)
    &&& plan.fallback_path@ == spec_join(target.project@, stem + "."@ + ext)
}

/// The stem of `source`, or `default`.
pub(crate) fn stem_or_default(source: &str, default: &str) -> (res: String)
    ensures
        res@ == stem_or(source@, default@),
{
    match file_stem(source) {
        Some(s) => s,
        None => to_owned_string(default),
    }
}

/// Where a texture conversion of `source` for `target` writes.
pub fn plan_conversion(source: &str, target: &TargetConfig) -> (res: TexturePlan)
    ensures
        is_texture_plan(res, source@, *target),
{
    let stem = stem_or_default(source, "asset");
    let raw = extension_or_empty(source);
    let ext = to_lowercase(raw.as_str());
    let out_name = concat3(stem.as_str(), ".", target.textures.format.as_str());
    let fb_name = concat3(stem.as_str(), ".", ext.as_str());
    TexturePlan {
        output_path: join(target.project.as_str(), out_name.as_str()),
        fallback_path: join(target.project.as_str(), fb_name.as_str()),
    }
}

/// How a decoded texture is saved.
#[derive(Debug, Clone)]
pub struct TextureSave {
    /// The file the image is saved to; its extension picks the encoding.
    pub path: String,
    /// The new size, when the image must be resized.
    pub resize: Option<(u32, u32)>,
}

/// The formats a texture is saved in as asked; any other is saved as PNG.
pub open spec fn known_texture_format(fmt: Seq<char>) -> bool {
    fmt == "png"@ || fmt == "jpg"@ || fmt == "jpeg"@ || fmt == "webp"@ || fmt == "bmp"@ || fmt
        == "tiff"@
}

/// The save is the one for a decoded image of size `w` x `h`: resized to
/// the fitted size when that differs, saved at the planned path for a known
/// format and with a `.png` extension otherwise.
pub open spec fn is_texture_save(
    save: TextureSave,
    plan: TexturePlan,
    target: TargetConfig,
    w: u32,
    h: u32,
) -> bool {
    let fit = spec_fit_within(
        w as nat,
        h as nat,
        target.textures.max_width as nat,
        target.textures.max_height as nat,
    );
    &&& (if fit == (w as nat, h as nat) {
        save.resize is None
    } else {
        save.resize matches Some((nw, nh)) && nw as nat == fit.0 && nh as nat == fit.1
    })
    &&& save.path@ == (if known_texture_format(target.textures.format@) {
        plan.output_path@
    } else {
        spec_with_extension(plan.output_path@, "png"@)
    })
}

/// How a decoded texture of size `w` x `h` is saved.
pub fn save_step(plan: &TexturePlan, target: &TargetConfig, w: u32, h: u32) -> (res: TextureSave)
    ensures
        is_texture_save(res, *plan, *target, w, h),
{
    let (nw, nh) = fit_within(w, h, target.textures.max_width, target.textures.max_height);
    let resize = if nw != w || nh != h {
        Some((nw, nh))
    } else {
        None
    };
    let f = target.textures.format.as_str();
    let path = if str_eq(f, "png") || str_eq(f, "jpg") || str_eq(f, "jpeg") || str_eq(f, "webp")
        || str_eq(f, "bmp") || str_eq(f, "tiff") {
        plan.output_path.clone()
    } else {
        with_extension(plan.output_path.as_str(), "png")
    };
    TextureSave { path, resize }
}

/// A decoded texture is saved as planned: for the formats png, jpg, jpeg,
/// webp, bmp and tiff at the planned output path, `<stem>.<format>` in the
/// target's project; for any other format at that path with its extension
/// replaced by `png`. It is resized only when it does not fit, into the
/// bounds and to one of them. A texture that cannot be decoded is copied
/// to `<stem>.<lowercased extension>` in the project.
pub proof fn law_texture_saved_in_its_format(
    save: TextureSave,
    plan: TexturePlan,
    source: Seq<char>,
    target: TargetConfig,
    w: u32,
    h: u32,
)
    requires
        is_texture_plan(plan, source, target),
        is_texture_save(save, plan, target, w, h),
    ensures
        ({
            let fmt = target.textures.format@;
            let planned = spec_join(target.project@, stem_or(source, "asset"@) + "."@ + fmt);
            &&& (fmt == "png"@ || fmt == "jpg"@ || fmt == "jpeg"@ || fmt == "webp"@ || fmt == "bmp"@
                || fmt == "tiff"@) ==> save.path@ == planned
            &&& !(fmt == "png"@ || fmt == "jpg"@ || fmt == "jpeg"@ || fmt == "webp"@ || fmt == "bmp"@
                || fmt == "tiff"@) ==> save.path@ == spec_with_extension(planned, "png"@)
            &&& plan.fallback_path@ == spec_join(
                target.project@,
                stem_or(source, "asset"@) + "."@ + spec_to_lowercase(spec_extension_or_empty(source)),
            )
        }),
        (w <= target.textures.max_width && h <= target.textures.max_height) ==> save.resize is None,
        (w >= 1 && h >= 1 && target.textures.max_width >= 1 && target.textures.max_height >= 1 && !(w
            <= target.textures.max_width && h <= target.textures.max_height)) ==> (save.resize matches Some(
            (nw, nh),
        ) && 1 <= nw <= target.textures.max_width && 1 <= nh <= target.textures.max_height && (nw
            == target.textures.max_width || nh == target.textures.max_height)),
{
    if w >= 1 && h >= 1 && target.textures.max_width >= 1 && target.textures.max_height >= 1 {
        law_fit_within_keeps_aspect(
            w as nat,
            h as nat,
            target.textures.max_width as nat,
            target.textures.max_height as nat,
        );
    }
}

} // verus!
