//! The render loop and output quantization.
//!
//! Pixels are produced row-major, rows traversed top to bottom; each
//! channel is the per-pixel sample average, gamma-corrected by a square
//! root, clamped and scaled to the 8-bit range.  Under a deterministic
//! draw stream the whole raster is pinned by `spec_render`.

use vstd::prelude::*;

use crate::camera::Camera;
use crate::camera::CameraV;
use crate::camera::get_ray_spec;
use crate::fixed::SCALE;
use crate::fixed::add_sat;
use crate::fixed::div_trunc;
use crate::fixed::fx_sqrt;
use crate::fixed::fx_sqrt_spec;
use crate::fixed::sat;
use crate::fixed::tdiv;
use crate::hittable::HittableList;
use crate::math::REJECT_CAP;
use crate::math::RngSource;
use crate::math::spec_disk_sample;
use crate::math::stream_draw;
use crate::math::stream_next;
use crate::math::unit_scalar_of;
use crate::objects::Sphere;
use crate::ray::Ray;
use crate::ray::black_v3;
use crate::ray::spec_color;
use crate::vec3::Color;
use crate::vec3::V3;
use crate::vec3::Vec3;
use crate::vec3::v_add;
use crate::vec3::v_len;

verus! {

/// One channel averaged over the samples, gamma-corrected, clamped to
/// `[0, 0.999]` and scaled onto `[0, 255]`.
pub open spec fn quantize_channel_spec(sum: int, samples: int) -> int {
    let avg = sat(tdiv(sum, samples));
    let nn = if avg < 0 {
        0
    } else {
        avg
    };
    let root = fx_sqrt_spec(nn);
    let clamped = if root > 999000 {
        999000
    } else {
        root
    };
    tdiv(256 * clamped, SCALE as int)
}

/// Quantize one channel of an accumulated pixel color.
pub fn quantize_channel(sum: i64, samples: i64) -> (q: u64)
    requires
        samples > 0,
    ensures
        q as int == quantize_channel_spec(sum as int, samples as int),
        q <= 255,
{
    let avg: i64 = div_trunc(sum, samples);
    let nn: i64 = if avg < 0 {
        0
    } else {
        avg
    };
    let root: i64 = fx_sqrt(nn);
    let clamped: i64 = if root > 999000 {
        999000
    } else {
        root
    };
    let scaled: i64 = (256 * clamped) / 1000000;
    proof {
        assert(scaled as int == tdiv(256 * clamped as int, SCALE as int));
        assert(scaled <= 255);
    }
    scaled as u64
}

/// Quantize a pixel's accumulated color into its three 8-bit channels.
pub fn quantize_color(pixel_color: Color, samples_per_pixel: i64) -> (q: (u64, u64, u64))
    requires
        samples_per_pixel > 0,
    ensures
        q.0 as int == quantize_channel_spec(pixel_color@.x, samples_per_pixel as int),
        q.1 as int == quantize_channel_spec(pixel_color@.y, samples_per_pixel as int),
        q.2 as int == quantize_channel_spec(pixel_color@.z, samples_per_pixel as int),
        q.0 <= 255 && q.1 <= 255 && q.2 <= 255,
{
    (
        quantize_channel(pixel_color.x, samples_per_pixel),
        quantize_channel(pixel_color.y, samples_per_pixel),
        quantize_channel(pixel_color.z, samples_per_pixel),
    )
}

/// The sample accumulation for the pixel at column `i` of row `j` under
/// a draw stream: `s` samples remain, `acc` has been gathered so far.
/// Each sample jitters the image-plane coordinates with two draws, takes
/// a lens sample, and traces the ray; a primary ray too short to trace
/// contributes black.
pub open spec fn spec_pixel_samples(
    objs: Seq<Sphere>,
    cam: CameraV,
    i: int,
    j: int,
    width: int,
    height: int,
    depth: int,
    s: nat,
    acc: V3,
    vals: Seq<u64>,
    idx: nat,
) -> (V3, nat)
    decreases s,
{
    if s == 0 {
        (acc, idx)
    } else {
        let ju = unit_scalar_of(stream_draw(vals, idx));
        let i1 = stream_next(vals, idx);
        let jv = unit_scalar_of(stream_draw(vals, i1));
        let i2 = stream_next(vals, i1);
        let u = sat(tdiv(sat(i * (SCALE as int) + ju), width - 1));
        let v = sat(tdiv(sat(j * (SCALE as int) + jv), height - 1));
        let (d, i3) = spec_disk_sample(vals, i2, REJECT_CAP as nat);
        let ray = get_ray_spec(cam, u, v, d);
        let (sample, i4) = if v_len(ray.direction) == 0 {
            (black_v3(), i3)
        } else {
            spec_color(ray, objs, depth, vals, i3)
        };
        spec_pixel_samples(
            objs,
            cam,
            i,
            j,
            width,
            height,
            depth,
            (s - 1) as nat,
            v_add(acc, sample),
            vals,
            i4,
        )
    }
}

/// The raster from column `i` of row `j` onward under a draw stream:
/// the rest of row `j`, then the rows below it.
pub open spec fn spec_render_cont(
    objs: Seq<Sphere>,
    cam: CameraV,
    width: int,
    height: int,
    samples: int,
    depth: int,
    j: int,
    i: int,
    vals: Seq<u64>,
    idx: nat,
) -> (Seq<(u64, u64, u64)>, nat)
    decreases j + 1, width - i,
{
    if j < 0 {
        (Seq::empty(), idx)
    } else if i >= width {
        spec_render_cont(objs, cam, width, height, samples, depth, j - 1, 0, vals, idx)
    } else {
        let (acc, i1) = spec_pixel_samples(
            objs,
            cam,
            i,
            j,
            width,
            height,
            depth,
            samples as nat,
            black_v3(),
            vals,
            idx,
        );
        let px = (
            quantize_channel_spec(acc.x, samples) as u64,
            quantize_channel_spec(acc.y, samples) as u64,
            quantize_channel_spec(acc.z, samples) as u64,
        );
        let (rest, i2) = spec_render_cont(objs, cam, width, height, samples, depth, j, i + 1, vals, i1);
        (seq![px] + rest, i2)
    }
}

/// The whole raster under a draw stream, top row first.
pub open spec fn spec_render(
    objs: Seq<Sphere>,
    cam: CameraV,
    width: int,
    height: int,
    samples: int,
    depth: int,
    vals: Seq<u64>,
    idx: nat,
) -> (Seq<(u64, u64, u64)>, nat) {
    spec_render_cont(objs, cam, width, height, samples, depth, height - 1, 0, vals, idx)
}

/// Render the scene: for every pixel, average `samples` jittered primary
/// rays; rows are produced top to bottom, pixels left to right.  A
/// primary ray too short to trace contributes black.
pub fn render(
    world: &HittableList,
    camera: &Camera,
    width: i64,
    height: i64,
    samples: i64,
    depth: i64,
    rng: &mut RngSource,
) -> (pixels: Vec<(u64, u64, u64)>)
    requires
        world.wf(),
        2 <= width <= 10000,
        2 <= height <= 10000,
        1 <= samples <= 100000,
    ensures
        pixels@.len() == width * height,
        forall|k: int|
            0 <= k < pixels@.len() ==> (#[trigger] pixels@[k]).0 <= 255 && pixels@[k].1 <= 255
                && pixels@[k].2 <= 255,
        final(rng).external == old(rng).external,
        final(rng).values == old(rng).values,
        old(rng).external ==> final(rng).index == old(rng).index,
        !old(rng).external ==> ({
            let (all, jf) = spec_render(
                world.objects@,
                camera@,
                width as int,
                height as int,
                samples as int,
                depth as int,
                old(rng).values@,
                old(rng).index as nat,
            );
            pixels@ == all && final(rng).index as nat == jf
        }),
{
    let ghost objs = world.objects@;
    let ghost cam = camera@;
    let ghost vals = rng.values@;
    let ghost idx0 = rng.index as nat;
    let mut pixels: Vec<(u64, u64, u64)> = Vec::new();
    let mut j: i64 = height - 1;
    while j >= 0
        invariant
            world.wf(),
            2 <= width <= 10000,
            2 <= height <= 10000,
            1 <= samples <= 100000,
            -1 <= j <= height - 1,
            pixels@.len() == (height - 1 - j) * width,
            forall|k: int|
                0 <= k < pixels@.len() ==> (#[trigger] pixels@[k]).0 <= 255 && pixels@[k].1 <= 255
                    && pixels@[k].2 <= 255,
            rng.external == old(rng).external,
            rng.values == old(rng).values,
            vals == rng.values@,
            idx0 == old(rng).index as nat,
            objs == world.objects@,
            cam == camera@,
            old(rng).external ==> rng.index == old(rng).index,
            !old(rng).external ==> ({
                let (all, jf) = spec_render_cont(
                    objs,
                    cam,
                    width as int,
                    height as int,
                    samples as int,
                    depth as int,
                    height as int - 1,
                    0,
                    vals,
                    idx0,
                );
                let (rem, jr) = spec_render_cont(
                    objs,
                    cam,
                    width as int,
                    height as int,
                    samples as int,
                    depth as int,
                    j as int,
                    0,
                    vals,
                    rng.index as nat,
                );
                all == pixels@ + rem && jf == jr
            }),
        decreases j + 1,
    {
        let mut i: i64 = 0;
        while i < width
            invariant
                world.wf(),
                2 <= width <= 10000,
                2 <= height <= 10000,
                1 <= samples <= 100000,
                0 <= j <= height - 1,
                0 <= i <= width,
                pixels@.len() == (height - 1 - j) * width + i,
                forall|k: int|
                    0 <= k < pixels@.len() ==> (#[trigger] pixels@[k]).0 <= 255 && pixels@[k].1
                        <= 255 && pixels@[k].2 <= 255,
                rng.external == old(rng).external,
                rng.values == old(rng).values,
                vals == rng.values@,
                idx0 == old(rng).index as nat,
                objs == world.objects@,
                cam == camera@,
                old(rng).external ==> rng.index == old(rng).index,
                !old(rng).external ==> ({
                    let (all, jf) = spec_render_cont(
                        objs,
                        cam,
                        width as int,
                        height as int,
                        samples as int,
                        depth as int,
                        height as int - 1,
                        0,
                        vals,
                        idx0,
                    );
                    let (rem, jr) = spec_render_cont(
                        objs,
                        cam,
                        width as int,
                        height as int,
                        samples as int,
                        depth as int,
                        j as int,
                        i as int,
                        vals,
                        rng.index as nat,
                    );
                    all == pixels@ + rem && jf == jr
                }),
            decreases width - i,
        {
            let ghost idx_px = rng.index as nat;
            let mut pixel_color: Color = Vec3::zero();
            let mut s: i64 = 0;
            while s < samples
                invariant
                    world.wf(),
                    2 <= width <= 10000,
                    2 <= height <= 10000,
                    1 <= samples <= 100000,
                    0 <= j <= height - 1,
                    0 <= i <= width - 1,
                    0 <= s <= samples,
                    rng.external == old(rng).external,
                    rng.values == old(rng).values,
                    vals == rng.values@,
                    objs == world.objects@,
                    cam == camera@,
                    old(rng).external ==> rng.index == old(rng).index,
                    !old(rng).external ==> spec_pixel_samples(
                        objs,
                        cam,
                        i as int,
                        j as int,
                        width as int,
                        height as int,
                        depth as int,
                        samples as nat,
                        black_v3(),
                        vals,
                        idx_px,
                    ) == spec_pixel_samples(
                        objs,
                        cam,
                        i as int,
                        j as int,
                        width as int,
                        height as int,
                        depth as int,
                        (samples - s) as nat,
                        pixel_color@,
                        vals,
                        rng.index as nat,
                    ),
                decreases samples - s,
            {
                let ghost ie = rng.index as nat;
                let ghost pc_entry = pixel_color@;
                let ju: i64 = rng.random_unit_scalar();
                let jv: i64 = rng.random_unit_scalar();
                let u: i64 = div_trunc(add_sat(i * SCALE, ju), width - 1);
                let v: i64 = div_trunc(add_sat(j * SCALE, jv), height - 1);
                let ray: Ray = camera.get_ray(u, v, rng);
                let sample: Color = if ray.direction().length() == 0 {
                    Vec3::zero()
                } else {
                    ray.color(world, depth, rng)
                };
                proof {
                    if !old(rng).external {
                        assert(spec_pixel_samples(
                            objs,
                            cam,
                            i as int,
                            j as int,
                            width as int,
                            height as int,
                            depth as int,
                            (samples - s) as nat,
                            pc_entry,
                            vals,
                            ie,
                        ) == spec_pixel_samples(
                            objs,
                            cam,
                            i as int,
                            j as int,
                            width as int,
                            height as int,
                            depth as int,
                            (samples - s - 1) as nat,
                            v_add(pc_entry, sample@),
                            vals,
                            rng.index as nat,
                        ));
                    }
                }
                pixel_color = pixel_color.add(&sample);
                s = s + 1;
            }
            let px: (u64, u64, u64) = quantize_color(pixel_color, samples);
            proof {
                if !old(rng).external {
                    let w = width as int;
                    let h = height as int;
                    let smp = samples as int;
                    let dep = depth as int;
                    let (acc, i1) = spec_pixel_samples(
                        objs,
                        cam,
                        i as int,
                        j as int,
                        w,
                        h,
                        dep,
                        samples as nat,
                        black_v3(),
                        vals,
                        idx_px,
                    );
                    assert(acc == pixel_color@ && i1 == rng.index as nat);
                    let (rest, i2) = spec_render_cont(
                        objs,
                        cam,
                        w,
                        h,
                        smp,
                        dep,
                        j as int,
                        i as int + 1,
                        vals,
                        i1,
                    );
                    assert(spec_render_cont(objs, cam, w, h, smp, dep, j as int, i as int, vals, idx_px)
                        == (seq![px] + rest, i2));
                    assert(pixels@.push(px) + rest =~= pixels@ + (seq![px] + rest));
                }
            }
            pixels.push(px);
            i = i + 1;
        }
        proof {
            if !old(rng).external {
                let w = width as int;
                let h = height as int;
                let smp = samples as int;
                let dep = depth as int;
                assert(spec_render_cont(objs, cam, w, h, smp, dep, j as int, w, vals, rng.index as nat)
                    == spec_render_cont(objs, cam, w, h, smp, dep, j as int - 1, 0, vals, rng.index as nat));
            }
            assert((height - 1 - (j - 1)) * (width as int) == (height - 1 - j) * (width as int)
                + width) by (nonlinear_arith);
        }
        j = j - 1;
    }
    proof {
        assert(pixels@.len() == height * width);
        if !old(rng).external {
            let (rem, jr) = spec_render_cont(
                objs,
                cam,
                width as int,
                height as int,
                samples as int,
                depth as int,
                -1,
                0,
                vals,
                rng.index as nat,
            );
            assert(rem =~= Seq::<(u64, u64, u64)>::empty());
            assert(pixels@ + rem =~= pixels@);
        }
    }
    pixels
}

} // verus!
