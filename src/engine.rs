use vstd::prelude::*;
use vstd::arithmetic::div_mod::lemma_mod_multiples_basic;
use crate::color::{
    floor_div, from_hsva, from_hsva_spec, hue_of, to_hsva, to_hsva_spec, wrap_degrees, wrap_hue,
    Hsva, Rgba, FULL_TURN, ONE,
};
use crate::config::{DyeColorConfig, Filter, FilterOperation, FilterTarget, FilterType};
use crate::raster::{alpha_kept, brightened, contrasted, map_pixels, pixel_at, RgbaImage};

verus! {

/// The error of the filter engine.
#[derive(Clone, Copy, Debug, PartialEq, Eq, Structural)]
pub enum Error {
    /// A filter has a target and operation that mean nothing for its type.
    InvalidFilter(FilterType, FilterTarget, FilterOperation),
}

/// The error that reports filter `f`.
pub open spec fn error_of(f: Filter) -> Error {
    Error::InvalidFilter(f.kind, f.target, f.operation)
}

impl Error {
    /// Creates an invalid filter error.
    pub fn invalid_filter(filter: Filter) -> (e: Self)
        ensures
            e == error_of(filter),
    {
        Error::InvalidFilter(filter.kind, filter.target, filter.operation)
    }
}

/// A value clamped to `[0, ONE]`.
pub open spec fn clamp_unit(x: int) -> int {
    if x < 0 {
        0
    } else if x > ONE {
        ONE as int
    } else {
        x
    }
}

/// A saturation or brightness after operation `op` with fixed-point `v`.
pub open spec fn adjust_unit_spec(op: FilterOperation, cur: int, v: int) -> int {
    match op {
        FilterOperation::Add => clamp_unit(cur + v),
        FilterOperation::Multiply => clamp_unit(cur * v / ONE as int),
        FilterOperation::Replace => clamp_unit(v),
    }
}

/// A hue after operation `op` with `v` (millionths of a degree), wrapped into one turn.
pub open spec fn adjust_hue_spec(op: FilterOperation, cur: int, v: int) -> int {
    match op {
        FilterOperation::Add => wrap_hue(cur + v),
        FilterOperation::Multiply => wrap_hue(cur * v / ONE as int),
        FilterOperation::Replace => wrap_hue(v),
    }
}

/// Whether `f` has a meaning for a single pixel: every target but contrast.
pub open spec fn pixel_filter_ok(f: Filter) -> bool {
    f.target != FilterTarget::Contrast
}

/// Whether `f` has a meaning for a whole image.
pub open spec fn image_filter_ok(f: Filter) -> bool {
    match f.target {
        FilterTarget::Contrast => f.operation != FilterOperation::Replace,
        FilterTarget::Hue => f.operation == FilterOperation::Add,
        FilterTarget::Saturation => true,
        FilterTarget::Brightness => f.operation == FilterOperation::Add,
    }
}

/// Whether `f` has a meaning for its own type.
pub open spec fn filter_ok(f: Filter) -> bool {
    if f.kind == FilterType::Pixel {
        pixel_filter_ok(f)
    } else {
        image_filter_ok(f)
    }
}

/// A pixel filter applied to one HSVA value (contrast leaves it as it is).
pub open spec fn pixel_filter_spec(f: Filter, h: Hsva) -> Hsva {
    match f.target {
        FilterTarget::Hue => Hsva {
            hue: adjust_hue_spec(f.operation, h.hue as int, f.value as int) as i64,
            ..h
        },
        FilterTarget::Saturation => Hsva {
            saturation: adjust_unit_spec(f.operation, h.saturation as int, f.value as int) as i64,
            ..h
        },
        FilterTarget::Brightness => Hsva {
            value: adjust_unit_spec(f.operation, h.value as int, f.value as int) as i64,
            ..h
        },
        FilterTarget::Contrast => h,
    }
}

/// Every filter of type `kind` in `fs`, in list order, applied to `h`.
pub open spec fn pixel_chain(fs: Seq<Filter>, kind: FilterType, h: Hsva) -> Hsva
    decreases fs.len(),
{
    if fs.len() == 0 {
        h
    } else {
        let prev = pixel_chain(fs.drop_last(), kind, h);
        if fs.last().kind == kind {
            pixel_filter_spec(fs.last(), prev)
        } else {
            prev
        }
    }
}

/// Whether every filter of type `kind` in `fs` has a meaning for a single pixel.
pub open spec fn chain_ok(fs: Seq<Filter>, kind: FilterType) -> bool {
    forall|i: int| 0 <= i < fs.len() && #[trigger] fs[i].kind == kind ==> pixel_filter_ok(fs[i])
}

/// `h` with its hue replaced, when a hue is given.
pub open spec fn with_hue(h: Hsva, hue: Option<i64>) -> Hsva {
    match hue {
        Some(x) => Hsva { hue: x, ..h },
        None => h,
    }
}

/// One pixel through the per-pixel path: to HSVA, hue replaced, filters of type `kind`
/// applied in order, back to RGBA.
pub open spec fn pixel_step(hue: Option<i64>, fs: Seq<Filter>, kind: FilterType, p: Rgba) -> Rgba {
    from_hsva_spec(pixel_chain(fs, kind, with_hue(to_hsva_spec(p), hue)))
}

/// `v` millionths rounded to a whole number, halves away from zero.
pub open spec fn round_units(v: int) -> int {
    if v >= 0 {
        (v + ONE / 2) / ONE as int
    } else {
        -((-v + ONE / 2) / ONE as int)
    }
}

/// Whether the library states the effect of image filter `f` exactly: every target but hue,
/// whose rotation the image crate computes in floating point.
pub open spec fn image_filter_exact(f: Filter) -> bool {
    f.target != FilterTarget::Hue
}

/// Whether no image filter of `fs` rotates the hue.
pub open spec fn no_image_hue(fs: Seq<Filter>) -> bool {
    forall|i: int|
        0 <= i < fs.len() && #[trigger] fs[i].kind == FilterType::Image ==> image_filter_exact(
            fs[i],
        )
}

/// The effect of a meaningful image filter, other than a hue rotation, on a raw buffer.
pub open spec fn image_filter_spec(f: Filter, data: Seq<u8>) -> Seq<u8>
    recommends
        image_filter_exact(f),
{
    match f.target {
        FilterTarget::Contrast => contrasted(
            data,
            if f.operation == FilterOperation::Add {
                f.value as int
            } else {
                f.value - ONE
            },
        ),
        FilterTarget::Hue => arbitrary(),
        FilterTarget::Saturation => map_pixels(
            data,
            |p: Rgba| pixel_step(None, seq![f], f.kind, p),
        ),
        FilterTarget::Brightness => brightened(data, round_units(f.value as int)),
    }
}

/// Every image filter of `fs`, in list order, applied to a raw buffer (meaningful when none
/// rotates the hue).
pub open spec fn image_chain(fs: Seq<Filter>, data: Seq<u8>) -> Seq<u8>
    decreases fs.len(),
{
    if fs.len() == 0 {
        data
    } else {
        let prev = image_chain(fs.drop_last(), data);
        if fs.last().kind == FilterType::Image {
            image_filter_spec(fs.last(), prev)
        } else {
            prev
        }
    }
}

/// The hue of a dye's base color.
pub open spec fn target_hue(rgb: [u8; 3]) -> int {
    hue_of(rgb[0] as int, rgb[1] as int, rgb[2] as int)
}

/// The whole transform of a raw buffer for a dye whose filters are all meaningful and
/// whose image filters do not rotate the hue.
pub open spec fn transformed(fs: Seq<Filter>, rgb: [u8; 3], data: Seq<u8>) -> Seq<u8> {
    image_chain(
        fs,
        map_pixels(
            data,
            |p: Rgba| pixel_step(Some(target_hue(rgb) as i64), fs, FilterType::Pixel, p),
        ),
    )
}

/// `k` is the first filter of `fs` without a meaning for its type.
pub open spec fn first_bad(fs: Seq<Filter>, k: int) -> bool {
    &&& 0 <= k < fs.len()
    &&& !filter_ok(fs[k])
    &&& forall|i: int| 0 <= i < k ==> filter_ok(#[trigger] fs[i])
}

fn clamp_to_unit(x: i64) -> (r: i64)
    ensures
        r == clamp_unit(x as int),
{
    if x < 0 {
        0
    } else if x > ONE {
        ONE
    } else {
        x
    }
}

fn adjust_unit(op: FilterOperation, cur: i64, v: i32) -> (r: i64)
    requires
        0 <= cur <= ONE,
    ensures
        r == adjust_unit_spec(op, cur as int, v as int),
        0 <= r <= ONE,
{
    match op {
        FilterOperation::Add => clamp_to_unit(cur + v as i64),
        FilterOperation::Multiply => {
            assert(-3_000_000_000_000_000 <= cur * v <= 3_000_000_000_000_000) by (nonlinear_arith)
                requires
                    0 <= cur <= ONE,
                    i32::MIN <= v <= i32::MAX,
            ;
            clamp_to_unit(floor_div(cur * v as i64, ONE))
        },
        FilterOperation::Replace => clamp_to_unit(v as i64),
    }
}

fn adjust_hue(op: FilterOperation, cur: i64, v: i32) -> (r: i64)
    requires
        0 <= cur < FULL_TURN,
    ensures
        r == adjust_hue_spec(op, cur as int, v as int),
        0 <= r < FULL_TURN,
{
    match op {
        FilterOperation::Add => wrap_degrees(cur + v as i64),
        FilterOperation::Multiply => {
            assert(-800_000_000_000_000_000 <= cur * v <= 800_000_000_000_000_000)
                by (nonlinear_arith)
                requires
                    0 <= cur < FULL_TURN,
                    i32::MIN <= v <= i32::MAX,
            ;
            wrap_degrees(floor_div(cur * v as i64, ONE))
        },
        FilterOperation::Replace => wrap_degrees(v as i64),
    }
}

/// A meaningful pixel filter applied to one HSVA value.
fn adjust_pixel(filter: Filter, h: Hsva) -> (r: Hsva)
    requires
        h.wf(),
        pixel_filter_ok(filter),
    ensures
        r == pixel_filter_spec(filter, h),
        r.wf(),
{
    match filter.target {
        FilterTarget::Hue => Hsva { hue: adjust_hue(filter.operation, h.hue, filter.value), ..h },
        FilterTarget::Saturation => Hsva {
            saturation: adjust_unit(filter.operation, h.saturation, filter.value),
            ..h
        },
        FilterTarget::Brightness => Hsva {
            value: adjust_unit(filter.operation, h.value, filter.value),
            ..h
        },
        FilterTarget::Contrast => h,
    }
}

/// Applies a pixel-scope filter to one HSVA value; contrast has no meaning there and is
/// refused, leaving the value as it was.
pub fn apply_pixel_filter(filter: Filter, hsva: &mut Hsva) -> (r: Result<(), Error>)
    requires
        old(hsva).wf(),
    ensures
        final(hsva).wf(),
        pixel_filter_ok(filter) ==> r is Ok && *final(hsva) == pixel_filter_spec(filter, *old(hsva)),
        !pixel_filter_ok(filter) ==> r == Err::<(), Error>(error_of(filter)) && *final(hsva)
            == *old(hsva),
{
    if filter.target == FilterTarget::Contrast {
        return Err(Error::invalid_filter(filter));
    }
    *hsva = adjust_pixel(filter, *hsva);
    Ok(())
}

/// Every filter of type `kind` in `fs`, in order, applied to `h`.
fn apply_chain(fs: &Vec<Filter>, kind: FilterType, h: Hsva) -> (r: Hsva)
    requires
        h.wf(),
        chain_ok(fs@, kind),
    ensures
        r == pixel_chain(fs@, kind, h),
        r.wf(),
{
    let mut cur = h;
    let mut k: usize = 0;
    while k < fs.len()
        invariant
            k <= fs@.len(),
            cur.wf(),
            cur == pixel_chain(fs@.take(k as int), kind, h),
            chain_ok(fs@, kind),
        decreases fs@.len() - k,
    {
        let f = fs[k];
        assert(fs@.take(k + 1).drop_last() =~= fs@.take(k as int));
        assert(fs@.take(k + 1).last() == f);
        if f.kind == kind {
            cur = adjust_pixel(f, cur);
        }
        k = k + 1;
    }
    assert(fs@.take(fs@.len() as int) =~= fs@);
    cur
}

/// One pixel through the per-pixel path.
fn step_pixel(hue: Option<i64>, fs: &Vec<Filter>, kind: FilterType, p: Rgba) -> (r: Rgba)
    requires
        hue matches Some(x) ==> 0 <= x < FULL_TURN,
        chain_ok(fs@, kind),
    ensures
        r == pixel_step(hue, fs@, kind, p),
{
    let mut h = to_hsva(p);
    if let Some(x) = hue {
        h.hue = x;
    }
    let h = apply_chain(fs, kind, h);
    from_hsva(h)
}

/// Runs every pixel of the image through the per-pixel path, in row-major order: to HSVA,
/// hue replaced when one is given, the filters of type `kind` applied in order, back to RGBA.
pub fn walk_pixels(image: &mut RgbaImage, hue: Option<i64>, fs: &Vec<Filter>, kind: FilterType)
    requires
        old(image).wf(),
        hue matches Some(x) ==> 0 <= x < FULL_TURN,
        chain_ok(fs@, kind),
    ensures
        final(image).wf(),
        final(image).width == old(image).width,
        final(image).height == old(image).height,
        final(image).data@ == map_pixels(
            old(image).data@,
            |p: Rgba| pixel_step(hue, fs@, kind, p),
        ),
{
    let ghost before = image.data@;
    let ghost target = map_pixels(before, |p: Rgba| pixel_step(hue, fs@, kind, p));
    let n = image.data.len();
    let count = n / 4;
    proof {
        let wh = image.width as int * image.height as int;
        assert(n == wh * 4) by (nonlinear_arith)
            requires
                n == 4 * (image.width as int) * (image.height as int),
                wh == image.width as int * image.height as int,
        ;
        lemma_mod_multiples_basic(wh, 4);
    }
    let mut i: usize = 0;
    while i < count
        invariant
            n == image.data@.len(),
            n == before.len(),
            n % 4 == 0,
            count == n / 4,
            i <= count,
            image.width == old(image).width,
            image.height == old(image).height,
            before == old(image).data@,
            target == map_pixels(before, |p: Rgba| pixel_step(hue, fs@, kind, p)),
            hue matches Some(x) ==> 0 <= x < FULL_TURN,
            chain_ok(fs@, kind),
            forall|j: int| 0 <= j < 4 * i ==> image.data@[j] == #[trigger] target[j],
            forall|j: int| 4 * i <= j < n ==> image.data@[j] == #[trigger] before[j],
        decreases count - i,
    {
        let base = 4 * i;
        let p = Rgba {
            r: image.data[base],
            g: image.data[base + 1],
            b: image.data[base + 2],
            a: image.data[base + 3],
        };
        assert(p == pixel_at(before, i as int));
        let q = step_pixel(hue, fs, kind, p);
        image.data.set(base, q.r);
        image.data.set(base + 1, q.g);
        image.data.set(base + 2, q.b);
        image.data.set(base + 3, q.a);
        assert forall|j: int| 0 <= j < 4 * (i + 1) implies image.data@[j] == #[trigger] target[j] by {
            if j >= 4 * i {
                assert(j / 4 == i as int);
                assert(j % 4 == j - 4 * i);
            }
        }
        i = i + 1;
    }
    assert(image.data@ =~= target);
}

/// Applies an image-scope filter to the whole buffer. Combinations with no meaning for a
/// whole image are refused before anything is changed.
pub fn apply_image_filter(filter: Filter, image: &mut RgbaImage) -> (r: Result<(), Error>)
    requires
        old(image).wf(),
    ensures
        final(image).wf(),
        final(image).width == old(image).width,
        final(image).height == old(image).height,
        image_filter_ok(filter) ==> r is Ok,
        image_filter_ok(filter) && image_filter_exact(filter) ==> final(image).data@
            == image_filter_spec(filter, old(image).data@),
        image_filter_ok(filter) && !image_filter_exact(filter) ==> alpha_kept(
            old(image).data@,
            final(image).data@,
        ),
        !image_filter_ok(filter) ==> r == Err::<(), Error>(error_of(filter)) && final(image).data@
            == old(image).data@,
{
    match filter.target {
        FilterTarget::Contrast => match filter.operation {
            FilterOperation::Add => image.contrast(filter.value as i64),
            FilterOperation::Multiply => image.contrast(filter.value as i64 - ONE),
            FilterOperation::Replace => return Err(Error::invalid_filter(filter)),
        },
        FilterTarget::Hue => match filter.operation {
            FilterOperation::Add => image.huerotate(round_to_whole(filter.value)),
            _ => return Err(Error::invalid_filter(filter)),
        },
        FilterTarget::Saturation => {
            let single = vec![filter];
            assert(single@ == seq![filter]);
            walk_pixels(image, None, &single, filter.kind);
        },
        FilterTarget::Brightness => match filter.operation {
            FilterOperation::Add => image.brighten(round_to_whole(filter.value)),
            _ => return Err(Error::invalid_filter(filter)),
        },
    }
    Ok(())
}

/// `v` millionths rounded to a whole number, halves away from zero.
fn round_to_whole(v: i32) -> (r: i32)
    ensures
        r == round_units(v as int),
        -(ONE as int) <= r <= ONE,
{
    let w = v as i64;
    if w >= 0 {
        ((w + ONE / 2) / ONE) as i32
    } else {
        (-((-w + ONE / 2) / ONE)) as i32
    }
}

/// Whether `f` has a meaning for its own type.
fn check_filter(f: Filter) -> (b: bool)
    ensures
        b == filter_ok(f),
{
    match f.kind {
        FilterType::Pixel => f.target != FilterTarget::Contrast,
        FilterType::Image => match f.target {
            FilterTarget::Contrast => f.operation != FilterOperation::Replace,
            FilterTarget::Hue => f.operation == FilterOperation::Add,
            FilterTarget::Saturation => true,
            FilterTarget::Brightness => f.operation == FilterOperation::Add,
        },
    }
}

/// The position of the first filter without a meaning for its type, if any.
fn find_invalid(fs: &Vec<Filter>) -> (r: Option<usize>)
    ensures
        r is None <==> forall|i: int| 0 <= i < fs@.len() ==> filter_ok(#[trigger] fs@[i]),
        r matches Some(k) ==> first_bad(fs@, k as int),
{
    let mut k: usize = 0;
    while k < fs.len()
        invariant
            k <= fs@.len(),
            forall|i: int| 0 <= i < k ==> filter_ok(#[trigger] fs@[i]),
        decreases fs@.len() - k,
    {
        if !check_filter(fs[k]) {
            return Some(k);
        }
        k = k + 1;
    }
    None
}

/// Applies transformations to an image to convert it into a 'dyed' variant: every pixel
/// takes the hue of the dye's base color and goes through the pixel filters in order, then
/// the image filters run over the whole buffer in order. A filter whose target and
/// operation mean nothing for its type fails the whole call before any pixel changes.
pub fn transform_image(config: &DyeColorConfig, image: &mut RgbaImage) -> (r: Result<(), Error>)
    requires
        old(image).wf(),
    ensures
        final(image).wf(),
        final(image).width == old(image).width,
        final(image).height == old(image).height,
        r is Ok <==> forall|i: int| 0 <= i < config.filters@.len() ==> filter_ok(#[trigger] config.filters@[i]),
        r is Ok && no_image_hue(config.filters@) ==> final(image).data@ == transformed(
            config.filters@,
            config.rgb,
            old(image).data@,
        ),
        r matches Err(e) ==> final(image).data@ == old(image).data@ && exists|k: int|
            first_bad(config.filters@, k) && e == error_of(#[trigger] config.filters@[k]),
{
    let fs = &config.filters;
    if let Some(k) = find_invalid(fs) {
        return Err(Error::invalid_filter(fs[k]));
    }
    let base = Rgba { r: config.rgb[0], g: config.rgb[1], b: config.rgb[2], a: 255 };
    let target = to_hsva(base).hue;
    walk_pixels(image, Some(target), fs, FilterType::Pixel);
    let ghost recolored = image.data@;
    let mut k: usize = 0;
    while k < fs.len()
        invariant
            k <= fs@.len(),
            fs@ == config.filters@,
            forall|i: int| 0 <= i < fs@.len() ==> filter_ok(#[trigger] fs@[i]),
            image.wf(),
            image.width == old(image).width,
            image.height == old(image).height,
            no_image_hue(fs@) ==> image.data@ == image_chain(fs@.take(k as int), recolored),
        decreases fs@.len() - k,
    {
        let f = fs[k];
        assert(fs@.take(k + 1).drop_last() =~= fs@.take(k as int));
        assert(fs@.take(k + 1).last() == f);
        if f.kind == FilterType::Image {
            assert(filter_ok(fs@[k as int]));
            let _ = apply_image_filter(f, image);
        }
        k = k + 1;
    }
    assert(fs@.take(fs@.len() as int) =~= fs@);
    Ok(())
}

} // verus!
