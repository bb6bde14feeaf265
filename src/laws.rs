use vstd::prelude::*;
use crate::color::{Hsva, ONE, FULL_TURN};
use crate::config::{Filter, FilterOperation, FilterTarget, FilterType};
use crate::color::lemma_floor_unique;
use crate::engine::{
    filter_ok, image_filter_spec, pixel_chain, pixel_filter_ok, pixel_filter_spec, pixel_step,
};
use crate::color::Rgba;
use crate::raster::{map_pixels, pixel_at};
use crate::round_trip::lemma_round_trip;
use crate::raster::{contrast_channel, CONTRAST_SCALE};

verus! {

/// A saturation or brightness filter always leaves its component in `[0, ONE]`, however
/// large or small its value.
pub proof fn lemma_unit_filters_clamp(f: Filter, h: Hsva)
    requires
        h.wf(),
        f.target == FilterTarget::Saturation || f.target == FilterTarget::Brightness,
    ensures
        0 <= pixel_filter_spec(f, h).saturation <= ONE,
        0 <= pixel_filter_spec(f, h).value <= ONE,
        pixel_filter_spec(f, h).wf(),
{
}

/// Rotating the hue by a full turn gives the same value as rotating it by nothing.
pub proof fn lemma_full_turn(kind: FilterType, h: Hsva)
    requires
        h.wf(),
    ensures
        pixel_filter_spec(
            Filter {
                kind,
                target: FilterTarget::Hue,
                operation: FilterOperation::Add,
                value: FULL_TURN as i32,
            },
            h,
        ) == pixel_filter_spec(
            Filter { kind, target: FilterTarget::Hue, operation: FilterOperation::Add, value: 0 },
            h,
        ),
        pixel_filter_spec(
            Filter { kind, target: FilterTarget::Hue, operation: FilterOperation::Add, value: 0 },
            h,
        ) == h,
{
    assert((h.hue + FULL_TURN) % (FULL_TURN as int) == h.hue as int);
    assert((h.hue + 0) % (FULL_TURN as int) == h.hue as int);
}

/// Filters apply in list order: setting the saturation to 0.2 and then multiplying it by
/// 2.0 gives 0.4, whatever the pixel.
pub proof fn lemma_set_then_multiply(kind: FilterType, h: Hsva)
    requires
        h.wf(),
    ensures
        pixel_chain(
            seq![
                Filter {
                    kind,
                    target: FilterTarget::Saturation,
                    operation: FilterOperation::Replace,
                    value: 200_000,
                },
                Filter {
                    kind,
                    target: FilterTarget::Saturation,
                    operation: FilterOperation::Multiply,
                    value: 2_000_000,
                },
            ],
            kind,
            h,
        ).saturation == 400_000,
{
    let a = Filter {
        kind,
        target: FilterTarget::Saturation,
        operation: FilterOperation::Replace,
        value: 200_000,
    };
    let b = Filter {
        kind,
        target: FilterTarget::Saturation,
        operation: FilterOperation::Multiply,
        value: 2_000_000,
    };
    let fs = seq![a, b];
    assert(fs.drop_last() =~= seq![a]);
    assert(seq![a].drop_last() =~= Seq::<Filter>::empty());
    assert(pixel_chain(Seq::<Filter>::empty(), kind, h) == h);
    assert(seq![a].last() == a);
    assert(fs.last() == b);
    assert(pixel_chain(seq![a], kind, h) == pixel_filter_spec(a, h));
    assert((200_000 * 2_000_000) as int / (ONE as int) == 400_000);
}

/// A pixel-scope contrast filter has no meaning, whatever its operation.
pub proof fn lemma_pixel_contrast_rejected(f: Filter)
    requires
        f.kind == FilterType::Pixel,
        f.target == FilterTarget::Contrast,
    ensures
        !filter_ok(f),
        !pixel_filter_ok(f),
{
}

/// Contrast multiplied by 1.0 leaves every buffer as it is.
pub proof fn lemma_unit_contrast(kind: FilterType, data: Seq<u8>)
    ensures
        image_filter_spec(
            Filter {
                kind,
                target: FilterTarget::Contrast,
                operation: FilterOperation::Multiply,
                value: ONE as i32,
            },
            data,
        ) == data,
{
    assert forall|j: int| 0 <= j < data.len() implies contrast_channel(#[trigger] data[j] as int, 0)
        == data[j] as int by {
        let c = data[j] as int;
        assert(CONTRAST_SCALE == 100_000_000 * 100_000_000);
        assert((2 * c - 255) * 100_000_000 * 100_000_000 + 255 * CONTRAST_SCALE == 2
            * CONTRAST_SCALE * c) by (nonlinear_arith)
            requires
                CONTRAST_SCALE == 100_000_000 * 100_000_000,
        ;
        lemma_floor_unique(2 * CONTRAST_SCALE * c, 2 * CONTRAST_SCALE, c);
    }
    assert(image_filter_spec(
        Filter {
            kind,
            target: FilterTarget::Contrast,
            operation: FilterOperation::Multiply,
            value: ONE as i32,
        },
        data,
    ) =~= data);
}

/// Walking the pixels with no hue and no filters gives the buffer back unchanged: every
/// pixel survives the trip to HSVA and back.
pub proof fn lemma_walk_round_trip(kind: FilterType, data: Seq<u8>)
    requires
        data.len() % 4 == 0,
    ensures
        map_pixels(data, |p: Rgba| pixel_step(None, Seq::<Filter>::empty(), kind, p)) == data,
{
    let out = map_pixels(data, |p: Rgba| pixel_step(None, Seq::<Filter>::empty(), kind, p));
    assert forall|j: int| 0 <= j < data.len() implies #[trigger] out[j] == data[j] by {
        let i = j / 4;
        assert(4 * i + j % 4 == j);
        assert(4 * i + 3 < data.len());
        lemma_round_trip(pixel_at(data, i));
    }
    assert(out =~= data);
}

} // verus!
