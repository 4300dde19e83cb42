//! What the icons look like, in pixels.
//!
//! Lengths are those of [`crate::icon`]: eighths of a pixel from the centre of the
//! icon, with the samples on odd coordinates. The ring lies from 82 to 110 of
//! them, the dot within 32.
use vstd::prelude::*;

use crate::icon::Drawing;
use crate::icon::Tone;

verus! {

use crate::icon::{bare_track, coverage, gauge, law_alpha_is_a_byte, level, offset};
use crate::sweep::{clockwise_from_up, law_sweep_quarters, swept};

/// How far to the right of the centre the sample in column `a` of the pixel in
/// column `column` lies. Rows count down in the same way.
pub open spec fn place(column: int, a: int) -> int {
    8 * column + 2 * a - 127
}

/// The squared distance of a sample of a pixel from the centre.
pub open spec fn distance2(column: int, row: int, a: int, b: int) -> int {
    place(column, a) * place(column, a) + place(row, b) * place(row, b)
}

/// Whether the whole pixel lies in the ring.
pub open spec fn all_ring(column: int, row: int) -> bool {
    forall|a: int, b: int|
        0 <= a < 4 && 0 <= b < 4 ==> 6724 <= #[trigger] distance2(column, row, a, b) <= 12100
}

/// Whether no sample of the pixel lies in the ring.
pub open spec fn no_ring(column: int, row: int) -> bool {
    forall|a: int, b: int|
        0 <= a < 4 && 0 <= b < 4 ==> {
            ||| #[trigger] distance2(column, row, a, b) < 6724
            ||| distance2(column, row, a, b) > 12100
        }
}

/// Whether the whole pixel lies in the dot.
pub open spec fn all_dot(column: int, row: int) -> bool {
    forall|a: int, b: int|
        0 <= a < 4 && 0 <= b < 4 ==> #[trigger] distance2(column, row, a, b) <= 1024
}

/// Whether no sample of the pixel lies in the dot.
pub open spec fn no_dot(column: int, row: int) -> bool {
    forall|a: int, b: int|
        0 <= a < 4 && 0 <= b < 4 ==> #[trigger] distance2(column, row, a, b) > 1024
}

/// The place of a pixel's alpha among the bytes of an icon.
pub open spec fn alpha_byte(column: int, row: int) -> int {
    4 * (32 * row + column) + 3
}

/// The quadrant that a pixel lies in, clockwise from the top.
pub open spec fn quadrant(column: int, row: int) -> int {
    if column >= 16 && row < 16 {
        0
    } else if column >= 16 {
        1
    } else if row >= 16 {
        2
    } else {
        3
    }
}

proof fn lemma_distance(column: int, row: int, a: int, b: int)
    ensures
        offset(4 * column + a) == place(column, a),
        offset(4 * row + b) == place(row, b),
        offset(4 * column + a) * offset(4 * column + a) + offset(4 * row + b) * offset(4 * row + b)
            == distance2(column, row, a, b),
{
    assert(offset(4 * column + a) == place(column, a));
    assert(offset(4 * row + b) == place(row, b));
}

/// A pixel whose samples all have one alpha.
proof fn lemma_uniform(drawing: Drawing, x: int, y: int, alpha: int, n: nat)
    requires
        n <= 16,
        forall|a: int, b: int|
            0 <= a < 4 && 0 <= b < 4 ==> #[trigger] drawing.alpha(4 * x + a, 4 * y + b) == alpha,
    ensures
        drawing.total_alpha(x, y, n) == alpha * n,
    decreases n,
{
    if n > 0 {
        let i = n - 1;
        lemma_uniform(drawing, x, y, alpha, i as nat);
        assert(drawing.alpha(4 * x + i % 4, 4 * y + i / 4) == alpha);
        assert(alpha * i + alpha == alpha * n) by (nonlinear_arith)
            requires
                n == i + 1,
        ;
    } else {
        assert(alpha * n == 0) by (nonlinear_arith)
            requires
                n == 0,
        ;
    }
}

/// Two pixels whose samples agree one by one.
proof fn lemma_alike(one: Drawing, other: Drawing, x: int, y: int, n: nat)
    requires
        n <= 16,
        forall|a: int, b: int|
            0 <= a < 4 && 0 <= b < 4 ==> #[trigger] one.alpha(4 * x + a, 4 * y + b) == other.alpha(
                4 * x + a,
                4 * y + b,
            ),
    ensures
        one.total_alpha(x, y, n) == other.total_alpha(x, y, n),
    decreases n,
{
    if n > 0 {
        let i = n - 1;
        lemma_alike(one, other, x, y, i as nat);
        assert(one.alpha(4 * x + i % 4, 4 * y + i / 4) == other.alpha(
            4 * x + i % 4,
            4 * y + i / 4,
        ));
    }
}

proof fn lemma_bytes(percent: u16, tone: Tone, column: int, row: int)
    requires
        0 <= column < 32,
        0 <= row < 32,
    ensures
        gauge(percent, tone)[alpha_byte(column, row)] == Drawing::Gauge(level(percent)).pixel_alpha(
            column,
            row,
        ),
        bare_track(tone)[alpha_byte(column, row)] == Drawing::Track.pixel_alpha(column, row) / 2,
{
    let pixel = 32 * row + column;
    assert(pixel % 32 == column && pixel / 32 == row);
    assert((4 * pixel + 3) % 4 == 3 && (4 * pixel + 3) / 4 == pixel);
    law_alpha_is_a_byte(Drawing::Gauge(level(percent)), column, row);
    law_alpha_is_a_byte(Drawing::Track, column, row);
}

/// An icon has 32 by 32 pixels of four bytes. The first three are the colour of
/// its tone, the fourth is the alpha of the gauge at the icon's own percentage,
/// or at 100 beyond that.
pub proof fn law_icon_shows_its_percentage(percent: u16, tone: Tone, pixel: int)
    requires
        0 <= pixel < 1024,
    ensures
        gauge(percent, tone).len() == 4096,
        coverage(percent).len() == 1024,
        gauge(percent, tone)[4 * pixel + 3] == coverage(percent)[pixel],
        gauge(percent, tone)[4 * pixel + 3] == Drawing::Gauge(
            if percent < 100 {
                percent
            } else {
                100
            },
        ).pixel_alpha(pixel % 32, pixel / 32),
        gauge(percent, tone)[4 * pixel] == (if tone == Tone::Light {
            0xF2u8
        } else {
            0x1C
        }),
        gauge(percent, tone)[4 * pixel + 1] == (if tone == Tone::Light {
            0xF5u8
        } else {
            0x1F
        }),
        gauge(percent, tone)[4 * pixel + 2] == (if tone == Tone::Light {
            0xF9u8
        } else {
            0x24
        }),
{
    lemma_bytes(percent, tone, pixel % 32, pixel / 32);
    assert((4 * pixel) % 4 == 0 && (4 * pixel + 1) % 4 == 1 && (4 * pixel + 2) % 4 == 2);
    assert((4 * pixel + 3) % 4 == 3 && (4 * pixel + 3) / 4 == pixel);
}

/// Beyond 100 percent the icon is that of 100 percent.
pub proof fn law_icon_is_full_from_a_hundred(percent: u16, tone: Tone)
    requires
        percent >= 100,
    ensures
        gauge(percent, tone) == gauge(100, tone),
        coverage(percent) == coverage(100),
{
}

/// Quarters of the brightness fill quadrants of the ring: at 25, 50, 75 and 100
/// percent a pixel in the ring is solid in the first one, two, three and four
/// quadrants clockwise from the top, and faint in the others. At 0 percent all
/// of the ring is faint.
pub proof fn law_quarters_fill_quadrants(quarters: u16, tone: Tone, column: int, row: int)
    requires
        quarters <= 4,
        0 <= column < 32,
        0 <= row < 32,
        all_ring(column, row),
    ensures
        gauge((25 * quarters) as u16, tone)[alpha_byte(column, row)] == (if quadrant(column, row)
            < quarters {
            255u8
        } else {
            71
        }),
{
    let percent = (25 * quarters) as u16;
    let drawing = Drawing::Gauge(percent);
    let full = quadrant(column, row) < quarters;
    assert forall|a: int, b: int| 0 <= a < 4 && 0 <= b < 4 implies #[trigger] drawing.alpha(
        4 * column + a,
        4 * row + b,
    ) == (if full {
        100
    } else {
        28int
    }) by {
        lemma_distance(column, row, a, b);
        assert(6724 <= distance2(column, row, a, b) <= 12100);
        let (right, down) = (place(column, a), place(row, b));
        law_sweep_quarters(right, down, quarters as int);
        assert(clockwise_from_up(right, down).quarters == quadrant(column, row));
    }
    lemma_uniform(
        drawing,
        column,
        row,
        if full {
            100
        } else {
            28
        },
        16,
    );
    lemma_bytes(percent, tone, column, row);
}

/// A pixel in the ring is solid where the sweep reaches all of it, and faint where
/// it reaches none of it.
pub proof fn law_swept_ring_is_solid(percent: u16, tone: Tone, column: int, row: int, full: bool)
    requires
        percent <= 100,
        0 <= column < 32,
        0 <= row < 32,
        all_ring(column, row),
        forall|a: int, b: int|
            0 <= a < 4 && 0 <= b < 4 ==> #[trigger] swept(
                place(column, a),
                place(row, b),
                percent as int,
            ) == full,
    ensures
        gauge(percent, tone)[alpha_byte(column, row)] == (if full {
            255u8
        } else {
            71
        }),
{
    let drawing = Drawing::Gauge(percent);
    assert forall|a: int, b: int| 0 <= a < 4 && 0 <= b < 4 implies #[trigger] drawing.alpha(
        4 * column + a,
        4 * row + b,
    ) == (if full {
        100
    } else {
        28int
    }) by {
        lemma_distance(column, row, a, b);
        assert(6724 <= distance2(column, row, a, b) <= 12100);
        assert(swept(place(column, a), place(row, b), percent as int) == full);
    }
    lemma_uniform(
        drawing,
        column,
        row,
        if full {
            100
        } else {
            28
        },
        16,
    );
    lemma_bytes(percent, tone, column, row);
}

/// Whatever the percentage, a pixel in the dot is solid, and one that has no part
/// of the dot or the ring is clear.
pub proof fn law_dot_is_solid(percent: u16, tone: Tone, column: int, row: int)
    requires
        0 <= column < 32,
        0 <= row < 32,
    ensures
        all_dot(column, row) ==> gauge(percent, tone)[alpha_byte(column, row)] == 255,
        no_dot(column, row) && no_ring(column, row) ==> gauge(percent, tone)[alpha_byte(
            column,
            row,
        )] == 0,
{
    let drawing = Drawing::Gauge(level(percent));
    lemma_bytes(percent, tone, column, row);
    if all_dot(column, row) {
        assert forall|a: int, b: int| 0 <= a < 4 && 0 <= b < 4 implies #[trigger] drawing.alpha(
            4 * column + a,
            4 * row + b,
        ) == 100 by {
            lemma_distance(column, row, a, b);
        }
        lemma_uniform(drawing, column, row, 100, 16);
    }
    if no_dot(column, row) && no_ring(column, row) {
        assert forall|a: int, b: int| 0 <= a < 4 && 0 <= b < 4 implies #[trigger] drawing.alpha(
            4 * column + a,
            4 * row + b,
        ) == 0 by {
            lemma_distance(column, row, a, b);
            assert(distance2(column, row, a, b) > 1024);
        }
        lemma_uniform(drawing, column, row, 0, 16);
    }
}

/// The percentage shows in the ring and nowhere else.
pub proof fn law_percentage_shows_in_the_ring(
    one: u16,
    other: u16,
    tone: Tone,
    column: int,
    row: int,
)
    requires
        0 <= column < 32,
        0 <= row < 32,
        no_ring(column, row),
    ensures
        gauge(one, tone)[alpha_byte(column, row)] == gauge(other, tone)[alpha_byte(column, row)],
{
    let (first, second) = (Drawing::Gauge(level(one)), Drawing::Gauge(level(other)));
    assert forall|a: int, b: int| 0 <= a < 4 && 0 <= b < 4 implies #[trigger] first.alpha(
        4 * column + a,
        4 * row + b,
    ) == second.alpha(4 * column + a, 4 * row + b) by {
        lemma_distance(column, row, a, b);
        assert(distance2(column, row, a, b) < 6724 || distance2(column, row, a, b) > 12100);
    }
    lemma_alike(first, second, column, row, 16);
    lemma_bytes(one, tone, column, row);
    lemma_bytes(other, tone, column, row);
}

/// The alpha of a pixel is the mean of its sixteen samples on a scale to 255, to
/// the nearest and up from the middle; the samples add up one by one.
pub proof fn law_pixel_is_the_mean(drawing: Drawing, column: int, row: int, n: nat)
    ensures
        510 * drawing.total_alpha(column, row, 16) - 1600 < 3200 * drawing.pixel_alpha(column, row)
            <= 510 * drawing.total_alpha(column, row, 16) + 1600,
        drawing.total_alpha(column, row, 0) == 0,
        drawing.total_alpha(column, row, n + 1) == drawing.total_alpha(column, row, n)
            + drawing.alpha(4 * column + (n as int) % 4, 4 * row + (n as int) / 4),
{
}

/// A sample is solid in the dot and where the sweep has come, faint in the rest of
/// the ring, and clear elsewhere.
pub proof fn law_sample(percent: u16, column: int, row: int, a: int, b: int)
    ensures
        ({
            let alpha = Drawing::Gauge(percent).alpha(4 * column + a, 4 * row + b);
            let track = Drawing::Track.alpha(4 * column + a, 4 * row + b);
            let d = distance2(column, row, a, b);
            &&& d <= 1024 ==> alpha == 100 && track == 0
            &&& 6724 <= d <= 12100 ==> track == 28
            &&& 6724 <= d <= 12100 ==> (alpha == 100 <==> swept(
                place(column, a),
                place(row, b),
                percent as int,
            ))
            &&& 6724 <= d <= 12100 ==> alpha == 100 || alpha == 28
            &&& d > 1024 && !(6724 <= d <= 12100) ==> alpha == 0 && track == 0
        }),
{
    lemma_distance(column, row, a, b);
}

/// The "no monitor" icon has the colour of its tone and the same shape in both
/// tones. A pixel in the ring has alpha 35, one without any part of it is clear.
pub proof fn law_disconnected_icon(tone: Tone, column: int, row: int)
    requires
        0 <= column < 32,
        0 <= row < 32,
    ensures
        ({
            let pixel = 32 * row + column;
            let icon = bare_track(tone);
            &&& icon.len() == 4096
            &&& icon[4 * pixel] == (if tone == Tone::Light {
                0xF2u8
            } else {
                0x1C
            })
            &&& icon[4 * pixel + 1] == (if tone == Tone::Light {
                0xF5u8
            } else {
                0x1F
            })
            &&& icon[4 * pixel + 2] == (if tone == Tone::Light {
                0xF9u8
            } else {
                0x24
            })
            &&& icon[4 * pixel + 3] == bare_track(Tone::Light)[4 * pixel + 3]
            &&& icon[4 * pixel + 3] == Drawing::Track.pixel_alpha(column, row) / 2
            &&& all_ring(column, row) ==> icon[4 * pixel + 3] == 35
            &&& no_ring(column, row) ==> icon[4 * pixel + 3] == 0
        }),
{
    let pixel = 32 * row + column;
    lemma_bytes(0, tone, column, row);
    lemma_bytes(0, Tone::Light, column, row);
    assert((4 * pixel) % 4 == 0 && (4 * pixel + 1) % 4 == 1 && (4 * pixel + 2) % 4 == 2);
    let drawing = Drawing::Track;
    if all_ring(column, row) {
        assert forall|a: int, b: int| 0 <= a < 4 && 0 <= b < 4 implies #[trigger] drawing.alpha(
            4 * column + a,
            4 * row + b,
        ) == 28 by {
            lemma_distance(column, row, a, b);
            assert(6724 <= distance2(column, row, a, b) <= 12100);
        }
        lemma_uniform(drawing, column, row, 28, 16);
    }
    if no_ring(column, row) {
        assert forall|a: int, b: int| 0 <= a < 4 && 0 <= b < 4 implies #[trigger] drawing.alpha(
            4 * column + a,
            4 * row + b,
        ) == 0 by {
            lemma_distance(column, row, a, b);
            assert(distance2(column, row, a, b) < 6724 || distance2(column, row, a, b) > 12100);
        }
        lemma_uniform(drawing, column, row, 0, 16);
    }
}

/// Where a pixel has no part of the dot, the "no monitor" icon is just half as
/// strong as the gauge at 0 percent.
pub proof fn law_disconnected_is_half_of_empty(tone: Tone, column: int, row: int)
    requires
        0 <= column < 32,
        0 <= row < 32,
        no_dot(column, row),
    ensures
        bare_track(tone)[alpha_byte(column, row)] == gauge(0, tone)[alpha_byte(column, row)] / 2,
{
    let (track, empty) = (Drawing::Track, Drawing::Gauge(0));
    assert forall|a: int, b: int| 0 <= a < 4 && 0 <= b < 4 implies #[trigger] track.alpha(
        4 * column + a,
        4 * row + b,
    ) == empty.alpha(4 * column + a, 4 * row + b) by {
        lemma_distance(column, row, a, b);
        assert(distance2(column, row, a, b) > 1024);
        law_sweep_quarters(place(column, a), place(row, b), 0);
    }
    lemma_alike(track, empty, column, row, 16);
    lemma_bytes(0, tone, column, row);
}

} // verus!
