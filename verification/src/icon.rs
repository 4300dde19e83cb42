//! Rendering of the tray icon.
//!
//! The icon is a ring gauge: a faint full-circle track with a brighter arc
//! sweeping clockwise from the top in proportion to the current brightness,
//! plus a solid dot in the middle. It is sampled on a grid four times as fine
//! as the pixels and box-filtered down so the curves stay smooth at tray sizes.
//!
//! Lengths are in eighths of a pixel, half the spacing of the samples, so the
//! samples lie on odd coordinates around the centre and every distance is
//! decided exactly.
use vstd::prelude::*;

use crate::sweep::reaches;

verus! {

use crate::sweep::{law_sweep_grows, law_sweep_quarters, swept};

/// Edge length of the emitted icon, in pixels.
pub const SIZE: u32 = 32;

/// Samples per pixel edge.
pub const SS: u32 = 4;

/// Samples per icon edge.
pub const FINE: u32 = 128;

/// Radius of the ring's middle line: 12 pixels.
pub const RADIUS: i32 = 96;

/// Half the width of the ring: 1.75 pixels.
pub const HALF_STROKE: i32 = 14;

/// Radius of the dot: 4 pixels.
pub const DOT_RADIUS: i32 = 32;

/// Alpha of a covered sample, in hundredths.
pub const FULL_ALPHA: u8 = 100;

/// Alpha of the unfilled part of the ring, in hundredths.
pub const TRACK_ALPHA: u8 = 28;

/// Which foreground colour keeps the icon legible against the taskbar.
#[derive(Clone, Copy, PartialEq, Eq, Debug)]
pub enum Tone {
    /// Light glyph, for the default dark taskbar.
    Light,
    /// Dark glyph, for a light taskbar.
    Dark,
}

impl Tone {
    /// The red, green and blue of the glyph.
    pub open spec fn colour(self) -> Seq<u8> {
        match self {
            Tone::Light => seq![0xF2u8, 0xF5u8, 0xF9u8],
            Tone::Dark => seq![0x1Cu8, 0x1Fu8, 0x24u8],
        }
    }

    /// The red, green and blue of the glyph.
    pub fn rgb(self) -> (r: [u8; 3])
        ensures
            r@ == self.colour(),
    {
        match self {
            Tone::Light => [0xF2, 0xF5, 0xF9],
            Tone::Dark => [0x1C, 0x1F, 0x24],
        }
    }
}

/// An RGBA image, row by row from the top, four bytes per pixel.
#[derive(Debug)]
pub struct Image {
    pub rgba: Vec<u8>,
    pub width: u32,
    pub height: u32,
}

/// The level that is drawn for `percent`: nothing above 100.
pub open spec fn level(percent: u16) -> u16 {
    if percent < 100 {
        percent
    } else {
        100
    }
}

/// Distance of the sample in column (or row) `i` from the centre line.
pub open spec fn offset(i: int) -> int {
    2 * i + 1 - FINE
}

/// Alpha of one sample, in hundredths: full in the dot and in the part of the
/// ring that the sweep reaches, faint in the rest of the ring, none elsewhere.
pub open spec fn sample_alpha(x: int, y: int, percent: int) -> int {
    let right = offset(x);
    let down = offset(y);
    let distance2 = right * right + down * down;
    if distance2 <= DOT_RADIUS * DOT_RADIUS {
        FULL_ALPHA as int
    } else if (RADIUS - HALF_STROKE) * (RADIUS - HALF_STROKE) <= distance2 <= (RADIUS + HALF_STROKE)
        * (RADIUS + HALF_STROKE) {
        if swept(right, down, percent) {
            FULL_ALPHA as int
        } else {
            TRACK_ALPHA as int
        }
    } else {
        0
    }
}

/// Whether a sample lies in the ring.
pub open spec fn in_ring(x: int, y: int) -> bool {
    let distance2 = offset(x) * offset(x) + offset(y) * offset(y);
    (RADIUS - HALF_STROKE) * (RADIUS - HALF_STROKE) <= distance2 <= (RADIUS + HALF_STROKE) * (RADIUS
        + HALF_STROKE)
}

/// Alpha of one sample of the bare track, in hundredths: faint in the ring, none
/// elsewhere.
pub open spec fn track_alpha(x: int, y: int) -> int {
    if in_ring(x, y) {
        TRACK_ALPHA as int
    } else {
        0
    }
}

/// A picture that the samples make up.
#[derive(Clone, Copy, PartialEq, Eq, Debug)]
pub enum Drawing {
    /// The gauge at this percentage.
    Gauge(u16),
    /// The track of the ring and nothing else.
    Track,
}

impl Drawing {
    /// Alpha of one sample, in hundredths.
    pub open spec fn alpha(self, x: int, y: int) -> int {
        match self {
            Drawing::Gauge(percent) => sample_alpha(x, y, percent as int),
            Drawing::Track => track_alpha(x, y),
        }
    }

    /// Total alpha of the first `n` samples of the pixel at column `x`, row `y`.
    pub open spec fn total_alpha(self, x: int, y: int, n: nat) -> int
        decreases n,
    {
        if n == 0 {
            0
        } else {
            let i = n - 1;
            self.total_alpha(x, y, i as nat) + self.alpha(SS * x + i % 4, SS * y + i / 4)
        }
    }

    /// Alpha of the pixel at column `x`, row `y`: the mean of its sixteen samples
    /// on a scale to 255, `255 / 1600` of their total, rounded to the nearest
    /// integer and up from the middle.
    pub open spec fn pixel_alpha(self, x: int, y: int) -> int {
        (510 * self.total_alpha(x, y, 16) + 1600) / 3200
    }

    /// The alpha of every pixel, row by row.
    pub open spec fn alphas(self) -> Seq<u8> {
        Seq::new(
            (SIZE * SIZE) as nat,
            |i: int| self.pixel_alpha(i % (SIZE as int), i / (SIZE as int)) as u8,
        )
    }
}

/// The alpha of every pixel of the gauge, row by row.
pub open spec fn coverage(percent: u16) -> Seq<u8> {
    Drawing::Gauge(level(percent)).alphas()
}

/// The bytes of a picture with these alphas in `tone`.
pub open spec fn painted(alphas: Seq<u8>, tone: Tone) -> Seq<u8> {
    Seq::new(
        4 * alphas.len(),
        |i: int|
            if i % 4 == 3 {
                alphas[i / 4]
            } else {
                tone.colour()[i % 4]
            },
    )
}

/// The bytes of the gauge for `percent` in `tone`.
pub open spec fn gauge(percent: u16, tone: Tone) -> Seq<u8> {
    painted(coverage(percent), tone)
}

/// Every alpha halved.
pub open spec fn half_strength(alphas: Seq<u8>) -> Seq<u8> {
    Seq::new(alphas.len(), |i: int| alphas[i] / 2)
}

/// The bytes of the "no monitor" icon in `tone`: the track of the ring only, at
/// half strength.
pub open spec fn bare_track(tone: Tone) -> Seq<u8> {
    painted(half_strength(Drawing::Track.alphas()), tone)
}

proof fn lemma_square_bound(a: int)
    requires
        -127 <= a <= 127,
    ensures
        0 <= a * a <= 16129,
{
    assert(0 <= a * a <= 16129) by (nonlinear_arith)
        requires
            -127 <= a <= 127,
    ;
}

/// The alpha of one sample, in hundredths.
fn sample(x: u32, y: u32, drawing: Drawing) -> (a: u8)
    requires
        x < FINE,
        y < FINE,
    ensures
        a == drawing.alpha(x as int, y as int),
        a <= FULL_ALPHA,
{
    let right: i32 = 2 * (x as i32) + 1 - FINE as i32;
    let down: i32 = 2 * (y as i32) + 1 - FINE as i32;
    proof {
        lemma_square_bound(right as int);
        lemma_square_bound(down as int);
    }
    let distance2: i32 = right * right + down * down;
    let inner: i32 = RADIUS - HALF_STROKE;
    let outer: i32 = RADIUS + HALF_STROKE;
    let ring = inner * inner <= distance2 && distance2 <= outer * outer;
    match drawing {
        Drawing::Gauge(percent) => {
            if distance2 <= DOT_RADIUS * DOT_RADIUS {
                FULL_ALPHA
            } else if ring {
                if reaches(right, down, percent) {
                    FULL_ALPHA
                } else {
                    TRACK_ALPHA
                }
            } else {
                0
            }
        },
        Drawing::Track => {
            if ring {
                TRACK_ALPHA
            } else {
                0
            }
        },
    }
}

/// Produces one alpha byte per output pixel by averaging the supersampled grid.
fn draw(drawing: Drawing) -> (out: Vec<u8>)
    ensures
        out@ == drawing.alphas(),
{
    // Alpha at full resolution, then box-filtered down to the icon's pixels.
    let mut fine: Vec<u8> = Vec::new();
    let mut y: u32 = 0;
    while y < FINE
        invariant
            y <= FINE,
            fine.len() == y * FINE,
            forall|i: int|
                0 <= i < fine.len() ==> fine[i] <= FULL_ALPHA && fine[i] == drawing.alpha(
                    i % 128,
                    i / 128,
                ),
        decreases FINE - y,
    {
        let mut x: u32 = 0;
        while x < FINE
            invariant
                y < FINE,
                x <= FINE,
                fine.len() == y * FINE + x,
                forall|i: int|
                    0 <= i < fine.len() ==> fine[i] <= FULL_ALPHA && fine[i] == drawing.alpha(
                        i % 128,
                        i / 128,
                    ),
            decreases FINE - x,
        {
            fine.push(sample(x, y, drawing));
            x += 1;
        }
        y += 1;
    }
    let mut out: Vec<u8> = Vec::new();
    let mut y: u32 = 0;
    while y < SIZE
        invariant
            y <= SIZE,
            fine.len() == FINE * FINE,
            forall|i: int|
                0 <= i < fine.len() ==> fine[i] <= FULL_ALPHA && fine[i] == drawing.alpha(
                    i % 128,
                    i / 128,
                ),
            out.len() == y * SIZE,
            forall|i: int|
                0 <= i < out.len() ==> out[i] == drawing.pixel_alpha(i % 32, i / 32),
        decreases SIZE - y,
    {
        let mut x: u32 = 0;
        while x < SIZE
            invariant
                y < SIZE,
                x <= SIZE,
                fine.len() == FINE * FINE,
                forall|i: int|
                    0 <= i < fine.len() ==> fine[i] <= FULL_ALPHA && fine[i] == drawing.alpha(
                        i % 128,
                        i / 128,
                    ),
                out.len() == y * SIZE + x,
                forall|i: int|
                    0 <= i < out.len() ==> out[i] == drawing.pixel_alpha(i % 32, i / 32),
            decreases SIZE - x,
        {
            let mut sum: u32 = 0;
            let mut n: u32 = 0;
            while n < SS * SS
                invariant
                    y < SIZE,
                    x < SIZE,
                    n <= 16,
                    fine.len() == FINE * FINE,
                    forall|i: int|
                        0 <= i < fine.len() ==> fine[i] <= FULL_ALPHA && fine[i]
                            == drawing.alpha(i % 128, i / 128),
                    sum <= 100 * n,
                    sum == drawing.total_alpha(x as int, y as int, n as nat),
                decreases 16 - n,
            {
                let sx: u32 = n % SS;
                let sy: u32 = n / SS;
                let i: usize = ((y * SS + sy) * FINE + (x * SS + sx)) as usize;
                assert(i as int % 128 == 4 * x + n as int % 4 && i as int / 128 == 4 * y + n as int
                    / 4);
                sum += fine[i] as u32;
                n += 1;
            }
            let rounded: u32 = (510 * sum + 1600) / 3200;
            out.push(rounded as u8);
            x += 1;
        }
        y += 1;
    }
    assert(out@ =~= drawing.alphas());
    out
}

/// Produces one alpha byte per pixel of the gauge for `percent`.
pub fn rasterize(percent: u16) -> (out: Vec<u8>)
    ensures
        out@ == coverage(percent),
{
    let drawn: u16 = if percent < 100 {
        percent
    } else {
        100
    };
    draw(Drawing::Gauge(drawn))
}

/// Gives the alphas of a picture the colour of `tone`.
fn paint(alphas: &Vec<u8>, tone: Tone) -> (img: Image)
    requires
        alphas.len() == SIZE * SIZE,
    ensures
        img.width == SIZE,
        img.height == SIZE,
        img.rgba@ == painted(alphas@, tone),
{
    let colour = tone.rgb();
    let mut rgba: Vec<u8> = Vec::new();
    let mut i: usize = 0;
    while i < alphas.len()
        invariant
            i <= alphas.len(),
            colour@ == tone.colour(),
            rgba.len() == 4 * i,
            forall|j: int|
                0 <= j < rgba.len() ==> rgba[j] == (if j % 4 == 3 {
                    alphas[j / 4]
                } else {
                    colour[j % 4]
                }),
        decreases alphas.len() - i,
    {
        rgba.push(colour[0]);
        rgba.push(colour[1]);
        rgba.push(colour[2]);
        rgba.push(alphas[i]);
        i += 1;
    }
    assert(rgba@ =~= painted(alphas@, tone));
    Image { rgba, width: SIZE, height: SIZE }
}

/// Renders the gauge for `percent` (0-100).
pub fn render(percent: u16, tone: Tone) -> (img: Image)
    ensures
        img.width == SIZE,
        img.height == SIZE,
        img.rgba@ == gauge(percent, tone),
        forall|pixel: int|
            0 <= pixel < 1024 ==> img.rgba@[4 * pixel + 3] == #[trigger] coverage(percent)[pixel],
{
    let img = paint(&rasterize(percent), tone);
    assert forall|pixel: int| 0 <= pixel < 1024 implies img.rgba@[4 * pixel + 3]
        == #[trigger] coverage(percent)[pixel] by {
        assert((4 * pixel + 3) % 4 == 3 && (4 * pixel + 3) / 4 == pixel);
    }
    img
}

/// Renders the "no monitor" icon: the track ring only, at half strength.
pub fn render_disconnected(tone: Tone) -> (img: Image)
    ensures
        img.width == SIZE,
        img.height == SIZE,
        img.rgba@ == bare_track(tone),
{
    let full = draw(Drawing::Track);
    let mut half: Vec<u8> = Vec::new();
    let mut i: usize = 0;
    while i < full.len()
        invariant
            i <= full.len(),
            half.len() == i,
            forall|j: int| 0 <= j < i ==> half[j] == full[j] / 2,
        decreases full.len() - i,
    {
        half.push(full[i] / 2);
        i += 1;
    }
    assert(half@ =~= half_strength(Drawing::Track.alphas()));
    paint(&half, tone)
}

/// The glyph colour that is legible on the taskbar, from the setting that says
/// whether the taskbar uses the light theme.
///
/// Without a setting it is the light glyph, which matches the default dark
/// taskbar.
pub fn system_tone(uses_light_theme: Option<u32>) -> (tone: Tone)
    ensures
        tone == (if uses_light_theme == Some(1u32) {
            Tone::Dark
        } else {
            Tone::Light
        }),
{
    match uses_light_theme {
        Some(1) => Tone::Dark,
        _ => Tone::Light,
    }
}

/// The alpha of a pixel is a byte.
pub proof fn law_alpha_is_a_byte(drawing: Drawing, x: int, y: int)
    ensures
        0 <= drawing.pixel_alpha(x, y) <= 255,
{
    lemma_total_bounds(drawing, x, y, 16);
    let total = drawing.total_alpha(x, y, 16);
    assert(0 <= total <= 1600);
}

proof fn lemma_total_bounds(drawing: Drawing, x: int, y: int, n: nat)
    ensures
        0 <= drawing.total_alpha(x, y, n) <= 100 * n,
    decreases n,
{
    if n > 0 {
        lemma_total_bounds(drawing, x, y, (n - 1) as nat);
    }
}

proof fn lemma_total_grows(faint: Drawing, strong: Drawing, x: int, y: int, n: nat)
    requires
        forall|i: int, j: int| (#[trigger] faint.alpha(i, j)) <= strong.alpha(i, j),
    ensures
        faint.total_alpha(x, y, n) <= strong.total_alpha(x, y, n),
    decreases n,
{
    if n > 0 {
        let i = n - 1;
        lemma_total_grows(faint, strong, x, y, i as nat);
        assert(faint.alpha(SS * x + i % 4, SS * y + i / 4) <= strong.alpha(
            SS * x + i % 4,
            SS * y + i / 4,
        ));
    }
}

/// A picture whose samples are nowhere stronger has no stronger pixel.
proof fn lemma_pixels_grow(faint: Drawing, strong: Drawing, i: int)
    requires
        forall|i: int, j: int| (#[trigger] faint.alpha(i, j)) <= strong.alpha(i, j),
        0 <= i < SIZE * SIZE,
    ensures
        faint.alphas()[i] <= strong.alphas()[i],
{
    let (x, y) = (i % (SIZE as int), i / (SIZE as int));
    lemma_total_grows(faint, strong, x, y, 16);
    law_alpha_is_a_byte(faint, x, y);
    law_alpha_is_a_byte(strong, x, y);
}

/// A higher percentage makes no pixel of the gauge fainter.
pub proof fn law_gauge_fills(small: u16, large: u16, i: int)
    requires
        small <= large,
        0 <= i < SIZE * SIZE,
    ensures
        coverage(small)[i] <= coverage(large)[i],
{
    let (a, b) = (level(small), level(large));
    assert forall|x: int, y: int|
        (#[trigger] Drawing::Gauge(a).alpha(x, y)) <= Drawing::Gauge(b).alpha(x, y) by {
        if swept(offset(x), offset(y), a as int) {
            law_sweep_grows(offset(x), offset(y), a as int, b as int);
        }
    }
    lemma_pixels_grow(Drawing::Gauge(a), Drawing::Gauge(b), i);
}

/// At 0 percent the ring is all track, at 100 percent all of it is filled, and
/// outside the ring the percentage makes no difference.
pub proof fn law_gauge_ends(x: int, y: int, percent: int)
    ensures
        in_ring(x, y) ==> sample_alpha(x, y, 0) == TRACK_ALPHA,
        in_ring(x, y) ==> sample_alpha(x, y, 100) == FULL_ALPHA,
        !in_ring(x, y) ==> sample_alpha(x, y, percent) == sample_alpha(x, y, 0),
{
    law_sweep_quarters(offset(x), offset(y), 0);
    law_sweep_quarters(offset(x), offset(y), 4);
}

/// The tone decides the colour of a picture and nothing of its shape.
pub proof fn law_tone_is_colour_only(
    alphas: Seq<u8>,
    one: Tone,
    other: Tone,
    pixel: int,
    channel: int,
)
    requires
        0 <= pixel < alphas.len(),
        0 <= channel < 3,
    ensures
        painted(alphas, one)[4 * pixel + 3] == painted(alphas, other)[4 * pixel + 3],
        painted(alphas, one)[4 * pixel + channel] == one.colour()[channel],
{
    let i = 4 * pixel + channel;
    assert(i % 4 == channel);
    assert((4 * pixel + 3) % 4 == 3);
}

/// The "no monitor" icon is clear wherever a pixel has no part of the ring: it
/// has no dot.
pub proof fn law_disconnected_is_the_ring_only(tone: Tone, pixel: int)
    requires
        0 <= pixel < SIZE * SIZE,
        forall|i: int|
            0 <= i < 16 ==> !(#[trigger] in_ring(
                SS * (pixel % (SIZE as int)) + i % 4,
                SS * (pixel / (SIZE as int)) + i / 4,
            )),
    ensures
        bare_track(tone)[4 * pixel + 3] == 0,
{
    let (x, y) = (pixel % (SIZE as int), pixel / (SIZE as int));
    lemma_clear_pixel(x, y, 16);
    assert(Drawing::Track.pixel_alpha(x, y) == 0);
    assert(Drawing::Track.alphas()[pixel] == 0);
    assert((4 * pixel + 3) % 4 == 3 && (4 * pixel + 3) / 4 == pixel);
}

proof fn lemma_clear_pixel(x: int, y: int, n: nat)
    requires
        n <= 16,
        forall|i: int| 0 <= i < 16 ==> !(#[trigger] in_ring(SS * x + i % 4, SS * y + i / 4)),
    ensures
        Drawing::Track.total_alpha(x, y, n) == 0,
    decreases n,
{
    if n > 0 {
        let i = n - 1;
        lemma_clear_pixel(x, y, i as nat);
        assert(!in_ring(SS * x + i % 4, SS * y + i / 4));
    }
}

/// The "no monitor" icon is at most half as strong as the gauge at any
/// percentage.
pub proof fn law_disconnected_is_faint(tone: Tone, percent: u16, pixel: int)
    requires
        0 <= pixel < SIZE * SIZE,
    ensures
        2 * bare_track(tone)[4 * pixel + 3] <= gauge(percent, tone)[4 * pixel + 3],
{
    lemma_pixels_grow(Drawing::Track, Drawing::Gauge(level(percent)), pixel);
    assert((4 * pixel + 3) % 4 == 3 && (4 * pixel + 3) / 4 == pixel);
}

} // verus!
