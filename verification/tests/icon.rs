use monitor_tray_control::icon::{rasterize, render, render_disconnected, system_tone, Tone};
use monitor_tray_control::sweep::reaches;

/// The gauge sampled in floating point, one alpha byte per pixel.
fn float_gauge(percent: u16) -> Vec<u8> {
    let tau = std::f32::consts::TAU;
    let sweep = (percent.min(100) as f32) / 100.0 * tau;
    let mut fine = vec![0.0f32; 128 * 128];
    for y in 0..128 {
        for x in 0..128 {
            let dx = x as f32 + 0.5 - 64.0;
            let dy = y as f32 + 0.5 - 64.0;
            let dist = (dx * dx + dy * dy).sqrt();
            fine[y * 128 + x] = if dist <= 16.0 {
                1.0
            } else if dist >= 41.0 && dist <= 55.0 {
                if dx.atan2(-dy).rem_euclid(tau) <= sweep {
                    1.0
                } else {
                    0.28
                }
            } else {
                0.0
            };
        }
    }
    let mut out = Vec::new();
    for y in 0..32 {
        for x in 0..32 {
            let mut sum = 0.0;
            for sy in 0..4 {
                for sx in 0..4 {
                    sum += fine[(y * 4 + sy) * 128 + x * 4 + sx];
                }
            }
            out.push((sum / 16.0 * 255.0f32).round().clamp(0.0, 255.0) as u8);
        }
    }
    out
}

#[test]
fn gauge_matches_floating_point_at_every_percentage() {
    for percent in 0..=101u16 {
        assert_eq!(rasterize(percent), float_gauge(percent), "at {} percent", percent);
    }
    assert_eq!(rasterize(u16::MAX), float_gauge(100));
}

#[test]
fn gauge_above_a_hundred_is_full() {
    assert_eq!(rasterize(101), rasterize(100));
    assert_eq!(rasterize(65535), rasterize(100));
}

#[test]
fn gauge_has_a_dot_a_ring_and_clear_corners() {
    let empty = rasterize(0);
    assert_eq!(empty.len(), 1024);
    assert_eq!(empty[16 * 32 + 16], 255);
    assert_eq!(empty[0], 0);
    assert_eq!(empty[31 * 32 + 31], 0);
    // The ring at twelve o'clock and at three o'clock is all track.
    assert_eq!(empty[4 * 32 + 16], 71);
    assert_eq!(empty[16 * 32 + 28], 71);
    let full = rasterize(100);
    assert_eq!(full[4 * 32 + 16], 255);
    assert_eq!(full[16 * 32 + 28], 255);
    // Between the dot and the ring there is nothing.
    assert_eq!(full[16 * 32 + 23], 0);
}

#[test]
fn gauge_fills_clockwise_by_quarters() {
    let quarter = rasterize(25);
    let top_right = 7 * 32 + 24;
    let bottom_right = 24 * 32 + 24;
    let bottom_left = 24 * 32 + 7;
    let top_left = 7 * 32 + 7;
    assert_eq!(quarter[top_right], 255);
    assert_eq!(quarter[bottom_right], 71);
    assert_eq!(quarter[bottom_left], 71);
    assert_eq!(quarter[top_left], 71);
    let half = rasterize(50);
    assert_eq!(half[top_right], 255);
    assert_eq!(half[bottom_right], 255);
    assert_eq!(half[bottom_left], 71);
    let three = rasterize(75);
    assert_eq!(three[bottom_left], 255);
    assert_eq!(three[top_left], 71);
}

#[test]
fn gauge_never_gets_fainter() {
    let mut before = rasterize(0);
    for percent in 1..=100u16 {
        let now = rasterize(percent);
        for i in 0..1024 {
            assert!(before[i] <= now[i]);
        }
        before = now;
    }
}

#[test]
fn half_covered_pixel_rounds_up() {
    // Eight of sixteen samples at full alpha are 127.5.
    let full = rasterize(100);
    assert!(full.contains(&128));
    assert!(!full.contains(&127));
}

#[test]
fn sweep_reaches_by_angle() {
    // One percent of a turn is 3.6 degrees, whose tangent is about 0.0629.
    assert!(reaches(1, -16, 1));
    assert!(!reaches(8, -127, 1));
    assert!(!reaches(1, -16, 0));
    // 37 percent: 133.2 degrees, 43.2 degrees below straight right.
    assert!(reaches(82, 77, 37));
    assert!(!reaches(115, 108, 37));
    assert!(reaches(-1, -1, 88));
    assert!(!reaches(-1, -1, 87));
    assert!(reaches(-1, -127, 100));
    assert!(!reaches(-1, -127, 99));
}

#[test]
fn tones_have_their_colours() {
    assert_eq!(Tone::Light.rgb(), [0xF2, 0xF5, 0xF9]);
    assert_eq!(Tone::Dark.rgb(), [0x1C, 0x1F, 0x24]);
}

#[test]
fn render_puts_colour_before_alpha() {
    for tone in [Tone::Light, Tone::Dark] {
        let img = render(40, tone);
        assert_eq!((img.width, img.height), (32, 32));
        assert_eq!(img.rgba.len(), 4096);
        let alpha = rasterize(40);
        for i in 0..1024 {
            assert_eq!(&img.rgba[4 * i..4 * i + 3], &tone.rgb()[..]);
            assert_eq!(img.rgba[4 * i + 3], alpha[i]);
        }
    }
}

#[test]
fn disconnected_icon_is_the_track_ring_at_half_strength() {
    let img = render_disconnected(Tone::Light);
    assert_eq!((img.width, img.height), (32, 32));
    assert_eq!(img.rgba.len(), 4096);
    let empty = rasterize(0);
    for y in 0..32i32 {
        for x in 0..32i32 {
            let i = (y * 32 + x) as usize;
            assert_eq!(&img.rgba[4 * i..4 * i + 3], &[0xF2, 0xF5, 0xF9]);
            // The dot reaches no further than four pixels from the centre.
            let dot = (2 * x - 31).abs() <= 9 && (2 * y - 31).abs() <= 9;
            let expected = if dot { 0 } else { empty[i] / 2 };
            assert_eq!(img.rgba[4 * i + 3], expected);
        }
    }
}

#[test]
fn disconnected_icon_has_no_dot() {
    for tone in [Tone::Light, Tone::Dark] {
        let img = render_disconnected(tone);
        assert_eq!(img.rgba[2115], 0);
        assert_eq!(img.rgba[4 * (16 * 32 + 16) + 3], 0);
        assert_eq!(img.rgba[4 * (4 * 32 + 16) + 3], 35);
        assert_eq!(img.rgba[4 * (16 * 32 + 28) + 3], 35);
        assert_eq!(render(0, tone).rgba[2115], 255);
    }
}

#[test]
fn glyph_contrasts_with_the_taskbar() {
    assert_eq!(system_tone(Some(1)), Tone::Dark);
    assert_eq!(system_tone(Some(0)), Tone::Light);
    assert_eq!(system_tone(Some(2)), Tone::Light);
    assert_eq!(system_tone(None), Tone::Light);
}
