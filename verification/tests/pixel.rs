use overlay_select::pixel::{brighten, highlight, pack_pixel, unpack_pixel, Rgba};

#[test]
fn pack_puts_blue_lowest_and_alpha_highest() {
    let p = Rgba { r: 0x11, g: 0x22, b: 0x33, a: 0x44 };
    assert_eq!(pack_pixel(p), 0x4411_2233);
}

#[test]
fn pack_single_channels() {
    assert_eq!(pack_pixel(Rgba { r: 0, g: 0, b: 255, a: 0 }), 0x0000_00FF);
    assert_eq!(pack_pixel(Rgba { r: 0, g: 255, b: 0, a: 0 }), 0x0000_FF00);
    assert_eq!(pack_pixel(Rgba { r: 255, g: 0, b: 0, a: 0 }), 0x00FF_0000);
    assert_eq!(pack_pixel(Rgba { r: 0, g: 0, b: 0, a: 255 }), 0xFF00_0000);
}

#[test]
fn unpack_reads_each_channel_from_its_byte() {
    let p = unpack_pixel(0xA1B2_C3D4);
    assert_eq!(p, Rgba { r: 0xB2, g: 0xC3, b: 0xD4, a: 0xA1 });
}

#[test]
fn pack_then_unpack_gives_the_pixel_back() {
    let samples = [0u8, 1, 2, 50, 127, 128, 200, 254, 255];
    for &r in samples.iter() {
        for &g in samples.iter() {
            for &b in samples.iter() {
                for &a in samples.iter() {
                    let p = Rgba { r, g, b, a };
                    assert_eq!(unpack_pixel(pack_pixel(p)), p);
                }
            }
        }
    }
}

#[test]
fn unpack_then_pack_gives_the_word_back() {
    let words = [0u32, 1, 0xFF, 0x100, 0xFFFF, 0x1_0000, 0x00FF_FFFF, 0x0100_0000, 0x8000_0000,
        0xDEAD_BEEF, u32::MAX];
    for &w in words.iter() {
        assert_eq!(pack_pixel(unpack_pixel(w)), w);
    }
}

#[test]
fn brighten_raises_colour_channels_and_keeps_alpha() {
    let p = Rgba { r: 10, g: 100, b: 200, a: 7 };
    assert_eq!(brighten(p, 50), Rgba { r: 60, g: 150, b: 250, a: 7 });
}

#[test]
fn brighten_stops_at_the_channel_maximum() {
    let p = Rgba { r: 205, g: 206, b: 255, a: 255 };
    assert_eq!(brighten(p, 50), Rgba { r: 255, g: 255, b: 255, a: 255 });
    assert_eq!(brighten(Rgba { r: 1, g: 0, b: 0, a: 0 }, 255), Rgba { r: 255, g: 255, b: 255, a: 0 });
}

#[test]
fn brighten_by_zero_changes_nothing() {
    let p = Rgba { r: 1, g: 2, b: 3, a: 4 };
    assert_eq!(brighten(p, 0), p);
}

#[test]
fn highlight_is_opaque_red() {
    assert_eq!(highlight(), Rgba { r: 255, g: 0, b: 0, a: 255 });
    assert_eq!(pack_pixel(highlight()), 0xFFFF_0000);
}
