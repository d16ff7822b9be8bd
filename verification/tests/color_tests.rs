use solar_raster::color::Color;

#[test]
fn to_hex_packs_channels() {
    assert_eq!(Color::new(18, 52, 86).to_hex(), 0x123456);
}

#[test]
fn to_hex_extremes() {
    assert_eq!(Color::new(255, 255, 255).to_hex(), 0xFFFFFF);
    assert_eq!(Color::new(0, 0, 0).to_hex(), 0x000000);
    assert_eq!(Color::new(255, 0, 0).to_hex(), 0xFF0000);
    assert_eq!(Color::new(0, 255, 0).to_hex(), 0x00FF00);
    assert_eq!(Color::new(0, 0, 255).to_hex(), 0x0000FF);
}

#[test]
fn to_hex_fits_24_bits() {
    for r in [0u8, 1, 127, 128, 254, 255] {
        for g in [0u8, 3, 200, 255] {
            for b in [0u8, 77, 255] {
                assert!(Color::new(r, g, b).to_hex() < 0x1000000);
            }
        }
    }
}

#[test]
fn getters_return_channels() {
    let c = Color::new(7, 130, 201);
    assert_eq!(c.r(), 7);
    assert_eq!(c.g(), 130);
    assert_eq!(c.b(), 201);
}

#[test]
fn black_is_all_zero() {
    let c = Color::black();
    assert_eq!(c.r(), 0);
    assert_eq!(c.g(), 0);
    assert_eq!(c.b(), 0);
    assert_eq!(c.to_hex(), 0);
}
