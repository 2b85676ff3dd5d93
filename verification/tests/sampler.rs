use raster_core::rational::Rat;
use raster_core::texture::{Color, Texture};

fn rgb(r: u8, g: u8, b: u8) -> Color {
    Color { r, g, b }
}

fn two_by_two() -> Texture {
    // Row 0 is the top of the image.
    let c00 = rgb(10, 20, 30);
    let c01 = rgb(50, 60, 70);
    let c10 = rgb(90, 100, 110);
    let c11 = rgb(130, 140, 150);
    Texture::new(2, 2, vec![c00, c01, c10, c11]).unwrap()
}

#[test]
fn new_rejects_mismatched_data() {
    assert!(Texture::new(2, 2, vec![rgb(0, 0, 0); 3]).is_err());
    assert!(Texture::new(0, 2, vec![]).is_err());
    assert!(Texture::new(2, 0, vec![]).is_err());
    assert!(Texture::new(2, 2, vec![rgb(0, 0, 0); 4]).is_ok());
}

#[test]
fn nearest_corners_with_v_flip() {
    let t = two_by_two();
    // v = 0 is the image bottom, so (0,0) reads the bottom-left pixel.
    assert_eq!(t.getColor(&Rat::zero(), &Rat::zero()), rgb(90, 100, 110));
    // (1,1) reads the top-right pixel.
    assert_eq!(t.getColor(&Rat::one(), &Rat::one()), rgb(50, 60, 70));
    assert_eq!(t.getColor(&Rat::zero(), &Rat::one()), rgb(10, 20, 30));
    assert_eq!(t.getColor(&Rat::one(), &Rat::zero()), rgb(130, 140, 150));
}

#[test]
fn nearest_clamps_out_of_range_coordinates() {
    let t = two_by_two();
    assert_eq!(
        t.getColor(&Rat::new(-3, 2), &Rat::new(7, 2)),
        t.getColor(&Rat::zero(), &Rat::one()),
    );
}

#[test]
fn bilinear_center_blend_averages_the_grid() {
    let t = two_by_two();
    // u = 1/4, v = 3/4 puts the continuous coordinate at the center of the
    // four pixels, so each channel is the average of all four corners.
    let c = t.getColorBilinear(&Rat::new(1, 4), &Rat::new(3, 4));
    assert_eq!(c, rgb(70, 80, 90));
}

#[test]
fn bilinear_at_grid_point_matches_nearest() {
    let t = two_by_two();
    // u = v = 1/2 lands exactly on the pixel grid: both blend ratios clamp
    // to zero and the bilinear sample equals the nearest sample.
    let u = Rat::new(1, 2);
    let v = Rat::new(1, 2);
    assert_eq!(t.getColorBilinear(&u, &v), t.getColor(&u, &v));
    // The same at the corners of the normalized square.
    assert_eq!(
        t.getColorBilinear(&Rat::zero(), &Rat::zero()),
        t.getColor(&Rat::zero(), &Rat::zero()),
    );
    assert_eq!(
        t.getColorBilinear(&Rat::one(), &Rat::one()),
        t.getColor(&Rat::one(), &Rat::one()),
    );
}

#[test]
fn bilinear_stays_in_the_corner_hull() {
    let t = two_by_two();
    // An asymmetric blend point: every channel must lie between the minimum
    // and maximum of the four corner channels.
    let c = t.getColorBilinear(&Rat::new(1, 3), &Rat::new(1, 5));
    assert!(10 <= c.r && c.r <= 130);
    assert!(20 <= c.g && c.g <= 140);
    assert!(30 <= c.b && c.b <= 150);
}

#[test]
fn bilinear_one_axis_blend_exact_value() {
    // A 2x1 image: only the horizontal axis blends.
    let t = Texture::new(2, 1, vec![rgb(0, 0, 0), rgb(100, 200, 50)]).unwrap();
    // u = 1/4: continuous column 1/2, blend halfway between the two pixels.
    let c = t.getColorBilinear(&Rat::new(1, 4), &Rat::new(1, 2));
    assert_eq!(c, rgb(50, 100, 25));
}
