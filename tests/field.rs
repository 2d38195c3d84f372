use rand::rngs::StdRng;
use rand::SeedableRng;
use worley_field::{
    generate, generate_image, generate_random_characters, intensity, nearest_sq_dist,
    pixel_value, render, FieldError, Point,
};

fn at(f: &worley_field::Field, x: u32, y: u32) -> u8 {
    f.data[(y * f.width + x) as usize]
}

#[test]
fn generate_returns_count_points_in_bounds() {
    let mut rng = StdRng::seed_from_u64(7);
    let pts = generate(&mut rng, 13, 5, 200).unwrap();
    assert_eq!(pts.len(), 200);
    for p in &pts {
        assert!(0 <= p.x && p.x < 13);
        assert!(0 <= p.y && p.y < 5);
    }
}

#[test]
fn generate_zero_count_is_empty() {
    let mut rng = StdRng::seed_from_u64(1);
    assert_eq!(generate(&mut rng, 4, 4, 0).unwrap().len(), 0);
}

#[test]
fn generate_zero_width_fails() {
    let mut rng = StdRng::seed_from_u64(1);
    assert_eq!(generate(&mut rng, 0, 10, 5), Err(FieldError::InvalidDimensions));
    assert_eq!(generate(&mut rng, 10, 0, 5), Err(FieldError::InvalidDimensions));
}

#[test]
fn render_empty_seeds_fails() {
    assert!(matches!(render(10, 10, &vec![]), Err(FieldError::EmptySeedSet)));
    assert!(matches!(generate_image(10, 10, &vec![]), Err(FieldError::EmptySeedSet)));
}

#[test]
fn scenario_four_by_four_single_seed() {
    let f = render(4, 4, &vec![Point::new(0, 0)]).unwrap();
    assert_eq!(f.width, 4);
    assert_eq!(f.height, 4);
    assert_eq!(f.data.len(), 16);
    assert_eq!(at(&f, 0, 0), 255);
    assert_eq!(Point::new(0, 0).squared_dist(3, 3), 18);
    assert_eq!(at(&f, 3, 3), 255);
    assert_eq!(intensity(300), 245);
}

#[test]
fn seed_pixel_is_white() {
    let seeds = vec![Point::new(90, 90), Point::new(5, 7), Point::new(40, 2)];
    let f = render(100, 100, &seeds).unwrap();
    for p in &seeds {
        assert_eq!(at(&f, p.x as u32, p.y as u32), 255);
    }
}

#[test]
fn intensity_is_monotone() {
    let mut prev = intensity(0);
    for d in 1..10_000u128 {
        let v = intensity(d);
        assert!(v <= prev);
        prev = v;
    }
}

#[test]
fn intensity_saturates() {
    assert_eq!(intensity(7140), 0);
    assert_eq!(intensity(7139), 1);
    assert_eq!(intensity(1_000_000), 0);
    assert_eq!(intensity(u128::MAX), 0);
    assert_eq!(intensity(27), 255);
    assert_eq!(intensity(28), 254);
}

#[test]
fn render_is_deterministic() {
    let mut rng = StdRng::seed_from_u64(42);
    let seeds = generate(&mut rng, 30, 20, 6).unwrap();
    let a = render(30, 20, &seeds).unwrap();
    let b = render(30, 20, &seeds).unwrap();
    assert_eq!(a.data, b.data);
}

#[test]
fn render_takes_nearest_seed() {
    let seeds = vec![Point::new(0, 0), Point::new(9, 0)];
    assert_eq!(nearest_sq_dist(&seeds, 8, 3), 1 + 9);
    assert_eq!(pixel_value(&seeds, 8, 3), 255);
    let far = vec![Point::new(0, 0)];
    // 100^2 = 10000 is past saturation; 50^2 = 2500 gives 255 - 89.
    assert_eq!(pixel_value(&far, 100, 0), 0);
    assert_eq!(pixel_value(&far, 50, 0), 166);
    let f = render(101, 1, &far).unwrap();
    assert_eq!(at(&f, 100, 0), 0);
    assert_eq!(at(&f, 50, 0), 166);
}

#[test]
fn squared_dist_is_exact_far_away() {
    let p = Point::new(i64::MIN, i64::MIN);
    let d = (i64::MIN as i128 - u32::MAX as i128).unsigned_abs();
    assert_eq!(p.squared_dist(u32::MAX, u32::MAX), 2 * d * d);
    assert_eq!(Point::new(-3, 4).squared_dist(0, 0), 25);
}

#[test]
fn image_holds_rendered_bytes() {
    let seeds = vec![Point::new(1, 2), Point::new(60, 10)];
    let f = render(64, 16, &seeds).unwrap();
    let img = generate_image(64, 16, &seeds).unwrap().image;
    assert_eq!(img.width(), 64);
    assert_eq!(img.height(), 16);
    assert_eq!(img.as_raw(), &f.data);
    assert_eq!(img.get_pixel(1, 2).0[0], 255);
    assert_eq!(img.get_pixel(30, 10).0[0], at(&f, 30, 10));
    assert!(at(&f, 30, 10) < 255);
}

#[test]
fn random_characters_are_lowercase() {
    let mut rng = StdRng::seed_from_u64(3);
    let cs = generate_random_characters(&mut rng, 500);
    assert_eq!(cs.len(), 500);
    assert!(cs.iter().all(|c| c.is_ascii_lowercase()));
    assert!(cs.iter().any(|c| *c != cs[0]));
}

#[test]
fn field_pixel_reads_row_major() {
    let f = render(5, 3, &vec![Point::new(4, 2)]).unwrap();
    assert_eq!(f.pixel(4, 2), 255);
    assert_eq!(f.pixel(0, 0), at(&f, 0, 0));
    assert_eq!(f.pixel(0, 2), 255);
    assert_eq!(f.data[2 * 5 + 4], 255);
}
