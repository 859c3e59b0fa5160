use raytracing_in_one_weekend::bounce::{PathDepth, PathStep, RayOutcome};
use raytracing_in_one_weekend::image::Image;
use raytracing_in_one_weekend::material::MaterialType;
use raytracing_in_one_weekend::nearest::{closest_hit, distance_key};
use raytracing_in_one_weekend::ppm::{push_decimal, push_header, push_pixel, Rgb};

fn decimal_text(n: u32) -> String {
    let mut out = Vec::new();
    push_decimal(&mut out, n);
    String::from_utf8(out).unwrap()
}

#[test]
fn decimal_of_small_and_large_numbers() {
    assert_eq!(decimal_text(0), "0");
    assert_eq!(decimal_text(7), "7");
    assert_eq!(decimal_text(10), "10");
    assert_eq!(decimal_text(255), "255");
    assert_eq!(decimal_text(4294967295), "4294967295");
}

#[test]
fn decimal_appends_after_existing_text() {
    let mut out = b"x=".to_vec();
    push_decimal(&mut out, 1200);
    assert_eq!(out, b"x=1200".to_vec());
}

#[test]
fn pixel_line_has_three_channels() {
    let mut out = Vec::new();
    push_pixel(&mut out, Rgb { r: 255, g: 0, b: 17 });
    assert_eq!(out, b"255 0 17\n".to_vec());
}

#[test]
fn header_names_dimensions_and_largest_value() {
    let mut out = Vec::new();
    push_header(&mut out, 400, 225);
    assert_eq!(out, b"P3\n400 225\n255\n".to_vec());
}

#[test]
fn image_rejects_an_empty_side() {
    assert!(Image::new(0, 5).is_none());
    assert!(Image::new(5, 0).is_none());
    assert!(Image::new(0, 0).is_none());
}

#[test]
fn new_image_is_black() {
    let img = Image::new(3, 2).unwrap();
    assert_eq!(img.width(), 3);
    assert_eq!(img.height(), 2);
    for y in 0..2 {
        for x in 0..3 {
            assert_eq!(img.get(x, y), Rgb { r: 0, g: 0, b: 0 });
        }
    }
}

#[test]
fn set_changes_one_pixel_only() {
    let mut img = Image::new(3, 2).unwrap();
    let p = Rgb { r: 1, g: 2, b: 3 };
    img.set(2, 1, p);
    assert_eq!(img.get(2, 1), p);
    assert_eq!(img.get(1, 1), Rgb { r: 0, g: 0, b: 0 });
    assert_eq!(img.get(2, 0), Rgb { r: 0, g: 0, b: 0 });
}

#[test]
fn pixmap_lists_rows_top_first() {
    let mut img = Image::new(2, 2).unwrap();
    img.set(0, 0, Rgb { r: 255, g: 255, b: 255 });
    img.set(1, 0, Rgb { r: 10, g: 20, b: 30 });
    img.set(1, 1, Rgb { r: 0, g: 0, b: 9 });
    let text = String::from_utf8(img.to_ppm()).unwrap();
    assert_eq!(text, "P3\n2 2\n255\n255 255 255\n10 20 30\n0 0 0\n0 0 9\n");
}

#[test]
fn pixmap_of_full_size_image_has_one_line_per_pixel() {
    let img = Image::new(400, 225).unwrap();
    let text = String::from_utf8(img.to_ppm()).unwrap();
    let lines: Vec<&str> = text.lines().collect();
    assert_eq!(lines.len(), 3 + 400 * 225);
    assert_eq!(lines[0], "P3");
    assert_eq!(lines[1], "400 225");
    assert_eq!(lines[2], "255");
    assert_eq!(lines[3], "0 0 0");
}

#[test]
fn no_hit_when_every_object_is_missed() {
    assert_eq!(closest_hit(&vec![None, None, None]), None);
    assert_eq!(closest_hit(&vec![]), None);
}

#[test]
fn nearest_of_two_overlapping_hits_in_either_order() {
    assert_eq!(closest_hit(&vec![Some(40), Some(25)]), Some(1));
    assert_eq!(closest_hit(&vec![Some(25), Some(40)]), Some(0));
}

#[test]
fn nearest_skips_missed_objects() {
    assert_eq!(closest_hit(&vec![None, Some(7), None, Some(3), Some(5)]), Some(3));
}

#[test]
fn equal_distances_keep_the_first_object() {
    assert_eq!(closest_hit(&vec![Some(9), Some(4), Some(4)]), Some(1));
}

#[test]
fn float_distances_as_bit_patterns_keep_their_order() {
    let ts: [f64; 3] = [4.0, 0.5, 3.75];
    let hits: Vec<Option<u64>> = ts.iter().map(|t| Some(t.to_bits())).collect();
    assert_eq!(closest_hit(&hits), Some(1));
}

#[test]
fn zero_bounces_is_rejected() {
    assert_eq!(PathDepth::start(0), None);
    assert_eq!(PathDepth::start(50), Some(PathDepth { depth: 0, max_depth: 50 }));
}

#[test]
fn miss_and_absorption_end_the_path() {
    let p = PathDepth::start(50).unwrap();
    assert_eq!(p.next(RayOutcome::Miss), PathStep::Background);
    assert_eq!(p.next(RayOutcome::Absorbed), PathStep::Black);
}

#[test]
fn scattering_goes_one_level_deeper() {
    let p = PathDepth::start(50).unwrap();
    assert_eq!(
        p.next(RayOutcome::Scattered),
        PathStep::Continue(PathDepth { depth: 1, max_depth: 50 })
    );
}

#[test]
fn facing_mirrors_stop_after_max_depth_rays() {
    let mut p = PathDepth::start(50).unwrap();
    let mut rays: u32 = 1;
    loop {
        match p.next(RayOutcome::Scattered) {
            PathStep::Continue(q) => {
                p = q;
                rays += 1;
            }
            step => {
                assert_eq!(step, PathStep::Black);
                break;
            }
        }
    }
    assert_eq!(rays, 50);
}

#[test]
fn single_ray_bound_traces_only_the_first_ray() {
    let p = PathDepth::start(1).unwrap();
    assert_eq!(p.next(RayOutcome::Scattered), PathStep::Black);
    assert_eq!(p.next(RayOutcome::Miss), PathStep::Background);
}

#[test]
fn material_kinds_are_distinct() {
    assert_ne!(MaterialType::Diffuse, MaterialType::Metal);
    assert_eq!(MaterialType::Metal.clone(), MaterialType::Metal);
}

#[test]
fn distance_keys_follow_float_order() {
    let ts: [f64; 9] = [-1e300, -2.5, -1.0, -1e-300, -0.0, 0.0, 1e-300, 4.0, 1e300];
    let keys: Vec<u64> = ts.iter().map(|t| distance_key(t.to_bits())).collect();
    for w in keys.windows(2) {
        assert!(w[0] < w[1]);
    }
}

#[test]
fn distance_key_values_at_the_zeros() {
    assert_eq!(distance_key(0.0f64.to_bits()), 0x8000_0000_0000_0000);
    assert_eq!(distance_key((-0.0f64).to_bits()), 0x7fff_ffff_ffff_ffff);
    assert_eq!(distance_key(1.0f64.to_bits()), 0x8000_0000_0000_0000 | 1.0f64.to_bits());
}

#[test]
fn nearest_hit_by_keys_of_negative_and_positive_distances() {
    let hits: Vec<Option<u64>> = [3.0f64, -2.0, 0.5].iter().map(|t| Some(distance_key(t.to_bits()))).collect();
    assert_eq!(closest_hit(&hits), Some(1));
}

#[test]
fn pixmap_of_full_size_image_matches_grid_size() {
    let mut img = Image::new(400, 225).unwrap();
    img.set(399, 224, Rgb { r: 1, g: 2, b: 3 });
    let text = String::from_utf8(img.to_ppm()).unwrap();
    assert!(text.starts_with("P3\n400 225\n255\n"));
    assert_eq!(text.lines().skip(3).count(), 90000);
    assert_eq!(text.lines().last(), Some("1 2 3"));
}
