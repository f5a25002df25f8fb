use raytracer::color::{level_of, quantize, write_color, write_decimal, write_header, write_image};
use raytracer::vec3::Vec3;

fn rank_of(x: f64) -> i64 {
    let x = if x == 0.0 { 0.0 } else { x };
    let b = x.to_bits() as i64;
    if b < 0 {
        b ^ i64::MAX
    } else {
        b
    }
}

fn clamped_times_256(g: f64) -> u32 {
    let c = if g < 0.0 {
        0.0
    } else if g > 0.9999 {
        0.9999
    } else {
        g
    };
    (c * 256.0) as u32
}

fn text(bytes: &Vec<u8>) -> String {
    String::from_utf8(bytes.clone()).unwrap()
}

#[test]
fn levels_are_the_ranks_of_the_256ths() {
    for k in 1..=255u8 {
        assert_eq!(level_of(k), rank_of(k as f64 / 256.0));
    }
}

#[test]
fn quantize_is_the_floor_of_the_clamped_channel_times_256() {
    let mut samples = vec![
        -1.0,
        -1e-300,
        0.0,
        1e-300,
        0.003,
        1.0 / 256.0,
        0.00390624,
        0.5,
        0.49999999,
        0.7,
        0.9960937,
        0.99609375,
        0.9999,
        0.99995,
        1.0,
        2.0,
        1e300,
        f64::INFINITY,
        f64::NEG_INFINITY,
    ];
    for k in 0..=256 {
        let x = k as f64 / 256.0;
        samples.push(x);
        samples.push(f64::from_bits(x.to_bits() + 1));
        if k > 0 {
            samples.push(f64::from_bits(x.to_bits() - 1));
        }
    }
    for i in 0..2000 {
        samples.push(i as f64 / 1999.0);
    }
    for g in samples {
        assert_eq!(quantize(rank_of(g)) as u32, clamped_times_256(g));
    }
}

#[test]
fn quantize_of_the_gamma_of_linear_channels() {
    assert_eq!(quantize(rank_of(0.7f64.sqrt())), 214);
    assert_eq!(quantize(rank_of(0.8f64.sqrt())), 228);
    assert_eq!(quantize(rank_of(1.0f64.sqrt())), 255);
    assert_eq!(quantize(rank_of(0.0f64.sqrt())), 0);
    assert_eq!(quantize(rank_of(0.25f64.sqrt())), 128);
}

#[test]
fn write_decimal_has_no_leading_zeros() {
    for (n, s) in [(0u32, "0"), (7, "7"), (10, "10"), (255, "255"), (1200, "1200"), (u32::MAX, "4294967295")] {
        let mut out = Vec::new();
        write_decimal(&mut out, n);
        assert_eq!(text(&out), s);
    }
}

#[test]
fn write_header_is_the_plain_ppm_header() {
    let mut out = Vec::new();
    write_header(&mut out, 40, 30);
    assert_eq!(text(&out), "P3\n40 30\n255\n");
}

#[test]
fn write_color_appends_one_line() {
    let mut out = b"x".to_vec();
    write_color(&mut out, &Vec3::new(rank_of(0.5), rank_of(0.0), rank_of(3.0)));
    assert_eq!(text(&out), "x128 0 255\n");
    write_color(&mut out, &Vec3::new(rank_of(-0.5), rank_of(0.1), rank_of(0.99)));
    assert_eq!(text(&out), "x128 0 255\n0 25 253\n");
}

#[test]
fn empty_scene_is_background_everywhere() {
    let background = Vec3::new(
        rank_of(0.7f64.sqrt()),
        rank_of(0.8f64.sqrt()),
        rank_of(1.0f64.sqrt()),
    );
    let pixels = vec![background; 100];
    let mut out = Vec::new();
    write_image(&mut out, 10, 10, &pixels);
    let mut expected = String::from("P3\n10 10\n255\n");
    for _ in 0..100 {
        expected.push_str("214 228 255\n");
    }
    assert_eq!(text(&out), expected);
}

#[test]
fn write_image_goes_row_by_row() {
    let mut pixels = Vec::new();
    for j in 0..2 {
        for i in 0..3 {
            pixels.push(Vec3::new(rank_of(i as f64 / 4.0), rank_of(j as f64 / 2.0), 0));
        }
    }
    let mut out = Vec::new();
    write_image(&mut out, 3, 2, &pixels);
    assert_eq!(
        text(&out),
        "P3\n3 2\n255\n0 0 0\n64 0 0\n128 0 0\n0 128 0\n64 128 0\n128 128 0\n"
    );
    let mut none = Vec::new();
    write_image(&mut none, 0, 5, &Vec::new());
    assert_eq!(text(&none), "P3\n0 5\n255\n");
}
