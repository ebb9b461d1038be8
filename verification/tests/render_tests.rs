use mandelbrot::bands::plan_bands;
use mandelbrot::complex::ComplexPoint;
use mandelbrot::escape::escape_time;
use mandelbrot::mapper::pixel_to_point;
use mandelbrot::parallel::render_parallel;
use mandelbrot::render::render;

fn point(re: f64, im: f64) -> ComplexPoint {
    ComplexPoint::new(re.to_bits(), im.to_bits())
}

#[test]
fn test_pixel_to_point() {
    assert_eq!(
        pixel_to_point((100, 200), (25, 175), point(-1.0, 1.0), point(1.0, -1.0)),
        point(-0.5, -0.75)
    );
}

#[test]
fn mapper_sends_corner_pixels_to_viewport_corners() {
    let upper_left = point(-1.0, 1.0);
    let lower_right = point(1.0, -1.0);
    assert_eq!(pixel_to_point((100, 200), (0, 0), upper_left, lower_right), upper_left);
    assert_eq!(pixel_to_point((100, 200), (100, 200), upper_left, lower_right), lower_right);
}

#[test]
fn origin_never_escapes() {
    assert_eq!(escape_time(point(0.0, 0.0), 255), None);
    assert_eq!(escape_time(point(0.0, 0.0), 1), None);
    assert_eq!(escape_time(point(0.0, 0.0), 10_000), None);
}

#[test]
fn far_points_escape_immediately() {
    assert_eq!(escape_time(point(3.0, 3.0), 255), Some(0));
    let diverging = escape_time(point(2.0, 2.0), 255);
    assert!(diverging.is_some());
    assert!(diverging.unwrap() <= 2);
}

#[test]
fn band_partition_of_750_rows_among_8_workers() {
    let bands = plan_bands(
        (100, 750),
        point(-1.0, 1.0),
        point(1.0, -1.0),
        8,
    );
    assert_eq!(bands.len(), 8);
    let mut covered = 0;
    for (i, band) in bands.iter().enumerate() {
        assert_eq!(band.top, i * 94);
        assert_eq!(band.top, covered);
        covered += band.height;
    }
    for band in bands.iter().take(7) {
        assert_eq!(band.height, 94);
    }
    assert_eq!(bands[7].height, 92);
    assert_eq!(covered, 750);
}

#[test]
fn parallel_render_matches_for_one_and_eight_workers() {
    let bounds = (100, 200);
    let upper_left = point(-1.0, 1.0);
    let lower_right = point(1.0, -1.0);

    let mut sequential = vec![0u8; 100 * 200];
    render(&mut sequential, bounds, upper_left, lower_right);

    let mut one_worker = vec![0u8; 100 * 200];
    render_parallel(&mut one_worker, bounds, upper_left, lower_right, 1)
        .expect("parallel render failed");

    let mut eight_workers = vec![0u8; 100 * 200];
    render_parallel(&mut eight_workers, bounds, upper_left, lower_right, 8)
        .expect("parallel render failed");

    assert_eq!(one_worker, eight_workers);
    assert_eq!(sequential, one_worker);
}

#[test]
fn far_field_viewport_renders_all_white() {
    let bounds = (16, 8);
    let upper_left = point(10.0, 10.0);
    let lower_right = point(12.0, 8.0);

    let mut pixels = vec![0u8; 16 * 8];
    render(&mut pixels, bounds, upper_left, lower_right);
    assert!(pixels.iter().all(|&p| p == 255));

    let mut parallel = vec![0u8; 16 * 8];
    render_parallel(&mut parallel, bounds, upper_left, lower_right, 3)
        .expect("parallel render failed");
    assert_eq!(pixels, parallel);
}

#[test]
fn viewport_inside_the_set_renders_all_black() {
    let bounds = (8, 8);
    let upper_left = point(-0.01, 0.01);
    let lower_right = point(0.01, -0.01);

    let mut pixels = vec![0u8; 8 * 8];
    render(&mut pixels, bounds, upper_left, lower_right);
    assert!(pixels.iter().all(|&p| p == 0));
}
