use mandelbrot::color::quantize;
use mandelbrot::engine::DEFAULT_MAX_ITERATIONS;
use mandelbrot::Mandelbrot;

#[test]
fn a_new_engine_has_its_dimensions_and_the_default_cap() {
    let engine = Mandelbrot::new(4, 3);
    assert_eq!(engine.plot_width(), 4);
    assert_eq!(engine.plot_height(), 3);
    assert_eq!(engine.max_iterations(), 16);
    assert_eq!(DEFAULT_MAX_ITERATIONS, 16);
}

#[test]
fn a_new_engine_has_zeroed_buffers_of_the_right_size() {
    let engine = Mandelbrot::new(4, 3);
    assert_eq!(engine.plot_data(), &[0u8; 12][..]);
    assert_eq!(engine.plot_rgba(), &[0u8; 48][..]);
}

#[test]
fn an_empty_grid_has_empty_buffers() {
    for (width, height) in [(0, 0), (0, 5), (5, 0)] {
        let mut engine = Mandelbrot::new(width, height);
        assert_eq!(engine.plot_data().len(), 0);
        assert_eq!(engine.plot_rgba().len(), 0);
        engine.plot_generate(&[]);
        assert_eq!(engine.plot_data().len(), 0);
        assert_eq!(engine.plot_rgba().len(), 0);
        assert_eq!(engine.plot_width(), width);
        assert_eq!(engine.plot_height(), height);
    }
}

#[test]
fn setting_the_cap_leaves_the_buffers() {
    let mut engine = Mandelbrot::new(2, 2);
    engine.plot_generate(&[Some(1), Some(2), None, Some(3)]);
    let plot = engine.plot_data().to_vec();
    let rgba = engine.plot_rgba().to_vec();
    engine.max_iterations_set(2);
    assert_eq!(engine.max_iterations(), 2);
    assert_eq!(engine.plot_width(), 2);
    assert_eq!(engine.plot_height(), 2);
    assert_eq!(engine.plot_data(), &plot[..]);
    assert_eq!(engine.plot_rgba(), &rgba[..]);
}

#[test]
fn the_new_cap_takes_effect_at_the_next_rendering() {
    let mut engine = Mandelbrot::new(2, 2);
    let samples = [Some(1), Some(2), None, Some(3)];
    engine.plot_generate(&samples);
    assert_eq!(engine.plot_data(), &[1, 2, 16, 3][..]);
    engine.max_iterations_set(2);
    engine.plot_generate(&samples);
    assert_eq!(engine.plot_data(), &[1, 2, 2, 2][..]);
}

#[test]
fn a_rendering_stores_escapes_and_the_cap_for_bounded_pixels() {
    let mut engine = Mandelbrot::new(3, 2);
    engine.plot_generate(&[Some(0), Some(5), None, Some(15), None, Some(9)]);
    assert_eq!(engine.plot_data(), &[0, 5, 16, 15, 16, 9][..]);
}

#[test]
fn a_rendering_caps_what_it_stores() {
    let mut engine = Mandelbrot::new(3, 1);
    engine.max_iterations_set(10);
    engine.plot_generate(&[Some(9), Some(10), Some(200)]);
    assert_eq!(engine.plot_data(), &[9, 10, 10][..]);
    assert_eq!(&engine.plot_rgba()[0..4], &[64, 128, 0, 255][..]);
    assert_eq!(&engine.plot_rgba()[4..8], &[0, 0, 0, 255][..]);
    assert_eq!(&engine.plot_rgba()[8..12], &[0, 0, 0, 255][..]);
}

#[test]
fn a_rendering_colours_each_pixel_by_its_count() {
    let mut engine = Mandelbrot::new(2, 2);
    engine.max_iterations_set(255);
    engine.plot_generate(&[Some(0x1b), None, Some(1), Some(0x30)]);
    assert_eq!(
        engine.plot_rgba(),
        &[192, 128, 64, 255, 0, 0, 0, 255, 64, 0, 0, 255, 0, 0, 192, 255][..]
    );
}

#[test]
fn the_colour_buffer_agrees_with_the_palette_everywhere() {
    let mut engine = Mandelbrot::new(16, 16);
    engine.max_iterations_set(200);
    let samples: Vec<Option<u8>> =
        (0..256u32).map(|i| if i % 7 == 0 { None } else { Some(i as u8) }).collect();
    engine.plot_generate(&samples);
    let plot = engine.plot_data();
    let rgba = engine.plot_rgba();
    assert_eq!(plot.len(), 256);
    assert_eq!(rgba.len(), 1024);
    for p in 0..256 {
        let expected = match samples[p] {
            Some(i) if i < 200 => i,
            _ => 200,
        };
        assert_eq!(plot[p], expected);
        assert_eq!(engine.rgba(plot[p]), quantize(plot[p], 200));
        let pixel = engine.rgba(plot[p]);
        assert_eq!(&rgba[4 * p..4 * p + 4], &[pixel.r, pixel.g, pixel.b, pixel.a][..]);
        assert_eq!(rgba[4 * p + 3], 255);
    }
}

#[test]
fn a_rendering_leaves_nothing_of_the_one_before() {
    let mut engine = Mandelbrot::new(2, 2);
    engine.plot_generate(&[Some(3), Some(3), Some(3), Some(3)]);
    engine.plot_generate(&[Some(0), None, Some(4), Some(8)]);
    let mut fresh = Mandelbrot::new(2, 2);
    fresh.plot_generate(&[Some(0), None, Some(4), Some(8)]);
    assert_eq!(engine.plot_data(), fresh.plot_data());
    assert_eq!(engine.plot_rgba(), fresh.plot_rgba());
    assert_eq!(engine.plot_data(), &[0, 16, 4, 8][..]);
}

#[test]
fn rendering_the_same_samples_twice_gives_the_same_bytes() {
    let samples = [Some(2), None, Some(7), Some(11), None, Some(0)];
    let mut engine = Mandelbrot::new(3, 2);
    engine.plot_generate(&samples);
    let plot = engine.plot_data().to_vec();
    let rgba = engine.plot_rgba().to_vec();
    assert_eq!(engine.plot_data(), &plot[..]);
    assert_eq!(engine.plot_rgba(), &rgba[..]);
    engine.plot_generate(&samples);
    assert_eq!(engine.plot_data(), &plot[..]);
    assert_eq!(engine.plot_rgba(), &rgba[..]);
}

#[test]
fn a_cap_of_zero_stores_zero_for_every_sample() {
    let mut engine = Mandelbrot::new(2, 2);
    engine.max_iterations_set(0);
    engine.plot_generate(&[Some(0), None, Some(200), Some(1)]);
    assert_eq!(engine.plot_data(), &[0, 0, 0, 0][..]);
    assert_eq!(
        engine.plot_rgba(),
        &[0, 0, 0, 255, 0, 0, 0, 255, 0, 0, 0, 255, 0, 0, 0, 255][..]
    );
}

#[test]
fn the_colour_of_a_count_follows_the_cap_of_the_engine() {
    let mut engine = Mandelbrot::new(1, 1);
    let at_default = engine.rgba(5);
    assert_eq!((at_default.r, at_default.g, at_default.b, at_default.a), (64, 64, 0, 255));
    engine.max_iterations_set(5);
    let at_cap = engine.rgba(5);
    assert_eq!((at_cap.r, at_cap.g, at_cap.b, at_cap.a), (0, 0, 0, 255));
}
