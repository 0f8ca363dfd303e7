use pathtracer::render::{assemble, ConfigError, Settings};
use pathtracer::scalar::Scalar;
use pathtracer::vec3::Vec3;

fn pixel(x: usize, y: usize) -> Vec3 {
    Vec3::new(Scalar::from_bits(x as u64), Scalar::from_bits(y as u64), Scalar::zero())
}

fn rows(width: usize, height: usize) -> Vec<Vec<Vec3>> {
    (0..height).map(|y| (0..width).map(|x| pixel(x, y)).collect()).collect()
}

#[test]
fn settings_without_samples_are_refused() {
    assert_eq!(Settings::new(1920, 1080, 0, 10000), Err(ConfigError::NoSamples));
    assert_eq!(Settings::new(0, 0, 0, 0), Err(ConfigError::NoSamples));
}

#[test]
fn settings_with_samples_are_kept() {
    let expected = Settings { width: 1920, height: 1080, samples_per_pixel: 4096, depth: 10000 };
    assert_eq!(Settings::new(1920, 1080, 4096, 10000), Ok(expected));
    let single = Settings { width: 1, height: 1, samples_per_pixel: 1, depth: 0 };
    assert_eq!(Settings::new(1, 1, 1, 0), Ok(single));
    let empty = Settings { width: 0, height: 0, samples_per_pixel: 1, depth: 1 };
    assert_eq!(Settings::new(0, 0, 1, 1), Ok(empty));
}

#[test]
fn image_is_in_row_major_order() {
    let (width, height) = (7, 5);
    let pixels = assemble(&rows(width, height));
    assert_eq!(pixels.len(), width * height);
    for y in 0..height {
        for x in 0..width {
            assert_eq!(pixels[y * width + x], pixel(x, y));
        }
    }
}

#[test]
fn image_of_no_rows_is_empty() {
    assert_eq!(assemble(&Vec::new()), Vec::new());
    assert_eq!(assemble(&rows(0, 4)), Vec::new());
}

#[test]
fn image_keeps_rows_of_any_length_in_order() {
    let ragged = vec![vec![pixel(0, 0)], vec![], vec![pixel(0, 2), pixel(1, 2)]];
    assert_eq!(assemble(&ragged), vec![pixel(0, 0), pixel(0, 2), pixel(1, 2)]);
}
