use visual_gen::config::{check_dimensions, check_escape_config, ConfigError};
use visual_gen::pixels::{PixelBuffer, Rgb};

fn frame(width: usize, height: usize, fill: Rgb) -> PixelBuffer {
    match PixelBuffer::new(width, height, fill) {
        Ok(p) => p,
        Err(e) => panic!("refused: {:?}", e),
    }
}

const BLACK: Rgb = Rgb { r: 0, g: 0, b: 0 };

#[test]
fn dimensions_give_the_cell_count() {
    assert_eq!(check_dimensions(3, 5), Ok(15));
    assert_eq!(check_dimensions(1, 1), Ok(1));
    assert_eq!(check_dimensions(usize::MAX / 4, 1), Ok(usize::MAX / 4));
}

#[test]
fn zero_dimensions_are_refused() {
    assert_eq!(check_dimensions(0, 5), Err(ConfigError::ZeroDimension));
    assert_eq!(check_dimensions(5, 0), Err(ConfigError::ZeroDimension));
    assert_eq!(check_dimensions(0, 0), Err(ConfigError::ZeroDimension));
}

#[test]
fn oversized_dimensions_are_refused() {
    assert_eq!(check_dimensions(usize::MAX, usize::MAX), Err(ConfigError::TooLarge));
    assert_eq!(check_dimensions(usize::MAX / 4 + 1, 1), Err(ConfigError::TooLarge));
    assert_eq!(check_dimensions(usize::MAX / 2, 2), Err(ConfigError::TooLarge));
}

#[test]
fn escape_config_needs_an_iteration() {
    assert_eq!(check_escape_config(4, 4, 0), Err(ConfigError::ZeroIterations));
    assert_eq!(check_escape_config(4, 4, 1), Ok(16));
    assert_eq!(check_escape_config(4, 2, 50), Ok(8));
}

#[test]
fn escape_config_reports_the_surface_first() {
    assert_eq!(check_escape_config(0, 4, 0), Err(ConfigError::ZeroDimension));
    assert_eq!(check_escape_config(4, 0, 10), Err(ConfigError::ZeroDimension));
    assert_eq!(check_escape_config(usize::MAX, 2, 0), Err(ConfigError::TooLarge));
}

#[test]
fn new_frame_is_uniform_and_opaque() {
    let p = frame(2, 2, Rgb { r: 20, g: 20, b: 30 });
    assert_eq!(p.width(), 2);
    assert_eq!(p.height(), 2);
    assert_eq!(
        p.to_bytes(),
        vec![20, 20, 30, 255, 20, 20, 30, 255, 20, 20, 30, 255, 20, 20, 30, 255]
    );
}

#[test]
fn new_frame_refuses_bad_dimensions() {
    assert!(matches!(PixelBuffer::new(0, 3, BLACK), Err(ConfigError::ZeroDimension)));
    assert!(matches!(PixelBuffer::new(3, 0, BLACK), Err(ConfigError::ZeroDimension)));
    assert!(matches!(PixelBuffer::new(usize::MAX, 3, BLACK), Err(ConfigError::TooLarge)));
}

#[test]
fn set_pixel_writes_row_major() {
    let mut p = frame(3, 2, BLACK);
    assert!(p.set_pixel(1, 0, Rgb { r: 1, g: 2, b: 3 }));
    assert!(p.set_pixel(2, 1, Rgb { r: 4, g: 5, b: 6 }));
    let expected: Vec<u8> = vec![
        0, 0, 0, 255, 1, 2, 3, 255, 0, 0, 0, 255,
        0, 0, 0, 255, 0, 0, 0, 255, 4, 5, 6, 255,
    ];
    assert_eq!(p.to_bytes(), expected);
    assert_eq!(p.pixel(1, 0), Some(Rgb { r: 1, g: 2, b: 3 }));
    assert_eq!(p.pixel(2, 1), Some(Rgb { r: 4, g: 5, b: 6 }));
    assert_eq!(p.pixel(0, 0), Some(BLACK));
}

#[test]
fn set_pixel_outside_changes_nothing() {
    let mut p = frame(3, 2, BLACK);
    let before = p.to_bytes();
    assert!(!p.set_pixel(3, 0, Rgb { r: 9, g: 9, b: 9 }));
    assert!(!p.set_pixel(0, 2, Rgb { r: 9, g: 9, b: 9 }));
    assert_eq!(p.to_bytes(), before);
    assert_eq!(p.pixel(3, 0), None);
    assert_eq!(p.pixel(0, 2), None);
}

#[test]
fn set_pixel_overwrites() {
    let mut p = frame(2, 1, BLACK);
    p.set_pixel(0, 0, Rgb { r: 255, g: 0, b: 0 });
    p.set_pixel(0, 0, Rgb { r: 0, g: 255, b: 0 });
    assert_eq!(p.to_bytes(), vec![0, 255, 0, 255, 0, 0, 0, 255]);
}

#[test]
fn alpha_is_always_opaque() {
    let mut p = frame(4, 3, BLACK);
    p.set_pixel(2, 2, Rgb { r: 7, g: 8, b: 9 });
    let data = p.to_bytes();
    assert_eq!(data.len(), 4 * 3 * 4);
    for j in 0..data.len() {
        if j % 4 == 3 {
            assert_eq!(data[j], 255);
        }
    }
}
