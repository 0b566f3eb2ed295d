use chip8::display::Pixel;
use chip8::render::{create_pixel_indices, PixelGridSize};

#[test]
fn test_create_pixel_indices() {
    let height = 2;
    let width = 2;
    let pixels = vec![Pixel::On; height * width];
    let pixel_grid_size = PixelGridSize { height, width };

    let indices = create_pixel_indices(&pixels, &pixel_grid_size);

    assert_eq!(indices.len(), 6 * height * width);

    assert_eq!(indices[0], 0);
    assert_eq!(indices[1], 2);
    assert_eq!(indices[2], 1);
    assert_eq!(indices[3], 2);
    assert_eq!(indices[4], 3);
    assert_eq!(indices[5], 1);

    assert_eq!(indices[6], 4);
    assert_eq!(indices[7], 6);
    assert_eq!(indices[8], 5);
    assert_eq!(indices[9], 6);
    assert_eq!(indices[10], 7);
    assert_eq!(indices[11], 5);

    assert_eq!(indices[12], 8);
    assert_eq!(indices[13], 10);
    assert_eq!(indices[14], 9);
    assert_eq!(indices[15], 10);
    assert_eq!(indices[16], 11);
    assert_eq!(indices[17], 9);

    assert_eq!(indices[18], 12);
    assert_eq!(indices[19], 14);
    assert_eq!(indices[20], 13);
    assert_eq!(indices[21], 14);
    assert_eq!(indices[22], 15);
    assert_eq!(indices[23], 13);

    let pixels = vec![Pixel::On, Pixel::Off, Pixel::On, Pixel::Off];
    let indices = create_pixel_indices(&pixels, &pixel_grid_size);

    assert_eq!(indices.len(), 6 * 2);

    assert_eq!(indices[0], 0);
    assert_eq!(indices[1], 2);
    assert_eq!(indices[2], 1);
    assert_eq!(indices[3], 2);
    assert_eq!(indices[4], 3);
    assert_eq!(indices[5], 1);

    assert_eq!(indices[6], 4);
    assert_eq!(indices[7], 6);
    assert_eq!(indices[8], 5);
    assert_eq!(indices[9], 6);
    assert_eq!(indices[10], 7);
    assert_eq!(indices[11], 5);

    let pixels = vec![Pixel::On, Pixel::On, Pixel::Off, Pixel::Off];
    let indices = create_pixel_indices(&pixels, &pixel_grid_size);

    assert_eq!(indices.len(), 6 * 2);

    assert_eq!(indices[0], 0);
    assert_eq!(indices[1], 2);
    assert_eq!(indices[2], 1);
    assert_eq!(indices[3], 2);
    assert_eq!(indices[4], 3);
    assert_eq!(indices[5], 1);

    assert_eq!(indices[6], 4);
    assert_eq!(indices[7], 6);
    assert_eq!(indices[8], 5);
    assert_eq!(indices[9], 6);
    assert_eq!(indices[10], 7);
    assert_eq!(indices[11], 5);
}

#[test]
fn no_lit_pixels_no_indices() {
    let grid = PixelGridSize { width: 3, height: 1 };
    let indices = create_pixel_indices(&[Pixel::Off, Pixel::Off, Pixel::Off], &grid);
    assert_eq!(indices, Vec::<u32>::new());
    let empty = PixelGridSize { width: 0, height: 7 };
    assert_eq!(create_pixel_indices(&[], &empty), Vec::<u32>::new());
}

#[test]
fn grid_size_is_width_times_height() {
    assert_eq!(PixelGridSize { width: 64, height: 32 }.size(), 2048);
    assert_eq!(PixelGridSize { width: 0, height: 32 }.size(), 0);
}
